//! The head of the inbound request: lines of text up to the first empty line.
//!
//! A line ends at a line feed; a carriage return right before the line feed
//! belongs to the line end. The head ends with the first empty line, or where
//! the stream ends. What follows the empty line is never looked at.

use vstd::prelude::*;
use vstd::utf8::decode_utf8;
use vstd::utf8::valid_utf8;

verus! {

/// The byte that ends a line.
pub const LINE_FEED: u8 = 10;

/// The byte that may stand before a line feed.
pub const CARRIAGE_RETURN: u8 = 13;

/// Why no request head could be read.
#[derive(Clone, Copy, Debug, PartialEq, Eq, Structural)]
pub enum ReadError {
    /// The stream reported a fault before the head had ended.
    Fault,
    /// A line of the head is not UTF-8 text.
    InvalidText,
}

/// How far the reading of a head has come, given the bytes received so far.
pub enum HeadScan {
    /// No empty line yet. `lines` are the lines that have ended, `pending`
    /// the bytes received of the line that has not.
    Reading { lines: Seq<Seq<char>>, pending: Seq<u8> },
    /// The empty line was seen. `lines` are the lines before it.
    Complete { lines: Seq<Seq<char>> },
    /// A line that had ended was not UTF-8 text.
    Invalid,
}

/// The number of bytes before the first line feed in `bytes`; the length of
/// `bytes` if there is none.
pub open spec fn first_line_feed(bytes: Seq<u8>) -> nat
    decreases bytes.len(),
{
    if bytes.len() == 0 || bytes[0] == 10 {
        0
    } else {
        1 + first_line_feed(bytes.drop_first())
    }
}

/// `line` without the carriage return at its end, if it has one.
pub open spec fn strip_carriage_return(line: Seq<u8>) -> Seq<u8> {
    if line.len() > 0 && line.last() == 13 {
        line.drop_last()
    } else {
        line
    }
}

impl HeadScan {
    /// The scan of no bytes at all.
    pub open spec fn start() -> HeadScan {
        HeadScan::Reading { lines: Seq::empty(), pending: Seq::empty() }
    }

    /// The pending line, if there is one, holds no line feed.
    pub open spec fn well_formed(self) -> bool {
        self matches HeadScan::Reading { pending, .. } ==> first_line_feed(pending)
            == pending.len()
    }

    /// The same scan with `earlier` lines in front of its own.
    pub open spec fn after(self, earlier: Seq<Seq<char>>) -> HeadScan {
        match self {
            HeadScan::Reading { lines, pending } => HeadScan::Reading {
                lines: earlier + lines,
                pending,
            },
            HeadScan::Complete { lines } => HeadScan::Complete { lines: earlier + lines },
            HeadScan::Invalid => HeadScan::Invalid,
        }
    }

    /// The scan after the line `line` (its line end taken off) has ended
    /// behind `lines`.
    pub open spec fn line_ended(lines: Seq<Seq<char>>, line: Seq<u8>) -> HeadScan {
        if line.len() == 0 {
            HeadScan::Complete { lines }
        } else if !valid_utf8(line) {
            HeadScan::Invalid
        } else {
            HeadScan::Reading { lines: lines.push(decode_utf8(line)), pending: Seq::empty() }
        }
    }

    /// The scan after one more byte.
    pub open spec fn step(self, byte: u8) -> HeadScan {
        match self {
            HeadScan::Reading { lines, pending } => if byte == 10 {
                HeadScan::line_ended(lines, strip_carriage_return(pending))
            } else {
                HeadScan::Reading { lines, pending: pending.push(byte) }
            },
            _ => self,
        }
    }

    /// The scan after more bytes.
    pub open spec fn absorb(self, bytes: Seq<u8>) -> HeadScan {
        match self {
            HeadScan::Reading { lines, pending } => scan_head(pending + bytes).after(lines),
            _ => self,
        }
    }

    /// The head, if the stream ends here: the lines that have ended and, if
    /// bytes are pending, those as the last line.
    pub open spec fn at_end(self) -> Result<Seq<Seq<char>>, ReadError> {
        match self {
            HeadScan::Complete { lines } => Ok(lines),
            HeadScan::Invalid => Err(ReadError::InvalidText),
            HeadScan::Reading { lines, pending } => if pending.len() == 0 {
                Ok(lines)
            } else if valid_utf8(pending) {
                Ok(lines.push(decode_utf8(pending)))
            } else {
                Err(ReadError::InvalidText)
            },
        }
    }
}

/// The scan of the bytes `bytes`, read from the start of the stream.
pub open spec fn scan_head(bytes: Seq<u8>) -> HeadScan
    decreases bytes.len(),
{
    let end = first_line_feed(bytes);
    if end >= bytes.len() {
        HeadScan::Reading { lines: Seq::empty(), pending: bytes }
    } else {
        match HeadScan::line_ended(Seq::empty(), strip_carriage_return(bytes.take(end as int))) {
            HeadScan::Reading { lines, .. } => scan_head(bytes.skip(end as int + 1)).after(lines),
            ended => ended,
        }
    }
}

/// The head of a request whose stream holds `bytes` and then ends.
pub open spec fn request_head(bytes: Seq<u8>) -> Result<Seq<Seq<char>>, ReadError> {
    scan_head(bytes).at_end()
}

/// `first_line_feed` is the place of the first line feed: no line feed comes
/// before it, and one stands there unless it is the end of the bytes.
pub proof fn lemma_first_line_feed(bytes: Seq<u8>)
    ensures
        first_line_feed(bytes) <= bytes.len(),
        forall|i: int| 0 <= i < first_line_feed(bytes) ==> bytes[i] != 10,
        first_line_feed(bytes) < bytes.len() ==> bytes[first_line_feed(bytes) as int] == 10,
    decreases bytes.len(),
{
    if bytes.len() == 0 || bytes[0] == 10 {
    } else {
        let rest = bytes.drop_first();
        lemma_first_line_feed(rest);
        assert forall|i: int| 0 <= i < first_line_feed(bytes) implies bytes[i] != 10 by {
            if i > 0 {
                assert(bytes[i] == rest[i - 1]);
            }
        }
        assert(first_line_feed(bytes) < bytes.len() ==> bytes[first_line_feed(bytes) as int]
            == rest[first_line_feed(rest) as int]);
    }
}

/// Where the first line feed is after one more byte.
pub proof fn lemma_first_line_feed_push(bytes: Seq<u8>, byte: u8)
    ensures
        first_line_feed(bytes.push(byte)) == if first_line_feed(bytes) < bytes.len() || byte == 10 {
            first_line_feed(bytes)
        } else {
            bytes.len() + 1
        },
    decreases bytes.len(),
{
    let longer = bytes.push(byte);
    if bytes.len() == 0 {
        assert(longer.drop_first() =~= Seq::<u8>::empty());
        assert(first_line_feed(longer.drop_first()) == 0);
    } else if bytes[0] == 10 {
    } else {
        lemma_first_line_feed_push(bytes.drop_first(), byte);
        assert(longer.drop_first() =~= bytes.drop_first().push(byte));
    }
}

/// Lines in front do not change what one more byte does.
pub proof fn lemma_step_after(scan: HeadScan, earlier: Seq<Seq<char>>, byte: u8)
    ensures
        scan.after(earlier).step(byte) == scan.step(byte).after(earlier),
{
    match scan {
        HeadScan::Reading { lines, pending } => {
            if byte == 10 {
                let line = strip_carriage_return(pending);
                if line.len() != 0 && valid_utf8(line) {
                    assert((earlier + lines).push(decode_utf8(line)) =~= earlier + lines.push(
                        decode_utf8(line),
                    ));
                }
            }
        },
        _ => {},
    }
}

/// Scanning is byte by byte: the scan of a stream with one more byte is the
/// step of the scan so far.
pub proof fn lemma_scan_push(bytes: Seq<u8>, byte: u8)
    ensures
        scan_head(bytes.push(byte)) == scan_head(bytes).step(byte),
    decreases bytes.len(),
{
    let longer = bytes.push(byte);
    let end = first_line_feed(bytes);
    lemma_first_line_feed(bytes);
    lemma_first_line_feed_push(bytes, byte);
    if end >= bytes.len() {
        if byte == 10 {
            assert(longer.take(end as int) =~= bytes);
            assert(longer.skip(end as int + 1) =~= Seq::<u8>::empty());
            let line = strip_carriage_return(bytes);
            if line.len() != 0 && valid_utf8(line) {
                assert(first_line_feed(Seq::<u8>::empty()) == 0);
                assert(scan_head(Seq::<u8>::empty()) == HeadScan::start());
                assert(Seq::<Seq<char>>::empty().push(decode_utf8(line)) + Seq::<
                    Seq<char>,
                >::empty() =~= Seq::<Seq<char>>::empty().push(decode_utf8(line)));
            }
        }
    } else {
        assert(longer.take(end as int) =~= bytes.take(end as int));
        assert(longer.skip(end as int + 1) =~= bytes.skip(end as int + 1).push(byte));
        match HeadScan::line_ended(Seq::empty(), strip_carriage_return(bytes.take(end as int))) {
            HeadScan::Reading { lines, .. } => {
                lemma_scan_push(bytes.skip(end as int + 1), byte);
                lemma_step_after(scan_head(bytes.skip(end as int + 1)), lines, byte);
            },
            _ => {},
        }
    }
}

/// Every scan of a stream is well formed.
pub proof fn lemma_scan_well_formed(bytes: Seq<u8>)
    ensures
        scan_head(bytes).well_formed(),
    decreases bytes.len(),
{
    let end = first_line_feed(bytes);
    lemma_first_line_feed(bytes);
    if end < bytes.len() {
        match HeadScan::line_ended(Seq::empty(), strip_carriage_return(bytes.take(end as int))) {
            HeadScan::Reading { lines, .. } => {
                lemma_scan_well_formed(bytes.skip(end as int + 1));
            },
            _ => {},
        }
    }
}

/// Absorbing is byte by byte too.
pub proof fn lemma_absorb_push(scan: HeadScan, bytes: Seq<u8>, byte: u8)
    ensures
        scan.absorb(bytes.push(byte)) == scan.absorb(bytes).step(byte),
{
    match scan {
        HeadScan::Reading { lines, pending } => {
            assert(pending + bytes.push(byte) =~= (pending + bytes).push(byte));
            lemma_scan_push(pending + bytes, byte);
            lemma_step_after(scan_head(pending + bytes), lines, byte);
        },
        _ => {},
    }
}

/// Absorbing no bytes changes nothing.
pub proof fn lemma_absorb_nothing(scan: HeadScan)
    requires
        scan.well_formed(),
    ensures
        scan.absorb(Seq::empty()) == scan,
{
    match scan {
        HeadScan::Reading { lines, pending } => {
            assert(pending + Seq::<u8>::empty() =~= pending);
            assert(lines + Seq::<Seq<char>>::empty() =~= lines);
        },
        _ => {},
    }
}

/// Absorbing keeps a scan well formed.
pub proof fn lemma_absorb_well_formed(scan: HeadScan, bytes: Seq<u8>)
    requires
        scan.well_formed(),
    ensures
        scan.absorb(bytes).well_formed(),
{
    match scan {
        HeadScan::Reading { lines, pending } => {
            lemma_scan_well_formed(pending + bytes);
        },
        _ => {},
    }
}

/// How a stream is cut into chunks does not matter: absorbing two chunks one
/// after the other is absorbing the two joined.
pub proof fn lemma_absorb_joined(scan: HeadScan, first: Seq<u8>, second: Seq<u8>)
    requires
        scan.well_formed(),
    ensures
        scan.absorb(first).absorb(second) == scan.absorb(first + second),
    decreases second.len(),
{
    if second.len() == 0 {
        lemma_absorb_well_formed(scan, first);
        lemma_absorb_nothing(scan.absorb(first));
        assert(second =~= Seq::<u8>::empty());
        assert(first + second =~= first);
    } else {
        let front = second.drop_last();
        lemma_absorb_joined(scan, first, front);
        assert(second =~= front.push(second.last()));
        lemma_absorb_push(scan.absorb(first), front, second.last());
        assert(first + second =~= (first + front).push(second.last()));
        lemma_absorb_push(scan, first + front, second.last());
    }
}

/// The scan of a stream is what absorbing the stream from the start gives,
/// in whatever chunks it comes.
pub proof fn lemma_scan_in_chunks(first: Seq<u8>, second: Seq<u8>)
    ensures
        HeadScan::start().absorb(first) == scan_head(first),
        scan_head(first).absorb(second) == scan_head(first + second),
{
    lemma_absorb_from_start(first);
    lemma_absorb_from_start(first + second);
    lemma_absorb_joined(HeadScan::start(), first, second);
}

/// Absorbing from the start of a stream is scanning.
pub proof fn lemma_absorb_from_start(bytes: Seq<u8>)
    ensures
        HeadScan::start().absorb(bytes) == scan_head(bytes),
{
    assert(Seq::<u8>::empty() + bytes =~= bytes);
    match scan_head(bytes) {
        HeadScan::Reading { lines, pending } => {
            assert(Seq::<Seq<char>>::empty() + lines =~= lines);
        },
        HeadScan::Complete { lines } => {
            assert(Seq::<Seq<char>>::empty() + lines =~= lines);
        },
        HeadScan::Invalid => {},
    }
}

/// The texts of a sequence of strings.
pub open spec fn texts(lines: Seq<String>) -> Seq<Seq<char>> {
    lines.map_values(|line: String| line@)
}

/// The head of one inbound request: its lines in order, without their line
/// ends and without the empty line that ended the head. The lines are kept as
/// they came; nothing in them is interpreted.
#[derive(Debug, PartialEq, Eq)]
pub struct InboundRequest {
    head_lines: Vec<String>,
}

impl View for InboundRequest {
    type V = Seq<Seq<char>>;

    closed spec fn view(&self) -> Seq<Seq<char>> {
        texts(self.head_lines@)
    }
}

impl InboundRequest {
    /// A request head with the given lines.
    pub fn new(head_lines: Vec<String>) -> (request: InboundRequest)
        ensures
            request@ == texts(head_lines@),
    {
        InboundRequest { head_lines }
    }

    /// The lines of the head, in order.
    pub fn head_lines(&self) -> (lines: &Vec<String>)
        ensures
            texts(lines@) == self@,
    {
        &self.head_lines
    }

    /// The lines of the head, in order.
    pub fn into_head_lines(self) -> (lines: Vec<String>)
        ensures
            texts(lines@) == self@,
    {
        self.head_lines
    }
}

/// What a read of the head came to, as mathematical values.
pub open spec fn read_view(read: Result<InboundRequest, ReadError>) -> Result<
    Seq<Seq<char>>,
    ReadError,
> {
    match read {
        Ok(request) => Ok(request@),
        Err(error) => Err(error),
    }
}

/// `String::from_utf8` of std: the text that `bytes` encode in UTF-8, and
/// `None` exactly where they are no valid UTF-8.
#[verifier::external_body]
fn text_of_utf8(bytes: Vec<u8>) -> (text: Option<String>)
    ensures
        text is Some <==> valid_utf8(bytes@),
        text matches Some(t) ==> t@ == decode_utf8(bytes@),
{
    String::from_utf8(bytes).ok()
}

#[derive(Clone, Copy, Debug, PartialEq, Eq, Structural)]
enum ReaderState {
    Reading,
    Complete,
    Invalid,
}

/// The scan that a reader's parts stand for.
spec fn scan_of(state: ReaderState, lines: Seq<String>, pending: Seq<u8>) -> HeadScan {
    match state {
        ReaderState::Reading => HeadScan::Reading { lines: texts(lines), pending },
        ReaderState::Complete => HeadScan::Complete { lines: texts(lines) },
        ReaderState::Invalid => HeadScan::Invalid,
    }
}

/// Takes the next byte of the stream.
fn accept(state: ReaderState, lines: &mut Vec<String>, pending: &mut Vec<u8>, byte: u8) -> (next:
    ReaderState)
    requires
        scan_of(state, old(lines)@, old(pending)@).well_formed(),
    ensures
        scan_of(next, final(lines)@, final(pending)@) == scan_of(
            state,
            old(lines)@,
            old(pending)@,
        ).step(byte),
        scan_of(next, final(lines)@, final(pending)@).well_formed(),
{
    match state {
        ReaderState::Reading => {
            if byte == LINE_FEED {
                let mut line: Vec<u8> = Vec::new();
                std::mem::swap(&mut line, pending);
                let n = line.len();
                if n > 0 && line[n - 1] == CARRIAGE_RETURN {
                    line.pop();
                }
                assert(line@ == strip_carriage_return(old(pending)@));
                if line.len() == 0 {
                    ReaderState::Complete
                } else {
                    match text_of_utf8(line) {
                        Some(text) => {
                            assert(texts(lines@.push(text)) =~= texts(lines@).push(text@));
                            lines.push(text);
                            ReaderState::Reading
                        },
                        None => ReaderState::Invalid,
                    }
                }
            } else {
                proof {
                    lemma_first_line_feed_push(pending@, byte);
                }
                pending.push(byte);
                ReaderState::Reading
            }
        },
        _ => state,
    }
}

/// Reads a request head from the bytes of a stream, chunk by chunk.
#[derive(Debug)]
pub struct HeadReader {
    state: ReaderState,
    lines: Vec<String>,
    pending: Vec<u8>,
}

impl View for HeadReader {
    type V = HeadScan;

    closed spec fn view(&self) -> HeadScan {
        scan_of(self.state, self.lines@, self.pending@)
    }
}

impl HeadReader {
    #[verifier::type_invariant]
    spec fn no_line_feed_pending(self) -> bool {
        scan_of(self.state, self.lines@, self.pending@).well_formed()
    }

    /// A reader at the start of a stream.
    pub fn new() -> (reader: HeadReader)
        ensures
            reader@ == HeadScan::start(),
    {
        let lines: Vec<String> = Vec::new();
        assert(texts(lines@) =~= Seq::<Seq<char>>::empty());
        HeadReader { state: ReaderState::Reading, lines, pending: Vec::new() }
    }

    /// The reader after the next chunk of the stream. Once the head has
    /// ended, or has proved invalid, further bytes change nothing.
    pub fn feed(self, chunk: &[u8]) -> (next: HeadReader)
        ensures
            next@ == self@.absorb(chunk@),
            next@.well_formed(),
    {
        proof {
            use_type_invariant(&self);
            lemma_absorb_nothing(self@);
            assert(chunk@.take(0) =~= Seq::<u8>::empty());
        }
        let ghost before = self@;
        let HeadReader { state, lines, pending } = self;
        let mut state = state;
        let mut lines = lines;
        let mut pending = pending;
        let mut i: usize = 0;
        while i < chunk.len()
            invariant
                i <= chunk.len(),
                scan_of(state, lines@, pending@) == before.absorb(chunk@.take(i as int)),
                scan_of(state, lines@, pending@).well_formed(),
            decreases chunk.len() - i,
        {
            proof {
                lemma_absorb_push(before, chunk@.take(i as int), chunk@[i as int]);
                assert(chunk@.take(i + 1) =~= chunk@.take(i as int).push(chunk@[i as int]));
            }
            state = accept(state, &mut lines, &mut pending, chunk[i]);
            i += 1;
        }
        assert(chunk@.take(i as int) =~= chunk@);
        HeadReader { state, lines, pending }
    }

    /// Whether the head is still open: no empty line and no invalid line has
    /// been seen.
    pub fn is_reading(&self) -> (yes: bool)
        ensures
            yes == (self@ is Reading),
    {
        match self.state {
            ReaderState::Reading => true,
            _ => false,
        }
    }

    /// Whether the empty line that ends the head has been seen.
    pub fn is_complete(&self) -> (yes: bool)
        ensures
            yes == (self@ is Complete),
    {
        match self.state {
            ReaderState::Complete => true,
            _ => false,
        }
    }

    /// The head as it stands when the stream ends here, or when the head is
    /// complete.
    pub fn finish(self) -> (read: Result<InboundRequest, ReadError>)
        ensures
            read_view(read) == self@.at_end(),
    {
        let HeadReader { state, lines, pending } = self;
        match state {
            ReaderState::Complete => Ok(InboundRequest { head_lines: lines }),
            ReaderState::Invalid => Err(ReadError::InvalidText),
            ReaderState::Reading => {
                if pending.len() == 0 {
                    Ok(InboundRequest { head_lines: lines })
                } else {
                    match text_of_utf8(pending) {
                        Some(text) => {
                            let mut lines = lines;
                            assert(texts(lines@.push(text)) =~= texts(lines@).push(text@));
                            lines.push(text);
                            Ok(InboundRequest { head_lines: lines })
                        },
                        None => Err(ReadError::InvalidText),
                    }
                }
            },
        }
    }
}

/// Reads the head of a request from a stream that holds `bytes` and then
/// ends.
pub fn read_request_head(bytes: &[u8]) -> (read: Result<InboundRequest, ReadError>)
    ensures
        read_view(read) == request_head(bytes@),
{
    let reader = HeadReader::new().feed(bytes);
    proof {
        lemma_absorb_from_start(bytes@);
    }
    reader.finish()
}

} // verus!
