//! One TLS session on the server side, without its socket.
//!
//! The session takes the bytes that came from the raw connection and gives
//! the bytes that are to go out on it; behind the handshake it takes and
//! gives the plain text of the encrypted channel. The TLS protocol itself is
//! the work of rustls. What is decided here is what the session does with
//! each answer of rustls: above all, that a session whose handshake is
//! refused gives not one byte more.

use std::io::ErrorKind;
use std::io::Read;
use std::io::Write;
use std::sync::Arc;
use vstd::prelude::*;
use vstd::slice::slice_subrange;
use rustls::ServerConfig;
use rustls::ServerConnection;

verus! {

/// Where a session stands.
#[derive(Clone, Copy, Debug, PartialEq, Eq, Structural)]
pub enum SessionState {
    /// The handshake is under way; there is no encrypted channel yet.
    Handshaking,
    /// The handshake completed; plain text can be read and written.
    Established,
    /// The handshake was refused. Nothing is read or written any more.
    Closed,
}

/// Why there is no encrypted channel.
#[derive(Clone, Copy, Debug, PartialEq, Eq, Structural)]
pub enum HandshakeError {
    /// No session could be made from the configuration.
    Setup,
    /// What the peer sent is no handshake that can be accepted.
    Refused,
}

/// Why plain text could not be written.
#[derive(Clone, Copy, Debug, PartialEq, Eq, Structural)]
pub enum WriteError {
    /// There is no encrypted channel to write to.
    NotEstablished,
    /// The TLS library took none of the text.
    Stalled,
}

/// What a read of plain text came to.
#[derive(Debug, PartialEq, Eq)]
pub enum PlainRead {
    /// These bytes were read; there is at least one.
    Data(Vec<u8>),
    /// Nothing is there yet: more bytes must come from the raw connection.
    Pending,
    /// The peer has closed the channel in good order.
    End,
    /// The channel has failed, or there is none.
    Fault,
}

/// [`PlainRead`] as a mathematical value.
pub enum PlainReadModel {
    Data(Seq<u8>),
    Pending,
    End,
    Fault,
}

impl View for PlainRead {
    type V = PlainReadModel;

    open spec fn view(&self) -> PlainReadModel {
        match *self {
            PlainRead::Data(bytes) => PlainReadModel::Data(bytes@),
            PlainRead::Pending => PlainReadModel::Pending,
            PlainRead::End => PlainReadModel::End,
            PlainRead::Fault => PlainReadModel::Fault,
        }
    }
}

/// What the TLS library answered to a read of plain text.
#[derive(Debug, PartialEq, Eq)]
pub enum PlainStep {
    /// It gave these bytes; none, where the peer has closed the channel.
    Bytes(Vec<u8>),
    /// It has no plain text now.
    WouldBlock,
    /// It reported an error.
    Failed,
}

/// [`TlsSession`] as a mathematical value.
pub struct SessionModel {
    /// Where the session stands.
    pub state: SessionState,
    /// Whether the TLS library has refused input since the handshake.
    pub faulted: bool,
    /// The plain text that has arrived and was not read yet.
    pub inbox: Seq<u8>,
    /// Whether the peer has closed the channel in good order.
    pub peer_closed: bool,
    /// All bytes of the raw connection that the TLS library has taken in.
    pub taken: Seq<u8>,
    /// All plain text that the TLS library has taken for sending.
    pub sent: Seq<u8>,
}

/// The most plain text that one read gives.
pub const READ_LIMIT: usize = 4096;

impl SessionModel {
    /// A session at the start of its handshake.
    pub open spec fn start() -> SessionModel {
        SessionModel {
            state: SessionState::Handshaking,
            faulted: false,
            inbox: Seq::empty(),
            peer_closed: false,
            taken: Seq::empty(),
            sent: Seq::empty(),
        }
    }

    /// The session after the TLS library was given input. `accepted` tells
    /// whether it took and processed all of it without error, `handshaking`
    /// whether it then says that the handshake is still under way.
    ///
    /// A refusal during the handshake closes the session. A refusal behind
    /// it leaves the channel standing for a last write, and is remembered.
    pub open spec fn after_input(self, accepted: bool, handshaking: bool) -> SessionModel {
        match self.state {
            SessionState::Handshaking => if !accepted {
                SessionModel { state: SessionState::Closed, ..self }
            } else if handshaking {
                self
            } else {
                SessionModel { state: SessionState::Established, ..self }
            },
            SessionState::Established => if accepted {
                self
            } else {
                SessionModel { faulted: true, ..self }
            },
            SessionState::Closed => self,
        }
    }

    /// The session after the TLS library has answered a request for plain
    /// text that has arrived: bytes are kept for reading, no bytes mean that
    /// the peer has closed the channel, an error is remembered.
    pub open spec fn after_step(self, step: PlainStepModel) -> SessionModel {
        match step {
            PlainStepModel::Bytes(bytes) => if bytes.len() == 0 {
                SessionModel { peer_closed: true, ..self }
            } else {
                SessionModel { inbox: self.inbox + bytes, ..self }
            },
            PlainStepModel::WouldBlock => self,
            PlainStepModel::Failed => SessionModel { faulted: true, ..self },
        }
    }

    /// The session after the TLS library has answered several requests for
    /// plain text, one after the other.
    pub open spec fn after_steps(self, steps: Seq<PlainStepModel>) -> SessionModel
        decreases steps.len(),
    {
        if steps.len() == 0 {
            self
        } else {
            self.after_steps(steps.drop_last()).after_step(steps.last())
        }
    }

    /// Whether this is `earlier` after more plain text may have arrived:
    /// the inbox has grown at its end, if at all; what was closed stays
    /// closed, what had failed stays failed; and without an encrypted
    /// channel nothing has changed.
    pub open spec fn grown_from(self, earlier: SessionModel) -> bool {
        &&& self.state == earlier.state
        &&& self.taken == earlier.taken
        &&& self.sent == earlier.sent
        &&& earlier.inbox.is_prefix_of(self.inbox)
        &&& earlier.faulted ==> self.faulted
        &&& earlier.peer_closed ==> self.peer_closed
        &&& earlier.state !is Established ==> self == earlier
    }

    /// What a read of plain text gives, and the session after it. Text that
    /// has arrived is given first, `READ_LIMIT` bytes of it at most; behind
    /// it the end, if the peer has closed the channel; a fault, if the TLS
    /// library has refused input; else the read is pending.
    pub open spec fn read(self) -> (PlainReadModel, SessionModel) {
        if !(self.state is Established) {
            (PlainReadModel::Fault, self)
        } else if self.inbox.len() > 0 {
            let n = if self.inbox.len() <= READ_LIMIT {
                self.inbox.len() as int
            } else {
                READ_LIMIT as int
            };
            (
                PlainReadModel::Data(self.inbox.take(n)),
                SessionModel { inbox: self.inbox.skip(n), ..self },
            )
        } else if self.peer_closed {
            (PlainReadModel::End, self)
        } else if self.faulted {
            (PlainReadModel::Fault, self)
        } else {
            (PlainReadModel::Pending, self)
        }
    }

    /// What a read of plain text gives when the raw connection has ended:
    /// what it gives otherwise, but that nothing can be pending any more.
    pub open spec fn read_at_end(self) -> (PlainReadModel, SessionModel) {
        match self.read().0 {
            PlainReadModel::Pending => (PlainReadModel::Fault, self.read().1),
            _ => self.read(),
        }
    }
}

impl PlainStepModel {
    /// Whether more may be asked for behind this answer: it may after bytes
    /// have come.
    pub open spec fn gives_more(self) -> bool {
        self matches PlainStepModel::Bytes(bytes) && bytes.len() > 0
    }
}

/// Whether `answers` are the answers to one round of asking the TLS library
/// for plain text: every answer but the last gave bytes, so that more was
/// asked for, and the last gave none, which ended the round.
pub open spec fn ends_round(answers: Seq<PlainStepModel>) -> bool {
    &&& answers.len() > 0
    &&& !answers.last().gives_more()
    &&& forall|i: int| 0 <= i < answers.len() - 1 ==> (#[trigger] answers[i]).gives_more()
}

/// Growth adds up: what has grown from what has grown from a session, has
/// grown from that session.
pub proof fn lemma_grown_twice(first: SessionModel, second: SessionModel, third: SessionModel)
    requires
        second.grown_from(first),
        third.grown_from(second),
    ensures
        third.grown_from(first),
{
    assert(first.inbox.is_prefix_of(third.inbox)) by {
        assert(first.inbox =~= third.inbox.subrange(0, first.inbox.len() as int));
    }
}

/// [`PlainStep`] as a mathematical value.
pub enum PlainStepModel {
    Bytes(Seq<u8>),
    WouldBlock,
    Failed,
}

impl View for PlainStep {
    type V = PlainStepModel;

    open spec fn view(&self) -> PlainStepModel {
        match *self {
            PlainStep::Bytes(bytes) => PlainStepModel::Bytes(bytes@),
            PlainStep::WouldBlock => PlainStepModel::WouldBlock,
            PlainStep::Failed => PlainStepModel::Failed,
        }
    }
}

/// `ServerConnection` of rustls: the TLS state machine of one connection.
/// Nothing is known of what it holds.
#[verifier::external_type_specification]
#[verifier::external_body]
pub struct ExServerConnection(ServerConnection);

/// Whether `ServerConnection::new` of rustls makes a state machine from
/// `config`. It does unless the size that the configuration sets for TLS
/// fragments is out of range.
pub uninterp spec fn makes_connection(config: ServerConfig) -> bool;

/// `ServerConnection::new` of rustls: a state machine at the start of a
/// handshake, or `None` where rustls makes none from the configuration.
/// What is claimed: whether it makes one depends on the configuration alone,
/// so it has a name, `makes_connection`.
#[verifier::external_body]
fn new_connection(config: Arc<ServerConfig>) -> (conn: Option<ServerConnection>)
    ensures
        conn is Some <==> makes_connection(*config),
{
    ServerConnection::new(config).ok()
}

/// `read_tls` of rustls, reading from a byte slice: rustls copies bytes from
/// the front of `bytes` into its buffer, as many as it has room for. The
/// result is what it left, or `None` where it reported an error. What is
/// claimed: what it left is the end of what it was given, from the first
/// byte that it did not copy. An empty slice is kept from it: it would take
/// that for the end of the raw connection.
#[verifier::external_body]
fn take_in<'a>(conn: &mut ServerConnection, bytes: &'a [u8]) -> (rest: Option<&'a [u8]>)
    requires
        bytes@.len() > 0,
    ensures
        rest matches Some(left) ==> left@.len() <= bytes@.len() && left@ == bytes@.skip(
            bytes@.len() - left@.len(),
        ),
{
    let mut left = bytes;
    match conn.read_tls(&mut left) {
        Ok(_) => Some(left),
        Err(_) => None,
    }
}

/// `process_new_packets` of rustls: has it work on what it has buffered, and
/// tells whether it reported no error. Nothing is claimed of the result.
#[verifier::external_body]
fn process(conn: &mut ServerConnection) -> (accepted: bool) {
    conn.process_new_packets().is_ok()
}

/// `is_handshaking` of rustls: whether it takes the handshake to be under
/// way still. Nothing is claimed of the result.
#[verifier::external_body]
fn handshaking(conn: &ServerConnection) -> (yes: bool) {
    conn.is_handshaking()
}

/// `write_tls` of rustls, writing to a vector: rustls appends TLS records
/// that it has ready to `out`. The result is the number of bytes appended,
/// or `None` where it reported an error. All that is claimed is that `out`
/// has grown by that number of bytes.
#[verifier::external_body]
fn emit(conn: &mut ServerConnection, out: &mut Vec<u8>) -> (written: Option<usize>)
    ensures
        written matches Some(n) ==> final(out)@.len() == old(out)@.len() + n,
{
    conn.write_tls(out).ok()
}

/// `reader().read` of rustls, into a buffer of `limit` bytes: plain text
/// that rustls has ready; no bytes, where the peer has closed the channel;
/// or that it has none now; or that it reported an error. Nothing is claimed
/// of the result. A buffer of no bytes is kept from it: rustls would answer
/// with no bytes then, which stand for the peer's closure.
#[verifier::external_body]
fn read_some(conn: &mut ServerConnection, limit: usize) -> (step: PlainStep)
    requires
        limit > 0,
{
    let mut buffer = vec![0u8; limit];
    match conn.reader().read(&mut buffer) {
        Ok(n) => {
            buffer.truncate(n);
            PlainStep::Bytes(buffer)
        },
        Err(error) if error.kind() == ErrorKind::WouldBlock => PlainStep::WouldBlock,
        Err(_) => PlainStep::Failed,
    }
}

/// `writer().write` of rustls: hands it plain text to send. The result is
/// the number of bytes that it took from the front of `data`, or `None`
/// where it reported an error. All that is claimed is that it took no more
/// than it was given.
#[verifier::external_body]
fn write_some(conn: &mut ServerConnection, data: &[u8]) -> (taken: Option<usize>)
    ensures
        taken matches Some(n) ==> n <= data@.len(),
{
    conn.writer().write(data).ok()
}

/// One TLS session on the server side.
pub struct TlsSession {
    conn: ServerConnection,
    state: SessionState,
    faulted: bool,
    inbox: Vec<u8>,
    peer_closed: bool,
    taken: Ghost<Seq<u8>>,
    sent: Ghost<Seq<u8>>,
}

impl View for TlsSession {
    type V = SessionModel;

    closed spec fn view(&self) -> SessionModel {
        SessionModel {
            state: self.state,
            faulted: self.faulted,
            inbox: self.inbox@,
            peer_closed: self.peer_closed,
            taken: self.taken@,
            sent: self.sent@,
        }
    }
}

/// The state of a session after input, as [`SessionModel::after_input`] has
/// it.
pub fn after_input(state: SessionState, faulted: bool, accepted: bool, handshaking: bool) -> (next:
    (SessionState, bool))
    ensures
        forall|m: SessionModel|
            m.state == state && m.faulted == faulted ==> #[trigger] m.after_input(
                accepted,
                handshaking,
            ) == (SessionModel { state: next.0, faulted: next.1, ..m }),
{
    match state {
        SessionState::Handshaking => if !accepted {
            (SessionState::Closed, faulted)
        } else if handshaking {
            (state, faulted)
        } else {
            (SessionState::Established, faulted)
        },
        SessionState::Established => if accepted {
            (state, faulted)
        } else {
            (SessionState::Established, true)
        },
        SessionState::Closed => (state, faulted),
    }
}

/// Whether the TLS library took input: it did where it reported no error
/// and left less than the `given` bytes. `left` is the number of bytes that
/// it left, or `None` where it reported an error. Input of which it takes
/// nothing counts as refused.
pub fn took_input(given: usize, left: Option<usize>) -> (took: bool)
    ensures
        took == (left matches Some(n) && n < given),
{
    match left {
        Some(n) => n < given,
        None => false,
    }
}

/// What is left to write after the TLS library was handed `left` bytes of
/// plain text. `taken` is the number of bytes that it took, or `None` where
/// it reported an error. Where it took none, or reported an error, or claims
/// more than it was handed, the write has stalled.
pub fn after_write(left: usize, taken: Option<usize>) -> (rest: Result<usize, WriteError>)
    ensures
        match taken {
            Some(n) => if 0 < n <= left {
                rest == Ok::<_, WriteError>((left - n) as usize)
            } else {
                rest == Err::<usize, _>(WriteError::Stalled)
            },
            None => rest == Err::<usize, _>(WriteError::Stalled),
        },
{
    match taken {
        Some(n) => if 0 < n && n <= left {
            Ok(left - n)
        } else {
            Err(WriteError::Stalled)
        },
        None => Err(WriteError::Stalled),
    }
}

/// What the answer of the TLS library to a request for plain text means for
/// the inbox and the two flags, as [`SessionModel::after_step`] has it. The
/// result tells whether more may be asked for: it may after bytes have come.
pub fn take_step(inbox: &mut Vec<u8>, faulted: &mut bool, peer_closed: &mut bool, step: PlainStep) -> (more:
    bool)
    ensures
        forall|m: SessionModel|
            m.inbox == old(inbox)@ && m.faulted == *old(faulted) && m.peer_closed == *old(
                peer_closed,
            ) ==> #[trigger] m.after_step(step@) == (SessionModel {
                inbox: final(inbox)@,
                faulted: *final(faulted),
                peer_closed: *final(peer_closed),
                ..m
            }),
        more == step@.gives_more(),
{
    match step {
        PlainStep::Bytes(bytes) => {
            if bytes.len() == 0 {
                *peer_closed = true;
                false
            } else {
                let mut bytes = bytes;
                inbox.append(&mut bytes);
                true
            }
        },
        PlainStep::WouldBlock => false,
        PlainStep::Failed => {
            *faulted = true;
            false
        },
    }
}

/// All TLS records that the library has ready.
fn drain(conn: &mut ServerConnection) -> (out: Vec<u8>) {
    let mut out: Vec<u8> = Vec::new();
    loop
        decreases usize::MAX - out@.len(),
    {
        let before = out.len();
        match emit(conn, &mut out) {
            Some(n) => if n == 0 {
                return out;
            },
            None => {
                return out;
            },
        }
        assert(before < out.len());
    }
}

impl TlsSession {
    /// A session at the start of its handshake, for a server with the given
    /// configuration.
    pub fn start(config: Arc<ServerConfig>) -> (session: Result<TlsSession, HandshakeError>)
        ensures
            session is Ok <==> makes_connection(*config),
            match session {
                Ok(s) => s@ == SessionModel::start(),
                Err(error) => error == HandshakeError::Setup,
            },
    {
        TlsSession::around(new_connection(config))
    }

    /// The session around the state machine that the TLS library has made,
    /// at the start of its handshake; the error, where it has made none.
    pub fn around(made: Option<ServerConnection>) -> (session: Result<TlsSession, HandshakeError>)
        ensures
            match made {
                Some(_) => session matches Ok(s) && s@ == SessionModel::start(),
                None => session matches Err(error) && error == HandshakeError::Setup,
            },
    {
        match made {
            Some(conn) => Ok(
                TlsSession {
                    conn,
                    state: SessionState::Handshaking,
                    faulted: false,
                    inbox: Vec::new(),
                    peer_closed: false,
                    taken: Ghost(Seq::empty()),
                    sent: Ghost(Seq::empty()),
                },
            ),
            None => Err(HandshakeError::Setup),
        }
    }

    /// Where the session stands.
    pub fn state(&self) -> (state: SessionState)
        ensures
            state == self@.state,
    {
        self.state
    }

    /// Whether the TLS library has refused input since the handshake.
    pub fn is_faulted(&self) -> (yes: bool)
        ensures
            yes == self@.faulted,
    {
        self.faulted
    }

    /// Moves the plain text that the TLS library has ready into the inbox:
    /// asks the library for plain text until an answer brings none, and
    /// takes each answer as [`SessionModel::after_step`] has it.
    fn pull(&mut self)
        requires
            old(self)@.state is Established,
        ensures
            final(self)@.grown_from(old(self)@),
            exists|answers: Seq<PlainStepModel>|
                ends_round(answers) && final(self)@ == #[trigger] old(self)@.after_steps(answers),
    {
        let ghost mut answers: Seq<PlainStepModel> = Seq::empty();
        loop
            invariant
                old(self)@.state is Established,
                self@.grown_from(old(self)@),
                self@ == old(self)@.after_steps(answers),
                forall|i: int| 0 <= i < answers.len() ==> (#[trigger] answers[i]).gives_more(),
            decreases usize::MAX - self.inbox@.len(),
        {
            let ghost earlier = self@;
            let before = self.inbox.len();
            let step = read_some(&mut self.conn, READ_LIMIT);
            let ghost answer = step@;
            let mut inbox: Vec<u8> = Vec::new();
            std::mem::swap(&mut inbox, &mut self.inbox);
            let mut faulted = self.faulted;
            let mut peer_closed = self.peer_closed;
            let more = take_step(&mut inbox, &mut faulted, &mut peer_closed, step);
            self.inbox = inbox;
            self.faulted = faulted;
            self.peer_closed = peer_closed;
            assert(self@ == earlier.after_step(answer));
            assert(earlier.inbox.is_prefix_of(self@.inbox));
            proof {
                let longer = answers.push(answer);
                assert(longer.drop_last() =~= answers);
                assert(self@ == old(self)@.after_steps(longer));
                answers = longer;
            }
            if !more {
                assert(ends_round(answers));
                return ;
            }
            assert(before < self.inbox.len());
        }
    }

    /// Takes bytes that came from the raw connection, and gives the bytes
    /// that are to go out on it in answer. Plain text that came with them
    /// is kept for reading.
    ///
    /// The bytes are handed to the TLS library from the front, piece by
    /// piece, until it has taken all of them or refuses. Where the handshake
    /// is refused the session is closed and there is nothing to send: the
    /// error stands in place of the bytes. A closed session stays closed. No
    /// bytes in, no bytes out.
    pub fn exchange(&mut self, incoming: &[u8]) -> (outgoing: Result<Vec<u8>, HandshakeError>)
        ensures
            outgoing is Err <==> final(self)@.state is Closed,
            outgoing matches Err(error) ==> error == HandshakeError::Refused,
            incoming@.len() == 0 ==> final(self)@ == old(self)@,
            incoming@.len() == 0 ==> (outgoing matches Ok(bytes) ==> bytes@.len() == 0),
            old(self)@.state is Closed ==> final(self)@ == old(self)@,
            exists|accepted: bool, handshaking: bool|
                final(self)@.grown_from(
                    SessionModel {
                        taken: final(self)@.taken,
                        ..#[trigger] old(self)@.after_input(accepted, handshaking)
                    },
                ),
            exists|n: int|
                0 <= n <= incoming@.len() && final(self)@.taken == old(self)@.taken
                    + #[trigger] incoming@.take(n),
            outgoing is Ok && !final(self)@.faulted ==> final(self)@.taken == old(self)@.taken
                + incoming@,
    {
        assert(incoming@.take(0) =~= Seq::<u8>::empty());
        assert(old(self)@.taken + incoming@.take(0) =~= old(self)@.taken);
        match self.state {
            SessionState::Closed => {
                assert(self@.grown_from(
                    SessionModel { taken: self@.taken, ..old(self)@.after_input(true, true) },
                ));
                return Err(HandshakeError::Refused);
            },
            _ => {},
        }
        if incoming.len() == 0 {
            assert(self@.grown_from(
                SessionModel {
                    taken: self@.taken,
                    ..old(self)@.after_input(true, self.state is Handshaking)
                },
            ));
            assert(old(self)@.taken + incoming@ =~= old(self)@.taken);
            return Ok(Vec::new());
        }
        let mut rest = incoming;
        let mut accepted = true;
        let ghost mut all_accepted = true;
        let ghost mut still_handshaking = self.state is Handshaking;
        assert(incoming@.skip(0) =~= incoming@);
        while accepted && rest.len() > 0
            invariant
                !(old(self)@.state is Closed),
                self@.grown_from(
                    SessionModel {
                        taken: self@.taken,
                        ..old(self)@.after_input(all_accepted, still_handshaking)
                    },
                ),
                accepted ==> !(self@.state is Closed),
                !accepted ==> self@.state is Closed || self@.faulted,
                self@.state is Handshaking ==> self@ == (SessionModel {
                    taken: self@.taken,
                    ..old(self)@
                }),
                rest@.len() <= incoming@.len(),
                rest@ == incoming@.skip(incoming@.len() - rest@.len()),
                self@.taken == old(self)@.taken + incoming@.take(incoming@.len() - rest@.len()),
            decreases
                    rest@.len() + if accepted {
                        1int
                    } else {
                        0int
                    },
        {
            let ghost reached = old(self)@.after_input(all_accepted, still_handshaking);
            let left = take_in(&mut self.conn, rest);
            let left_len: Option<usize> = match left {
                Some(l) => Some(l.len()),
                None => None,
            };
            if took_input(rest.len(), left_len) {
                match left {
                    Some(l) => {
                        proof {
                            let done = incoming@.len() - rest@.len();
                            let more = rest@.len() - l@.len();
                            assert(incoming@.take(done) + rest@.take(more) =~= incoming@.take(
                                done + more,
                            ));
                            assert(l@ =~= incoming@.skip(done + more));
                        }
                        self.taken = Ghost(self.taken@ + rest@.take(rest@.len() - l@.len()));
                        rest = l;
                        accepted = process(&mut self.conn);
                    },
                    None => {},
                }
            } else {
                accepted = false;
            }
            let ghost before = self@;
            assert(before.grown_from(SessionModel { taken: before.taken, ..reached }));
            let still = handshaking(&self.conn);
            let next = after_input(self.state, self.faulted, accepted, still);
            self.state = next.0;
            self.faulted = next.1;
            assert(self@ == before.after_input(accepted, still));
            let ghost stepped = self@;
            match self.state {
                SessionState::Established => {
                    self.pull();
                },
                _ => {},
            }
            proof {
                if before.state is Handshaking {
                    all_accepted = accepted;
                    still_handshaking = still;
                } else {
                    let target = SessionModel { taken: before.taken, ..reached };
                    lemma_grown_twice(target, before, stepped);
                    lemma_grown_twice(target, stepped, self@);
                }
            }
        }
        proof {
            if accepted {
                assert(incoming@.take(incoming@.len() as int) =~= incoming@);
            }
        }
        match self.state {
            SessionState::Closed => Err(HandshakeError::Refused),
            _ => Ok(drain(&mut self.conn)),
        }
    }

    /// Reads plain text that has arrived on the encrypted channel.
    pub fn read_plain(&mut self) -> (read: PlainRead)
        ensures
            (read@, final(self)@) == old(self)@.read(),
    {
        match self.state {
            SessionState::Established => {},
            _ => {
                return PlainRead::Fault;
            },
        }
        if self.inbox.len() > 0 {
            let n = if self.inbox.len() <= READ_LIMIT {
                self.inbox.len()
            } else {
                READ_LIMIT
            };
            let mut data = self.inbox.split_off(n);
            std::mem::swap(&mut data, &mut self.inbox);
            assert(data@ == old(self)@.inbox.take(n as int));
            assert(self.inbox@ == old(self)@.inbox.skip(n as int));
            PlainRead::Data(data)
        } else if self.peer_closed {
            PlainRead::End
        } else if self.faulted {
            PlainRead::Fault
        } else {
            PlainRead::Pending
        }
    }

    /// Reads plain text that has arrived on the encrypted channel, when the
    /// raw connection has ended: nothing is pending then.
    pub fn read_plain_at_end(&mut self) -> (read: PlainRead)
        ensures
            (read@, final(self)@) == old(self)@.read_at_end(),
    {
        match self.read_plain() {
            PlainRead::Pending => PlainRead::Fault,
            read => read,
        }
    }

    /// Hands plain text to the encrypted channel, and gives the bytes that
    /// are to go out on the raw connection for it. The text is handed to the
    /// TLS library from the front, piece by piece, until it has taken all of
    /// it or stalls. Without an encrypted channel nothing is handed over.
    pub fn write_plain(&mut self, data: &[u8]) -> (outgoing: Result<Vec<u8>, WriteError>)
        ensures
            final(self)@ == (SessionModel { sent: final(self)@.sent, ..old(self)@ }),
            exists|n: int|
                0 <= n <= data@.len() && final(self)@.sent == old(self)@.sent
                    + #[trigger] data@.take(n),
            outgoing is Ok ==> final(self)@.sent == old(self)@.sent + data@,
            old(self)@.state !is Established ==> final(self)@ == old(self)@ && outgoing == Err::<
                Vec<u8>,
                _,
            >(WriteError::NotEstablished),
            outgoing matches Err(error) ==> (error == WriteError::NotEstablished <==> old(
                self,
            )@.state !is Established),
            old(self)@.state is Established && data@.len() == 0 ==> (outgoing matches Ok(bytes)
                && bytes@.len() == 0),
    {
        assert(data@.take(0) =~= Seq::<u8>::empty());
        assert(old(self)@.sent + data@.take(0) =~= old(self)@.sent);
        match self.state {
            SessionState::Established => {},
            _ => {
                return Err(WriteError::NotEstablished);
            },
        }
        let mut out: Vec<u8> = Vec::new();
        let mut rest = data;
        assert(data@.skip(0) =~= data@);
        while rest.len() > 0
            invariant
                old(self).state is Established,
                self@ == (SessionModel { sent: self@.sent, ..old(self)@ }),
                rest@.len() <= data@.len(),
                rest@ == data@.skip(data@.len() - rest@.len()),
                self@.sent == old(self)@.sent + data@.take(data@.len() - rest@.len()),
                data@.len() - rest@.len() == 0 ==> out@.len() == 0,
            decreases rest@.len(),
        {
            let taken = write_some(&mut self.conn, rest);
            match after_write(rest.len(), taken) {
                Ok(left) => {
                    let took = rest.len() - left;
                    proof {
                        let done = data@.len() - rest@.len();
                        assert(data@.take(done) + rest@.take(took as int) =~= data@.take(
                            done + took,
                        ));
                        assert(rest@.subrange(took as int, rest@.len() as int) =~= data@.skip(
                            done + took,
                        ));
                    }
                    self.sent = Ghost(self.sent@ + rest@.take(took as int));
                    rest = slice_subrange(rest, took, rest.len());
                },
                Err(error) => {
                    return Err(error);
                },
            }
            let mut records = drain(&mut self.conn);
            out.append(&mut records);
        }
        assert(data@.take(data@.len() as int) =~= data@);
        Ok(out)
    }
}

} // verus!
