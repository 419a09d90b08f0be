//! The handling of one connection, from acceptance to closure.
//!
//! A [`Connection`] performs no input or output. Its caller does, and tells
//! it what happened as an [`Event`]; the connection answers with the
//! [`Action`] to perform next:
//!
//! `Accepted → Handshaking → ReadingRequest → Dispatching → WritingResponse → Closed`
//!
//! A failed handshake closes the connection with nothing written. A failed
//! read and a failed fetch are answered with the error response.

use vstd::prelude::*;
use crate::request::lemma_absorb_joined;
use crate::request::lemma_absorb_nothing;
use crate::request::lemma_absorb_well_formed;
use crate::request::read_view;
use crate::request::HeadReader;
use crate::request::HeadScan;
use crate::request::InboundRequest;
use crate::request::ReadError;
use crate::response::failure_response;
use crate::response::response_for;
use crate::response::wire_format;
use crate::response::OutboundResponse;
use crate::session::PlainRead;
use crate::session::PlainReadModel;
use crate::session::SessionModel;
use crate::session::SessionState;
use crate::session::TlsSession;
use crate::upstream::OutcomeModel;
use crate::upstream::UpstreamOutcome;

verus! {

/// Where the handling of a connection stands.
#[derive(Clone, Copy, Debug, PartialEq, Eq, Structural)]
pub enum Phase {
    /// The raw connection was accepted; nothing has been done with it.
    Accepted,
    /// The TLS handshake is under way.
    Handshaking,
    /// The encrypted channel stands; the request head is being read.
    ReadingRequest,
    /// The request head was read; the upstream fetch is under way.
    Dispatching,
    /// A response is being written to the client.
    WritingResponse,
    /// The connection is done with.
    Closed,
}

/// What the caller reports to a connection.
#[derive(Debug, PartialEq, Eq)]
pub enum Event {
    /// The connection is handed over for handling.
    Begin,
    /// The TLS handshake completed.
    HandshakeCompleted,
    /// The TLS handshake failed.
    HandshakeFailed,
    /// These bytes were read from the encrypted channel.
    Received(Vec<u8>),
    /// The encrypted channel ended in good order.
    EndOfStream,
    /// Reading from the encrypted channel failed.
    ReadFault,
    /// The upstream fetch came to this outcome.
    Fetched(UpstreamOutcome),
    /// The response was written in full.
    Written,
    /// Writing the response failed.
    WriteFault,
}

/// [`Event`] as a mathematical value.
pub enum EventModel {
    Begin,
    HandshakeCompleted,
    HandshakeFailed,
    Received(Seq<u8>),
    EndOfStream,
    ReadFault,
    Fetched(OutcomeModel),
    Written,
    WriteFault,
}

impl View for Event {
    type V = EventModel;

    open spec fn view(&self) -> EventModel {
        match *self {
            Event::Begin => EventModel::Begin,
            Event::HandshakeCompleted => EventModel::HandshakeCompleted,
            Event::HandshakeFailed => EventModel::HandshakeFailed,
            Event::Received(bytes) => EventModel::Received(bytes@),
            Event::EndOfStream => EventModel::EndOfStream,
            Event::ReadFault => EventModel::ReadFault,
            Event::Fetched(outcome) => EventModel::Fetched(outcome@),
            Event::Written => EventModel::Written,
            Event::WriteFault => EventModel::WriteFault,
        }
    }
}

/// What a connection asks its caller to do next.
#[derive(Debug, PartialEq, Eq)]
pub enum Action {
    /// Perform the TLS handshake on the raw connection.
    Handshake,
    /// Read more bytes from the encrypted channel.
    Read,
    /// Fetch the fixed upstream resource.
    Fetch,
    /// Write these bytes to the encrypted channel, in one go.
    Write(Vec<u8>),
    /// Drop the connection, writing nothing more.
    Close,
}

/// [`Action`] as a mathematical value.
pub enum ActionModel {
    Handshake,
    Read,
    Fetch,
    Write(Seq<u8>),
    Close,
}

impl View for Action {
    type V = ActionModel;

    open spec fn view(&self) -> ActionModel {
        match *self {
            Action::Handshake => ActionModel::Handshake,
            Action::Read => ActionModel::Read,
            Action::Fetch => ActionModel::Fetch,
            Action::Write(bytes) => ActionModel::Write(bytes@),
            Action::Close => ActionModel::Close,
        }
    }
}

impl ActionModel {
    /// The bytes that the action sends to the client.
    pub open spec fn written(self) -> Seq<u8> {
        match self {
            ActionModel::Write(bytes) => bytes,
            _ => Seq::empty(),
        }
    }
}

/// [`Connection`] as a mathematical value.
pub struct ConnectionModel {
    /// Where the handling stands.
    pub phase: Phase,
    /// The scan of the bytes read so far, while the request is being read;
    /// the start of a scan in every other phase.
    pub scan: HeadScan,
    /// The request head, once it has been read.
    pub request: Option<Seq<Seq<char>>>,
    /// Why no request head was read, once reading has failed.
    pub read_error: Option<ReadError>,
}

impl ConnectionModel {
    /// A connection that was just accepted.
    pub open spec fn accepted() -> ConnectionModel {
        ConnectionModel {
            phase: Phase::Accepted,
            scan: HeadScan::start(),
            request: None,
            read_error: None,
        }
    }

    /// The same connection in another phase, between two reads.
    pub open spec fn to(self, phase: Phase) -> ConnectionModel {
        ConnectionModel { phase, scan: HeadScan::start(), ..self }
    }

    /// What follows a scan of all bytes read so far: another read while the
    /// head is open, else what follows the read of the head.
    pub open spec fn after_scan(self, scan: HeadScan) -> (ConnectionModel, ActionModel) {
        if scan is Reading {
            (ConnectionModel { phase: Phase::ReadingRequest, scan, ..self }, ActionModel::Read)
        } else {
            self.after_read(scan.at_end())
        }
    }

    /// What follows the read of the head: the fetch where the head was read,
    /// the error response where it was not.
    pub open spec fn after_read(self, read: Result<Seq<Seq<char>>, ReadError>) -> (
        ConnectionModel,
        ActionModel,
    ) {
        match read {
            Ok(lines) => (
                ConnectionModel { request: Some(lines), ..self.to(Phase::Dispatching) },
                ActionModel::Fetch,
            ),
            Err(error) => (
                ConnectionModel { read_error: Some(error), ..self.to(Phase::WritingResponse) },
                ActionModel::Write(wire_format(failure_response())),
            ),
        }
    }

    /// The connection after `event`, and the action it asks for. An event
    /// that the phase does not expect closes the connection.
    pub open spec fn next(self, event: EventModel) -> (ConnectionModel, ActionModel) {
        match (self.phase, event) {
            (Phase::Accepted, EventModel::Begin) => (
                self.to(Phase::Handshaking),
                ActionModel::Handshake,
            ),
            (Phase::Handshaking, EventModel::HandshakeCompleted) => (
                self.to(Phase::ReadingRequest),
                ActionModel::Read,
            ),
            (Phase::ReadingRequest, EventModel::Received(bytes)) => self.after_scan(
                self.scan.absorb(bytes),
            ),
            (Phase::ReadingRequest, EventModel::EndOfStream) => self.after_read(
                self.scan.at_end(),
            ),
            (Phase::ReadingRequest, EventModel::ReadFault) => self.after_read(
                Err(ReadError::Fault),
            ),
            (Phase::Dispatching, EventModel::Fetched(outcome)) => (
                self.to(Phase::WritingResponse),
                ActionModel::Write(wire_format(response_for(outcome))),
            ),
            (Phase::WritingResponse, EventModel::Written) => (
                self.to(Phase::Closed),
                ActionModel::Close,
            ),
            (Phase::WritingResponse, EventModel::WriteFault) => (
                self.to(Phase::Closed),
                ActionModel::Close,
            ),
            _ => (self.to(Phase::Closed), ActionModel::Close),
        }
    }
}

/// The handling of one connection.
#[derive(Debug)]
pub struct Connection {
    phase: Phase,
    reader: HeadReader,
    request: Option<InboundRequest>,
    read_error: Option<ReadError>,
}

/// A request head that may not be there, as a mathematical value.
pub open spec fn request_view(request: Option<InboundRequest>) -> Option<Seq<Seq<char>>> {
    match request {
        Some(r) => Some(r@),
        None => None,
    }
}

impl View for Connection {
    type V = ConnectionModel;

    closed spec fn view(&self) -> ConnectionModel {
        ConnectionModel {
            phase: self.phase,
            scan: self.reader@,
            request: request_view(self.request),
            read_error: self.read_error,
        }
    }
}

impl Connection {
    /// The handling of a connection that was just accepted.
    pub fn new() -> (connection: Connection)
        ensures
            connection@ == ConnectionModel::accepted(),
    {
        Connection {
            phase: Phase::Accepted,
            reader: HeadReader::new(),
            request: None,
            read_error: None,
        }
    }

    /// Where the handling stands.
    pub fn phase(&self) -> (phase: Phase)
        ensures
            phase == self@.phase,
    {
        self.phase
    }

    /// The request head, once it has been read.
    pub fn request(&self) -> (request: Option<&InboundRequest>)
        ensures
            match request {
                Some(r) => self@.request == Some(r@),
                None => self@.request is None,
            },
    {
        self.request.as_ref()
    }

    /// Why no request head was read, once reading has failed.
    pub fn read_error(&self) -> (error: Option<ReadError>)
        ensures
            error == self@.read_error,
    {
        self.read_error
    }

    /// The connection in another phase, between two reads.
    fn to(
        phase: Phase,
        request: Option<InboundRequest>,
        read_error: Option<ReadError>,
    ) -> (connection: Connection)
        ensures
            connection@ == (ConnectionModel {
                phase,
                scan: HeadScan::start(),
                request: request_view(request),
                read_error,
            }),
    {
        Connection { phase, reader: HeadReader::new(), request, read_error }
    }

    /// What follows the read of the head.
    fn after_read(
        request: Option<InboundRequest>,
        read_error: Option<ReadError>,
        read: Result<InboundRequest, ReadError>,
    ) -> (step: (Connection, Action))
        ensures
            (step.0@, step.1@) == (ConnectionModel {
                phase: Phase::ReadingRequest,
                scan: HeadScan::start(),
                request: request_view(request),
                read_error,
            }).after_read(read_view(read)),
    {
        match read {
            Ok(head) => (Connection::to(Phase::Dispatching, Some(head), read_error), Action::Fetch),
            Err(error) => (
                Connection::to(Phase::WritingResponse, request, Some(error)),
                Action::Write(OutboundResponse::failure().to_bytes()),
            ),
        }
    }

    /// Takes what the caller reports, and says what to do next.
    pub fn handle(self, event: Event) -> (step: (Connection, Action))
        ensures
            (step.0@, step.1@) == self@.next(event@),
    {
        let Connection { phase, reader, request, read_error } = self;
        match (phase, event) {
            (Phase::Accepted, Event::Begin) => (
                Connection::to(Phase::Handshaking, request, read_error),
                Action::Handshake,
            ),
            (Phase::Handshaking, Event::HandshakeCompleted) => (
                Connection::to(Phase::ReadingRequest, request, read_error),
                Action::Read,
            ),
            (Phase::ReadingRequest, Event::Received(bytes)) => {
                let reader = reader.feed(bytes.as_slice());
                if reader.is_reading() {
                    (
                        Connection { phase: Phase::ReadingRequest, reader, request, read_error },
                        Action::Read,
                    )
                } else {
                    Connection::after_read(request, read_error, reader.finish())
                }
            },
            (Phase::ReadingRequest, Event::EndOfStream) => Connection::after_read(
                request,
                read_error,
                reader.finish(),
            ),
            (Phase::ReadingRequest, Event::ReadFault) => Connection::after_read(
                request,
                read_error,
                Err(ReadError::Fault),
            ),
            (Phase::Dispatching, Event::Fetched(outcome)) => (
                Connection::to(Phase::WritingResponse, request, read_error),
                Action::Write(OutboundResponse::for_outcome(outcome).to_bytes()),
            ),
            (Phase::WritingResponse, Event::Written) => (
                Connection::to(Phase::Closed, request, read_error),
                Action::Close,
            ),
            (Phase::WritingResponse, Event::WriteFault) => (
                Connection::to(Phase::Closed, request, read_error),
                Action::Close,
            ),
            _ => (Connection::to(Phase::Closed, request, read_error), Action::Close),
        }
    }
}

/// An event that may not be there, as a mathematical value.
pub open spec fn event_view(event: Option<Event>) -> Option<EventModel> {
    match event {
        Some(e) => Some(e@),
        None => None,
    }
}

/// What the state of the TLS session tells a connection that waits for the
/// handshake: nothing while the handshake is under way.
pub open spec fn handshake_outcome(state: SessionState) -> Option<EventModel> {
    match state {
        SessionState::Handshaking => None,
        SessionState::Established => Some(EventModel::HandshakeCompleted),
        SessionState::Closed => Some(EventModel::HandshakeFailed),
    }
}

/// What a read of plain text tells a connection that waits for the request:
/// nothing while the read is pending.
pub open spec fn read_outcome(read: PlainReadModel) -> Option<EventModel> {
    match read {
        PlainReadModel::Data(bytes) => Some(EventModel::Received(bytes)),
        PlainReadModel::Pending => None,
        PlainReadModel::End => Some(EventModel::EndOfStream),
        PlainReadModel::Fault => Some(EventModel::ReadFault),
    }
}

/// The event that the state of the TLS session stands for.
pub fn handshake_event(state: SessionState) -> (event: Option<Event>)
    ensures
        event_view(event) == handshake_outcome(state),
{
    match state {
        SessionState::Handshaking => None,
        SessionState::Established => Some(Event::HandshakeCompleted),
        SessionState::Closed => Some(Event::HandshakeFailed),
    }
}

/// The event that a read of plain text stands for.
pub fn read_event(read: PlainRead) -> (event: Option<Event>)
    ensures
        event_view(event) == read_outcome(read@),
{
    match read {
        PlainRead::Data(bytes) => Some(Event::Received(bytes)),
        PlainRead::Pending => None,
        PlainRead::End => Some(Event::EndOfStream),
        PlainRead::Fault => Some(Event::ReadFault),
    }
}

/// What one turn at the raw connection brought, while the connection waits
/// for the handshake or for the request.
#[derive(Clone, Copy, Debug, PartialEq, Eq, Structural)]
pub enum RawTurn {
    /// Bytes came and were exchanged with the TLS session.
    More,
    /// The raw connection has ended.
    Ended,
    /// The raw connection failed.
    Failed,
}

/// What a turn at the raw connection tells a connection that waits for the
/// handshake: nothing while bytes come; a raw connection that ends or fails
/// before the handshake is done has failed the handshake.
pub open spec fn handshake_turn_outcome(turn: RawTurn) -> Option<EventModel> {
    match turn {
        RawTurn::More => None,
        RawTurn::Ended => Some(EventModel::HandshakeFailed),
        RawTurn::Failed => Some(EventModel::HandshakeFailed),
    }
}

/// What a turn at the raw connection tells a connection that waits for the
/// request, and the session after it: nothing while bytes come; a read
/// fault where the raw connection failed; and where it has ended, what a
/// last read of plain text gives, with nothing pending any more.
pub open spec fn read_turn_outcome(session: SessionModel, turn: RawTurn) -> (
    Option<EventModel>,
    SessionModel,
) {
    match turn {
        RawTurn::More => (None, session),
        RawTurn::Failed => (Some(EventModel::ReadFault), session),
        RawTurn::Ended => (
            match read_outcome(session.read_at_end().0) {
                Some(event) => Some(event),
                None => Some(EventModel::ReadFault),
            },
            session.read_at_end().1,
        ),
    }
}

/// The event that a turn at the raw connection stands for during the
/// handshake.
pub fn handshake_turn_event(turn: RawTurn) -> (event: Option<Event>)
    ensures
        event_view(event) == handshake_turn_outcome(turn),
{
    match turn {
        RawTurn::More => None,
        RawTurn::Ended => Some(Event::HandshakeFailed),
        RawTurn::Failed => Some(Event::HandshakeFailed),
    }
}

/// The event that a turn at the raw connection stands for while the request
/// is read.
pub fn read_turn_event(session: &mut TlsSession, turn: RawTurn) -> (event: Option<Event>)
    ensures
        (event_view(event), final(session)@) == read_turn_outcome(old(session)@, turn),
{
    match turn {
        RawTurn::More => None,
        RawTurn::Failed => Some(Event::ReadFault),
        RawTurn::Ended => match read_event(session.read_plain_at_end()) {
            Some(event) => Some(event),
            None => Some(Event::ReadFault),
        },
    }
}

/// The connection after a run of events.
pub open spec fn run(start: ConnectionModel, events: Seq<EventModel>) -> ConnectionModel
    decreases events.len(),
{
    if events.len() == 0 {
        start
    } else {
        run(start.next(events[0]).0, events.drop_first())
    }
}

/// All bytes that a run of events has the connection send to the client, in
/// order.
pub open spec fn transcript(start: ConnectionModel, events: Seq<EventModel>) -> Seq<u8>
    decreases events.len(),
{
    if events.len() == 0 {
        Seq::empty()
    } else {
        start.next(events[0]).1.written() + transcript(
            start.next(events[0]).0,
            events.drop_first(),
        )
    }
}

/// A closed connection stays closed and sends nothing, whatever is reported
/// to it.
pub proof fn lemma_closed_is_final(closed: ConnectionModel, events: Seq<EventModel>)
    requires
        closed.phase == Phase::Closed,
    ensures
        run(closed, events).phase == Phase::Closed,
        transcript(closed, events) == Seq::<u8>::empty(),
    decreases events.len(),
{
    if events.len() > 0 {
        lemma_closed_is_final(closed.next(events[0]).0, events.drop_first());
    }
}

/// A handshake that fails closes the connection, and not one byte is sent to
/// the client: not at the failure, and not for anything reported after it.
pub proof fn lemma_failed_handshake_sends_nothing(
    handshaking: ConnectionModel,
    later: Seq<EventModel>,
)
    requires
        handshaking.phase == Phase::Handshaking,
    ensures
        handshaking.next(EventModel::HandshakeFailed).0.phase == Phase::Closed,
        handshaking.next(EventModel::HandshakeFailed).1 == ActionModel::Close,
        run(handshaking, seq![EventModel::HandshakeFailed] + later).phase == Phase::Closed,
        transcript(handshaking, seq![EventModel::HandshakeFailed] + later) == Seq::<u8>::empty(),
{
    let events = seq![EventModel::HandshakeFailed] + later;
    assert(events[0] == EventModel::HandshakeFailed);
    assert(events.drop_first() =~= later);
    lemma_closed_is_final(handshaking.next(EventModel::HandshakeFailed).0, later);
}

/// Input that the TLS library refuses during the handshake closes the
/// session, and with it the connection: the closed session stands for a
/// failed handshake, and the connection sends nothing from then on.
pub proof fn lemma_refused_input_closes_all(
    session: SessionModel,
    handshaking: ConnectionModel,
    still_handshaking: bool,
    later: Seq<EventModel>,
)
    requires
        session.state is Handshaking,
        handshaking.phase == Phase::Handshaking,
    ensures
        session.after_input(false, still_handshaking).state is Closed,
        handshake_outcome(session.after_input(false, still_handshaking).state) == Some(
            EventModel::HandshakeFailed,
        ),
        run(handshaking, seq![EventModel::HandshakeFailed] + later).phase == Phase::Closed,
        transcript(handshaking, seq![EventModel::HandshakeFailed] + later) == Seq::<u8>::empty(),
{
    lemma_failed_handshake_sends_nothing(handshaking, later);
}

/// Nothing is sent to the client before a handshake has completed: a run of
/// events from acceptance that reports no completed handshake sends no byte.
pub proof fn lemma_nothing_sent_before_handshake(start: ConnectionModel, events: Seq<EventModel>)
    requires
        start.phase == Phase::Accepted || start.phase == Phase::Handshaking || start.phase
            == Phase::Closed,
        forall|i: int| 0 <= i < events.len() ==> events[i] != EventModel::HandshakeCompleted,
    ensures
        transcript(start, events) == Seq::<u8>::empty(),
    decreases events.len(),
{
    if events.len() > 0 {
        let rest = events.drop_first();
        assert(events[0] != EventModel::HandshakeCompleted);
        assert forall|i: int| 0 <= i < rest.len() implies rest[i]
            != EventModel::HandshakeCompleted by {
            assert(rest[i] == events[i + 1]);
        }
        lemma_nothing_sent_before_handshake(start.next(events[0]).0, rest);
    }
}

/// The events that report the chunks `chunks` as received, one event a chunk.
pub open spec fn received(chunks: Seq<Seq<u8>>) -> Seq<EventModel> {
    Seq::new(chunks.len(), |i: int| EventModel::Received(chunks[i]))
}

/// While the chunks read so far hold no empty line and no invalid line, the
/// connection keeps reading, sends nothing, and has scanned the chunks as
/// one stream.
pub proof fn lemma_reading_continues(reading: ConnectionModel, chunks: Seq<Seq<u8>>)
    requires
        reading.phase == Phase::ReadingRequest,
        reading.scan.well_formed(),
        reading.scan.absorb(chunks.flatten()) is Reading,
    ensures
        run(reading, received(chunks)) == (ConnectionModel {
            scan: reading.scan.absorb(chunks.flatten()),
            ..reading
        }),
        transcript(reading, received(chunks)) == Seq::<u8>::empty(),
    decreases chunks.len(),
{
    let events = received(chunks);
    if chunks.len() == 0 {
        assert(chunks.flatten() =~= Seq::<u8>::empty());
        lemma_absorb_nothing(reading.scan);
    } else {
        let rest = chunks.drop_first();
        assert(chunks.flatten() == chunks[0] + rest.flatten());
        lemma_absorb_joined(reading.scan, chunks[0], rest.flatten());
        lemma_absorb_well_formed(reading.scan, chunks[0]);
        let scan = reading.scan.absorb(chunks[0]);
        assert(scan is Reading);
        assert(events[0] == EventModel::Received(chunks[0]));
        assert(events.drop_first() =~= received(rest));
        lemma_reading_continues(reading.next(events[0]).0, rest);
    }
}

/// A read that fails before the head has ended is answered with the error
/// response: whatever chunks came before the fault, as long as they hold no
/// empty line, the client is sent the error response and nothing else.
pub proof fn lemma_read_fault_sends_error_response(
    reading: ConnectionModel,
    chunks: Seq<Seq<u8>>,
)
    requires
        reading.phase == Phase::ReadingRequest,
        reading.scan.well_formed(),
        reading.scan.absorb(chunks.flatten()) is Reading,
    ensures
        run(reading, received(chunks).push(EventModel::ReadFault)).phase
            == Phase::WritingResponse,
        run(reading, received(chunks).push(EventModel::ReadFault)).read_error == Some(
            ReadError::Fault,
        ),
        transcript(reading, received(chunks).push(EventModel::ReadFault)) == wire_format(
            failure_response(),
        ),
{
    lemma_reading_continues(reading, chunks);
    let after = run(reading, received(chunks));
    lemma_run_joined(reading, received(chunks), seq![EventModel::ReadFault]);
    assert(received(chunks) + seq![EventModel::ReadFault] =~= received(chunks).push(
        EventModel::ReadFault,
    ));
    let last = seq![EventModel::ReadFault];
    assert(last.drop_first() =~= Seq::<EventModel>::empty());
    assert(run(after.next(last[0]).0, last.drop_first()) == after.next(last[0]).0);
    assert(transcript(after.next(last[0]).0, last.drop_first()) == Seq::<u8>::empty());
}

/// A run of two runs of events, one after the other.
pub proof fn lemma_run_joined(
    start: ConnectionModel,
    first: Seq<EventModel>,
    second: Seq<EventModel>,
)
    ensures
        run(start, first + second) == run(run(start, first), second),
        transcript(start, first + second) == transcript(start, first) + transcript(
            run(start, first),
            second,
        ),
    decreases first.len(),
{
    if first.len() == 0 {
        assert(first + second =~= second);
    } else {
        let all = first + second;
        assert(all[0] == first[0]);
        assert(all.drop_first() =~= first.drop_first() + second);
        lemma_run_joined(start.next(first[0]).0, first.drop_first(), second);
    }
}

/// The events of a shared trace that belong to one of two connections: each
/// entry of the trace names its connection (`true` for the first).
pub open spec fn events_of(trace: Seq<(bool, EventModel)>, first: bool) -> Seq<EventModel>
    decreases trace.len(),
{
    if trace.len() == 0 {
        Seq::empty()
    } else if trace[0].0 == first {
        seq![trace[0].1] + events_of(trace.drop_first(), first)
    } else {
        events_of(trace.drop_first(), first)
    }
}

/// Two connections after a shared trace, in which the events of the two are
/// mixed in any order: each entry goes to the connection it names.
pub open spec fn run_pair(
    a: ConnectionModel,
    b: ConnectionModel,
    trace: Seq<(bool, EventModel)>,
) -> (ConnectionModel, ConnectionModel)
    decreases trace.len(),
{
    if trace.len() == 0 {
        (a, b)
    } else if trace[0].0 {
        run_pair(a.next(trace[0].1).0, b, trace.drop_first())
    } else {
        run_pair(a, b.next(trace[0].1).0, trace.drop_first())
    }
}

/// What the two connections send over a shared trace.
pub open spec fn transcript_pair(
    a: ConnectionModel,
    b: ConnectionModel,
    trace: Seq<(bool, EventModel)>,
) -> (Seq<u8>, Seq<u8>)
    decreases trace.len(),
{
    if trace.len() == 0 {
        (Seq::empty(), Seq::empty())
    } else if trace[0].0 {
        let rest = transcript_pair(a.next(trace[0].1).0, b, trace.drop_first());
        (a.next(trace[0].1).1.written() + rest.0, rest.1)
    } else {
        let rest = transcript_pair(a, b.next(trace[0].1).0, trace.drop_first());
        (rest.0, b.next(trace[0].1).1.written() + rest.1)
    }
}

/// Two connections do not interfere. However their events are mixed in time,
/// and whatever happens to the other, each ends where its own events alone
/// would have brought it, and sends what it would have sent alone.
pub proof fn lemma_connections_independent(
    a: ConnectionModel,
    b: ConnectionModel,
    trace: Seq<(bool, EventModel)>,
)
    ensures
        run_pair(a, b, trace) == (run(a, events_of(trace, true)), run(b, events_of(trace, false))),
        transcript_pair(a, b, trace) == (
            transcript(a, events_of(trace, true)),
            transcript(b, events_of(trace, false)),
        ),
    decreases trace.len(),
{
    if trace.len() > 0 {
        let rest = trace.drop_first();
        let event = trace[0].1;
        if trace[0].0 {
            let own = events_of(trace, true);
            assert(own[0] == event);
            assert(own.drop_first() =~= events_of(rest, true));
            lemma_connections_independent(a.next(event).0, b, rest);
        } else {
            let own = events_of(trace, false);
            assert(own[0] == event);
            assert(own.drop_first() =~= events_of(rest, false));
            lemma_connections_independent(a, b.next(event).0, rest);
        }
    }
}

} // verus!
