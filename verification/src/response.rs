//! The response that goes back to the client, and its bytes on the wire.

use vstd::prelude::*;
use crate::ascii::ascii_codes;
use crate::ascii::push_text;
use crate::decimal::decimal_digits;
use crate::decimal::decimal_value;
use crate::decimal::lemma_decimal_round_trip;
use crate::decimal::push_decimal;
use crate::upstream::OutcomeModel;
use crate::upstream::UpstreamOutcome;

verus! {

/// The two statuses this relay ever answers with.
#[derive(Clone, Copy, Debug, PartialEq, Eq, Structural)]
pub enum Status {
    /// 200: the upstream's body follows.
    Success,
    /// 500: the fixed error body follows.
    ServerError,
}

/// The status line of a response, without its line end.
pub open spec fn status_line(status: Status) -> Seq<char> {
    match status {
        Status::Success => "HTTP/1.1 200 OK"@,
        Status::ServerError => "HTTP/1.1 500 Internal Server Error"@,
    }
}

/// The three-digit code in the status line.
pub open spec fn status_code(status: Status) -> nat {
    match status {
        Status::Success => 200,
        Status::ServerError => 500,
    }
}

/// The body of every error response.
pub open spec fn error_body() -> Seq<u8> {
    ascii_codes("Google Request Failed"@)
}

/// [`OutboundResponse`] as a mathematical value.
pub struct ResponseModel {
    pub status: Status,
    pub content_length: nat,
    pub body: Seq<u8>,
}

impl ResponseModel {
    /// The declared length is the length of the body.
    pub open spec fn well_formed(self) -> bool {
        self.content_length == self.body.len()
    }
}

/// The response for an upstream outcome: the upstream's body under a 200
/// where it answered with a success status, the fixed error body under a 500
/// in every other case.
pub open spec fn response_for(outcome: OutcomeModel) -> ResponseModel {
    match outcome {
        OutcomeModel::Success { status_is_ok: true, body } => ResponseModel {
            status: Status::Success,
            content_length: body.len(),
            body,
        },
        _ => failure_response(),
    }
}

/// The one error response.
pub open spec fn failure_response() -> ResponseModel {
    ResponseModel {
        status: Status::ServerError,
        content_length: error_body().len(),
        body: error_body(),
    }
}

/// The head of a response on the wire: the status line, the `Content-Length`
/// header, and the empty line that ends the head.
pub open spec fn wire_head(status: Status, content_length: nat) -> Seq<u8> {
    ascii_codes(status_line(status)) + ascii_codes("\r\nContent-Length: "@) + decimal_digits(
        content_length,
    ) + ascii_codes("\r\n\r\n"@)
}

/// A response on the wire: its head, and the body right behind it.
pub open spec fn wire_format(r: ResponseModel) -> Seq<u8> {
    wire_head(r.status, r.content_length) + r.body
}

/// A response to the client. Its declared length is always the length of its
/// body.
#[derive(Debug, PartialEq, Eq)]
pub struct OutboundResponse {
    status: Status,
    content_length: usize,
    body: Vec<u8>,
}

impl View for OutboundResponse {
    type V = ResponseModel;

    closed spec fn view(&self) -> ResponseModel {
        ResponseModel {
            status: self.status,
            content_length: self.content_length as nat,
            body: self.body@,
        }
    }
}

/// The bytes of the fixed error body.
pub fn error_body_bytes() -> (body: Vec<u8>)
    ensures
        body@ == error_body(),
        body@.len() == 21,
{
    let mut body: Vec<u8> = Vec::new();
    proof {
        reveal_strlit("Google Request Failed");
    }
    push_text(&mut body, "Google Request Failed");
    body
}

impl OutboundResponse {
    #[verifier::type_invariant]
    spec fn length_matches(self) -> bool {
        self.content_length == self.body@.len()
    }

    /// A 200 response that carries `body`.
    pub fn success(body: Vec<u8>) -> (r: OutboundResponse)
        ensures
            r@ == (ResponseModel { status: Status::Success, content_length: body@.len(), body: body@ }),
    {
        OutboundResponse { status: Status::Success, content_length: body.len(), body }
    }

    /// The 500 response, with the fixed error body.
    pub fn failure() -> (r: OutboundResponse)
        ensures
            r@ == failure_response(),
            r@.content_length == 21,
    {
        let body = error_body_bytes();
        OutboundResponse { status: Status::ServerError, content_length: body.len(), body }
    }

    /// The response for an upstream outcome.
    pub fn for_outcome(outcome: UpstreamOutcome) -> (r: OutboundResponse)
        ensures
            r@ == response_for(outcome@),
    {
        match outcome {
            UpstreamOutcome::Success { status_is_ok: true, body } => OutboundResponse::success(body),
            _ => OutboundResponse::failure(),
        }
    }

    /// The status of the response.
    pub fn status(&self) -> (status: Status)
        ensures
            status == self@.status,
    {
        self.status
    }

    /// The length that the `Content-Length` header declares: that of the body.
    pub fn content_length(&self) -> (n: usize)
        ensures
            n == self@.content_length,
            n == self@.body.len(),
    {
        proof {
            use_type_invariant(self);
        }
        self.content_length
    }

    /// The body of the response.
    pub fn body(&self) -> (body: &Vec<u8>)
        ensures
            body@ == self@.body,
    {
        &self.body
    }

    /// The response as it is written to the client.
    pub fn to_bytes(&self) -> (wire: Vec<u8>)
        ensures
            self@.well_formed(),
            wire@ == wire_format(self@),
    {
        proof {
            use_type_invariant(self);
        }
        let mut wire: Vec<u8> = Vec::new();
        match self.status {
            Status::Success => {
                proof {
                    reveal_strlit("HTTP/1.1 200 OK");
                }
                push_text(&mut wire, "HTTP/1.1 200 OK");
            },
            Status::ServerError => {
                proof {
                    reveal_strlit("HTTP/1.1 500 Internal Server Error");
                }
                push_text(&mut wire, "HTTP/1.1 500 Internal Server Error");
            },
        }
        proof {
            reveal_strlit("\r\nContent-Length: ");
            reveal_strlit("\r\n\r\n");
        }
        push_text(&mut wire, "\r\nContent-Length: ");
        push_decimal(&mut wire, self.content_length);
        push_text(&mut wire, "\r\n\r\n");
        wire.extend_from_slice(self.body.as_slice());
        wire
    }
}

/// Whether an empty line ends the head at `at`: a line end there, and a
/// second one right behind it.
pub open spec fn blank_line_at(wire: Seq<u8>, at: int) -> bool {
    &&& 0 <= at
    &&& at + 4 <= wire.len()
    &&& wire[at] == 13
    &&& wire[at + 1] == 10
    &&& wire[at + 2] == 13
    &&& wire[at + 3] == 10
}

/// A relayed body goes out under a 200 with exactly its own length declared:
/// the digits of the `Content-Length` header denote the number of bytes that
/// follow the head, for an empty body as for any other.
pub proof fn lemma_relayed_length_is_exact(body: Seq<u8>)
    ensures
        ({
            let r = response_for(OutcomeModel::Success { status_is_ok: true, body });
            &&& r.status == Status::Success
            &&& r.body == body
            &&& r.content_length == body.len()
            &&& wire_format(r) == wire_head(Status::Success, body.len()) + body
            &&& decimal_value(decimal_digits(r.content_length)) == body.len()
        }),
{
    lemma_decimal_round_trip(body.len());
}

/// The status line is the protocol version, a blank, the three digits of
/// the status code, and the reason behind another blank.
pub proof fn lemma_status_line_carries_code(status: Status)
    ensures
        ascii_codes(status_line(status)).len() > 12,
        ascii_codes(status_line(status)).subrange(0, 9) == ascii_codes("HTTP/1.1 "@),
        ascii_codes(status_line(status)).subrange(9, 12) == decimal_digits(status_code(status)),
        ascii_codes(status_line(status))[12] == 32,
{
    reveal_strlit("HTTP/1.1 200 OK");
    reveal_strlit("HTTP/1.1 500 Internal Server Error");
    reveal_strlit("HTTP/1.1 ");
    reveal_with_fuel(decimal_digits, 3);
    let line = ascii_codes(status_line(status));
    assert(line.subrange(0, 9) =~= ascii_codes("HTTP/1.1 "@));
    assert(line.subrange(9, 12) =~= decimal_digits(status_code(status)));
}

/// Every outcome that delivers no body, a failed transport as much as a
/// status that is no success, is answered with the one error response: a
/// 5xx status in the status line, the fixed error body, and that body's
/// length declared.
pub proof fn lemma_failure_is_server_error(outcome: OutcomeModel)
    requires
        !outcome.delivers(),
    ensures
        ({
            let r = response_for(outcome);
            &&& r == failure_response()
            &&& 500 <= status_code(r.status) < 600
            &&& ascii_codes(status_line(r.status)).subrange(9, 12) == decimal_digits(
                status_code(r.status),
            )
            &&& r.body == error_body()
            &&& r.content_length == r.body.len()
            &&& r.content_length == 21
            &&& wire_format(r) == wire_head(Status::ServerError, 21) + error_body()
            &&& decimal_value(decimal_digits(r.content_length)) == r.body.len()
        }),
{
    reveal_strlit("Google Request Failed");
    lemma_decimal_round_trip(21);
    lemma_status_line_carries_code(Status::ServerError);
}

/// The head of a response ends with its first empty line, and the body
/// stands right behind it: no empty line comes earlier on the wire, whatever
/// the body holds.
pub proof fn lemma_body_follows_first_blank_line(r: ResponseModel)
    ensures
        ({
            let head = wire_head(r.status, r.content_length);
            &&& head.len() >= 4
            &&& blank_line_at(wire_format(r), head.len() - 4)
            &&& forall|at: int| blank_line_at(wire_format(r), at) ==> at >= head.len() - 4
            &&& wire_format(r).skip(head.len() as int) == r.body
        }),
{
    reveal_strlit("HTTP/1.1 200 OK");
    reveal_strlit("HTTP/1.1 500 Internal Server Error");
    reveal_strlit("\r\nContent-Length: ");
    reveal_strlit("\r\n\r\n");
    lemma_decimal_round_trip(r.content_length);
    let line = ascii_codes(status_line(r.status));
    let name = ascii_codes("\r\nContent-Length: "@);
    let digits = decimal_digits(r.content_length);
    let end = ascii_codes("\r\n\r\n"@);
    let head = wire_head(r.status, r.content_length);
    let wire = wire_format(r);
    assert(head == line + name + digits + end);
    assert(forall|i: int| 0 <= i < line.len() ==> line[i] != 13);
    assert(forall|i: int| 0 < i < name.len() ==> name[i] != 13);
    assert(forall|i: int| 0 <= i < digits.len() ==> digits[i] != 13) by {
        assert forall|i: int| 0 <= i < digits.len() implies digits[i] != 13 by {
            assert(crate::decimal::is_digit(digits[i]));
        }
    }
    assert forall|at: int| blank_line_at(wire, at) implies at >= head.len() - 4 by {
        if at < head.len() - 4 {
            if at < line.len() {
                assert(wire[at] == line[at]);
            } else if at < line.len() + name.len() {
                assert(wire[at] == name[at - line.len()]);
                assert(at == line.len());
                assert(wire[at + 2] == name[2]);
            } else {
                assert(wire[at] == digits[at - line.len() - name.len()]);
            }
        }
    }
    assert(wire.skip(head.len() as int) =~= r.body);
}

} // verus!
