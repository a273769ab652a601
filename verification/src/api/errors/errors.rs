//! The replies of the API as plain values, and the error replies.

use vstd::prelude::*;

use crate::api::json::{is_plain_json_char, json_str, json_string_literal, law_plain_text_is_only_quoted};

verus! {

/// A reply to an HTTP request: its status code, whether it carries the
/// `Content-Type: application/json` header, and its body.
pub struct ApiResponse {
    pub status: u16,
    pub json: bool,
    pub body: String,
}

/// What a reply is, with the body as a sequence of characters.
pub struct ResponseView {
    pub status: u16,
    pub json: bool,
    pub body: Seq<char>,
}

impl View for ApiResponse {
    type V = ResponseView;

    open spec fn view(&self) -> ResponseView {
        ResponseView { status: self.status, json: self.json, body: self.body@ }
    }
}

/// The status codes that an HTTP response can carry (three digits, from 100).
pub open spec fn is_valid_status(status: u16) -> bool {
    100 <= status < 1000
}

/// The body `{"error":<message>}`.
pub open spec fn error_body(message: Seq<char>) -> Seq<char> {
    "{\"error\":"@ + json_string_literal(message) + "}"@
}

/// The reply that carries `message` as a JSON error with the given status; a
/// status that no response can carry gives a bare 500 reply with an empty body.
pub open spec fn error_response(message: Seq<char>, status: u16) -> ResponseView {
    if is_valid_status(status) {
        ResponseView { status, json: true, body: error_body(message) }
    } else {
        ResponseView { status: 500, json: false, body: Seq::empty() }
    }
}

/// The reply for a failure on the server's side.
pub open spec fn internal_error_response() -> ResponseView {
    error_response("internal error"@, 500)
}

/// The reply for a request without a valid token.
pub open spec fn unauthorized_response() -> ResponseView {
    error_response("unauthorized"@, 401)
}

/// The reply `{}` with status 200.
pub open spec fn empty_json_response() -> ResponseView {
    ResponseView { status: 200, json: true, body: "{}"@ }
}

/// A successful JSON reply with the given body.
pub open spec fn json_response(body: Seq<char>) -> ResponseView {
    ResponseView { status: 200, json: true, body }
}

/// Whether `status` is a code that an HTTP response can carry.
pub fn valid_status(status: u16) -> (r: bool)
    ensures
        r == is_valid_status(status),
{
    100 <= status && status < 1000
}

/// A reply that carries `message` as a JSON error with the given status.
pub fn error_message(message: &str, status: u16) -> (r: ApiResponse)
    ensures
        r@ == error_response(message@, status),
{
    if valid_status(status) {
        let mut body = String::new();
        body.append("{\"error\":");
        let quoted = json_str(message);
        body.append(quoted.as_str());
        body.append("}");
        ApiResponse { status, json: true, body }
    } else {
        ApiResponse { status: 500, json: false, body: String::new() }
    }
}

/// The reply for a failure on the server's side: status 500, error
/// "internal error".
pub fn internal_error() -> (r: ApiResponse)
    ensures
        r@ == internal_error_response(),
{
    error_message("internal error", 500)
}

/// The reply for a request that is not authorized: status 401, error
/// "unauthorized".
pub fn unauthorized_error() -> (r: ApiResponse)
    ensures
        r@ == unauthorized_response(),
{
    error_message("unauthorized", 401)
}

/// The reply `{}` with status 200.
pub fn empty_json() -> (r: ApiResponse)
    ensures
        r@ == empty_json_response(),
{
    let mut body = String::new();
    body.append("{}");
    ApiResponse { status: 200, json: true, body }
}

/// The error body of a message without `"`, `\` or control characters is the
/// message between quotes.
pub proof fn law_plain_error_body(message: Seq<char>)
    requires
        forall|i: int| 0 <= i < message.len() ==> is_plain_json_char(#[trigger] message[i]),
    ensures
        error_body(message) == "{\"error\":\""@ + message + "\"}"@,
{
    law_plain_text_is_only_quoted(message);
    reveal_strlit("{\"error\":");
    reveal_strlit("}");
    reveal_strlit("{\"error\":\"");
    reveal_strlit("\"}");
    assert(error_body(message) =~= "{\"error\":\""@ + message + "\"}"@);
}

/// The unauthorized reply is status 401 with body `{"error":"unauthorized"}`.
pub proof fn law_unauthorized_reply()
    ensures
        unauthorized_response() == (ResponseView {
            status: 401,
            json: true,
            body: "{\"error\":\"unauthorized\"}"@,
        }),
{
    reveal_strlit("unauthorized");
    reveal_strlit("{\"error\":\"unauthorized\"}");
    let m = "unauthorized"@;
    assert forall|i: int| 0 <= i < m.len() implies is_plain_json_char(#[trigger] m[i]) by {}
    law_plain_error_body(m);
    reveal_strlit("{\"error\":\"");
    reveal_strlit("\"}");
    assert("{\"error\":\""@ + m + "\"}"@ =~= "{\"error\":\"unauthorized\"}"@);
}

/// The internal error reply is status 500 with body
/// `{"error":"internal error"}`.
pub proof fn law_internal_error_reply()
    ensures
        internal_error_response() == (ResponseView {
            status: 500,
            json: true,
            body: "{\"error\":\"internal error\"}"@,
        }),
{
    reveal_strlit("internal error");
    reveal_strlit("{\"error\":\"internal error\"}");
    let m = "internal error"@;
    assert forall|i: int| 0 <= i < m.len() implies is_plain_json_char(#[trigger] m[i]) by {}
    law_plain_error_body(m);
    reveal_strlit("{\"error\":\"");
    reveal_strlit("\"}");
    assert("{\"error\":\""@ + m + "\"}"@ =~= "{\"error\":\"internal error\"}"@);
}

/// An error reply keeps its status when it is a three-digit code from 100 and
/// is a bare 500 otherwise; a kept status comes with a JSON body.
pub proof fn law_error_status(message: Seq<char>, status: u16)
    ensures
        100 <= status < 1000 ==> error_response(message, status).status == status
            && error_response(message, status).json,
        !(100 <= status < 1000) ==> error_response(message, status) == (ResponseView {
            status: 500,
            json: false,
            body: Seq::empty(),
        }),
{
}

/// A successful reply has status 200 and a JSON body; the empty one is `{}`.
pub proof fn law_success_replies(body: Seq<char>)
    ensures
        json_response(body) == (ResponseView { status: 200, json: true, body }),
        empty_json_response() == (ResponseView { status: 200, json: true, body: "{}"@ }),
{
}

} // verus!
