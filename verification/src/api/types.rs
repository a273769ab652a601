//! The bodies and queries of the API's requests and replies.

use vstd::prelude::*;

use crate::api::json::{digits_value, is_digit, law_decimal_reads_back, decimal, json_str, json_string_literal, push_decimal};
use crate::database::db::ID;

verus! {

/// The reply to a login or a renewal: the session token.
pub struct TokenBody {
    pub token: String,
}

/// The body of a login request.
pub struct LoginBody {
    pub username: String,
    pub password: String,
}

/// The query of a board request: list the threads from this id down (0, the
/// default, lists from the newest).
pub struct GetBoardQuery {
    pub from: ID,
}

/// The query of a like or unlike request.
pub struct LikeRequest {
    pub board_id: ID,
}

/// The body of a request that posts a thread.
pub struct PostThreadBody {
    pub text: String,
}

/// The reply to a posted thread: its id.
pub struct PostThreadResult {
    pub post_id: ID,
}

/// The JSON body `{"token":<token>}`.
pub open spec fn token_json(token: Seq<char>) -> Seq<char> {
    "{\"token\":"@ + json_string_literal(token) + "}"@
}

/// The JSON body `{"post_id":<id>}`.
pub open spec fn post_id_json(post_id: ID) -> Seq<char> {
    "{\"post_id\":"@ + decimal(post_id as nat) + "}"@
}

/// The reply to a posted thread is `{"post_id":` followed by digits that read
/// back as the id, without leading zero, and a closing brace.
pub proof fn law_post_id_body_reads_back(post_id: ID)
    ensures
        post_id_json(post_id).subrange(0, 11) == "{\"post_id\":"@,
        post_id_json(post_id).last() == '}',
        post_id_json(post_id).len() >= 13,
        forall|i: int|
            11 <= i < post_id_json(post_id).len() - 1 ==> is_digit(#[trigger] post_id_json(post_id)[i]),
        post_id > 0 ==> post_id_json(post_id)[11] != '0',
        digits_value(post_id_json(post_id).subrange(11, post_id_json(post_id).len() - 1))
            == post_id,
{
    reveal_strlit("{\"post_id\":");
    reveal_strlit("}");
    law_decimal_reads_back(post_id as nat);
    let d = decimal(post_id as nat);
    let j = post_id_json(post_id);
    assert(j =~= "{\"post_id\":"@ + d + "}"@);
    assert(j.subrange(0, 11) =~= "{\"post_id\":"@);
    assert(j.subrange(11, j.len() - 1) =~= d);
    assert forall|i: int| 11 <= i < j.len() - 1 implies is_digit(#[trigger] j[i]) by {
        assert(j[i] == d[i - 11]);
    }
    assert(j[11] == d[0]);
}

impl TokenBody {
    /// The JSON form of this body.
    pub fn to_json(&self) -> (r: String)
        ensures
            r@ == token_json(self.token@),
    {
        let mut out = String::new();
        out.append("{\"token\":");
        let quoted = json_str(self.token.as_str());
        out.append(quoted.as_str());
        out.append("}");
        assert(out@ =~= token_json(self.token@));
        out
    }
}

impl PostThreadResult {
    /// The JSON form of this body.
    pub fn to_json(&self) -> (r: String)
        ensures
            r@ == post_id_json(self.post_id),
    {
        let mut out = String::new();
        out.append("{\"post_id\":");
        push_decimal(&mut out, self.post_id as u64);
        out.append("}");
        assert(out@ =~= post_id_json(self.post_id));
        out
    }
}

} // verus!
