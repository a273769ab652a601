//! What each endpoint answers, once the database has done its part.

use vstd::prelude::*;

use crate::api::errors::errors::{
    ApiResponse, empty_json, empty_json_response, error_message, error_response,
    internal_error, internal_error_response, json_response,
};
use crate::api::types::{PostThreadResult, post_id_json};
use crate::database::db::ID;
use crate::database::types::{BoardData, boards_json, boards_to_json};

verus! {

/// The MySQL error number of an insert that duplicates a unique key.
pub const DUPLICATE_ENTRY: u16 = 1062;

/// The reply to a board request: the threads as a JSON array, or the internal
/// error when the query failed.
pub fn get_boards_reply(boards: Result<Vec<BoardData>, ()>) -> (r: ApiResponse)
    ensures
        match boards {
            Ok(v) => r@ == json_response(boards_json(v@)),
            Err(_) => r@ == internal_error_response(),
        },
{
    match boards {
        Ok(data) => ApiResponse { status: 200, json: true, body: boards_to_json(&data) },
        Err(_) => internal_error(),
    }
}

/// The reply to a like: `{}` when it was stored; "duplicate like" (400) when
/// the database refused it as a duplicate (`Err(Some(n))` carries the MySQL
/// error number); the internal error on any other failure.
pub fn like_post_reply(outcome: Result<(), Option<u16>>) -> (r: ApiResponse)
    ensures
        match outcome {
            Ok(_) => r@ == empty_json_response(),
            Err(Some(n)) => r@ == if n == DUPLICATE_ENTRY {
                error_response("duplicate like"@, 400)
            } else {
                internal_error_response()
            },
            Err(None) => r@ == internal_error_response(),
        },
{
    match outcome {
        Ok(_) => empty_json(),
        Err(Some(number)) => {
            if number == DUPLICATE_ENTRY {
                error_message("duplicate like", 400)
            } else {
                internal_error()
            }
        },
        Err(None) => internal_error(),
    }
}

/// The reply to an unlike: `{}` when the query ran (whether or not there was a
/// like to delete), the internal error when it failed.
pub fn like_post_delete_reply(outcome: Result<(), ()>) -> (r: ApiResponse)
    ensures
        match outcome {
            Ok(_) => r@ == empty_json_response(),
            Err(_) => r@ == internal_error_response(),
        },
{
    match outcome {
        Ok(_) => empty_json(),
        Err(_) => internal_error(),
    }
}

/// The reply to a posted thread: `{"post_id":<id>}`, or the internal error when
/// the insert failed.
pub fn post_thread_reply(outcome: Result<ID, ()>) -> (r: ApiResponse)
    ensures
        match outcome {
            Ok(id) => r@ == json_response(post_id_json(id)),
            Err(_) => r@ == internal_error_response(),
        },
{
    match outcome {
        Ok(db_index) => {
            let result = PostThreadResult { post_id: db_index };
            ApiResponse { status: 200, json: true, body: result.to_json() }
        },
        Err(_) => internal_error(),
    }
}

} // verus!
