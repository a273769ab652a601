//! The decisions of the database layer: what a login attempt yields, which
//! cursor a board query starts from, and which post id an insert gave.

use vstd::prelude::*;

verus! {

/// The type of the ids stored in the database.
pub type ID = u32;

/// Why a login attempt failed.
pub enum LoginResultError {
    /// The database could not be queried; the text describes the failure.
    SqlError(String),
    /// No user has this name, or the password does not match.
    InvalidUsernamePassword,
}

#[verifier::external_type_specification]
#[verifier::external_body]
pub struct ExBcryptError(bcrypt::BcryptError);

/// What `bcrypt::verify` gives for a password and a stored hash: `Some(b)`
/// when the hash can be read (`b` tells whether the password matches it),
/// `None` when it returns an error.
pub uninterp spec fn bcrypt_verdict(password: Seq<char>, hash: Seq<char>) -> Option<bool>;

/// Calls `bcrypt::verify(password, hash)`. Trusted: its result is a function
/// of the two texts alone (the salt and cost are read from the hash), named
/// `bcrypt_verdict`.
#[verifier::external_body]
fn bcrypt_verify(password: &str, hash: &str) -> (r: Result<bool, bcrypt::BcryptError>)
    ensures
        match r {
            Ok(b) => bcrypt_verdict(password@, hash@) == Some(b),
            Err(_) => bcrypt_verdict(password@, hash@) is None,
        },
{
    bcrypt::verify(password, hash)
}

/// Whether `password` matches the stored bcrypt `hash`; a hash that cannot be
/// read matches no password.
pub fn password_matches(password: &str, hash: &str) -> (r: bool)
    ensures
        r == (bcrypt_verdict(password@, hash@) == Some(true)),
{
    match bcrypt_verify(password, hash) {
        Ok(b) => b,
        Err(_) => false,
    }
}

/// Decides a login attempt from the outcome of the query for the user's id and
/// password hash (`Ok(None)` when no user has that name) and the password that
/// was given: the user's id when the password matches the hash.
pub fn check_user_pass(
    hashed_password: Result<Option<(ID, String)>, String>,
    password: &str,
) -> (r: Result<ID, LoginResultError>)
    ensures
        match hashed_password {
            Err(e) => r matches Err(LoginResultError::SqlError(m)) && m@ == e@,
            Ok(None) => r == Err::<ID, LoginResultError>(LoginResultError::InvalidUsernamePassword),
            Ok(Some((id, hash))) => if bcrypt_verdict(password@, hash@) == Some(true) {
                r == Ok::<ID, LoginResultError>(id)
            } else {
                r == Err::<ID, LoginResultError>(LoginResultError::InvalidUsernamePassword)
            },
        },
{
    match hashed_password {
        Err(e) => Err(LoginResultError::SqlError(e)),
        Ok(None) => Err(LoginResultError::InvalidUsernamePassword),
        Ok(Some((id, hash))) => {
            if password_matches(password, hash.as_str()) {
                Ok(id)
            } else {
                Err(LoginResultError::InvalidUsernamePassword)
            }
        },
    }
}

/// The id that a board query starts from: threads with an id up to it are
/// listed, and 0 stands for "from the newest".
pub open spec fn board_cursor(from: ID) -> ID {
    if from == 0 {
        ID::MAX
    } else {
        from
    }
}

/// A board query starts from the id it asks for, and from the largest id when
/// it asks for 0.
pub proof fn law_board_cursor(from: ID)
    ensures
        from != 0 ==> board_cursor(from) == from,
        board_cursor(0) == u32::MAX,
{
}

/// The id that a board query starts from (0 means the newest thread).
pub fn effective_from(from: ID) -> (r: ID)
    ensures
        r == board_cursor(from),
        from != 0 ==> r == from,
        from == 0 ==> r == u32::MAX,
{
    if from == 0 {
        ID::MAX
    } else {
        from
    }
}

/// The post id for the id that the database reports for an inserted row: its
/// low 32 bits.
pub fn post_id_from_insert_id(last_insert_id: u64) -> (r: ID)
    ensures
        r as int == last_insert_id as int % 0x1_0000_0000,
{
    (last_insert_id % 0x1_0000_0000) as u32
}

} // verus!
