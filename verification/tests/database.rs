use board_api::database::db::{check_user_pass, effective_from, password_matches, post_id_from_insert_id, LoginResultError};

const PYTHON_HASH: &str = "$2b$04$EGdrhbKUv8Oc9vGiXX0HQOxSg445d458Muh7DAHskb6QbtCvdxcie";

#[test]
fn matching_password_logs_in() {
    let row = Ok(Some((12u32, PYTHON_HASH.to_string())));
    assert!(matches!(check_user_pass(row, "correctbatteryhorsestapler"), Ok(12)));
}

#[test]
fn wrong_password_is_refused() {
    let row = Ok(Some((12u32, PYTHON_HASH.to_string())));
    assert!(matches!(check_user_pass(row, "wrong"), Err(LoginResultError::InvalidUsernamePassword)));
}

#[test]
fn unknown_user_is_refused() {
    assert!(matches!(check_user_pass(Ok(None), "anything"), Err(LoginResultError::InvalidUsernamePassword)));
}

#[test]
fn unreadable_hash_is_refused() {
    let row = Ok(Some((1u32, "$2a$04$tjARW6ZON3PhrAIRW2LG/u9a.".to_string())));
    assert!(matches!(check_user_pass(row, "x"), Err(LoginResultError::InvalidUsernamePassword)));
    assert!(!password_matches("x", "not a hash"));
}

#[test]
fn query_failure_is_a_sql_error() {
    match check_user_pass(Err("connection lost".to_string()), "pw") {
        Err(LoginResultError::SqlError(text)) => assert_eq!(text, "connection lost"),
        _ => panic!("a failed query did not give a SQL error"),
    }
}

#[test]
fn password_check_against_known_hashes() {
    assert!(password_matches("password", "$2a$04$UuTkLRZZ6QofpDOlMz32MuuxEHA43WOemOYHPz6.SjsVsyO1tDU96"));
    assert!(password_matches("correctbatteryhorsestapler", "$2a$04$n4Uy0eSnMfvnESYL.bLwuuj0U/ETSsoTpRT9GVk5bektyVVa5xnIi"));
}

#[test]
fn board_cursor() {
    assert_eq!(effective_from(0), u32::MAX);
    assert_eq!(effective_from(1), 1);
    assert_eq!(effective_from(500), 500);
}

#[test]
fn post_id_is_the_low_32_bits() {
    assert_eq!(post_id_from_insert_id(17), 17);
    assert_eq!(post_id_from_insert_id(0x1_0000_0005), 5);
    assert_eq!(post_id_from_insert_id(u64::MAX), u32::MAX);
}
