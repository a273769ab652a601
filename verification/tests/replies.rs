use board_api::api::errors::errors::{empty_json, error_message, internal_error, unauthorized_error, valid_status};
use board_api::api::json::{json_str, push_decimal, push_signed_decimal};
use board_api::api::routes::{get_boards_reply, like_post_delete_reply, like_post_reply, post_thread_reply};
use board_api::api::types::{PostThreadResult, TokenBody};
use board_api::database::types::{boards_to_json, is_false, BoardData};

#[test]
fn error_message_with_a_valid_status() {
    let reply = error_message("bad input", 400);
    assert_eq!(reply.status, 400);
    assert!(reply.json);
    assert_eq!(reply.body, "{\"error\":\"bad input\"}");
}

#[test]
fn error_message_escapes_the_message() {
    let reply = error_message("say \"hi\"\n", 418);
    assert_eq!(reply.body, "{\"error\":\"say \\\"hi\\\"\\n\"}");
}

#[test]
fn error_message_with_an_invalid_status() {
    for status in [0u16, 99, 1000, 65535] {
        let reply = error_message("x", status);
        assert_eq!(reply.status, 500);
        assert!(!reply.json);
        assert_eq!(reply.body, "");
    }
    assert!(valid_status(100));
    assert!(valid_status(999));
    assert!(!valid_status(99));
    assert!(!valid_status(1000));
}

#[test]
fn fixed_replies() {
    let internal = internal_error();
    assert_eq!((internal.status, internal.json), (500, true));
    assert_eq!(internal.body, "{\"error\":\"internal error\"}");
    let unauthorized = unauthorized_error();
    assert_eq!(unauthorized.status, 401);
    assert_eq!(unauthorized.body, "{\"error\":\"unauthorized\"}");
    let empty = empty_json();
    assert_eq!((empty.status, empty.json), (200, true));
    assert_eq!(empty.body, "{}");
}

#[test]
fn decimal_numbers() {
    let mut out = String::from("n=");
    push_decimal(&mut out, 0);
    assert_eq!(out, "n=0");
    let mut out = String::new();
    push_decimal(&mut out, 1203);
    assert_eq!(out, "1203");
    let mut out = String::new();
    push_decimal(&mut out, u64::MAX);
    assert_eq!(out, u64::MAX.to_string());
    for n in [0i64, 7, -7, 120, -45_000, i64::MAX, i64::MIN] {
        let mut out = String::new();
        push_signed_decimal(&mut out, n);
        assert_eq!(out, n.to_string());
    }
}

#[test]
fn json_string_literals() {
    assert_eq!(json_str("plain"), "\"plain\"");
    assert_eq!(json_str("a\\b"), "\"a\\\\b\"");
    assert_eq!(json_str("tab\there"), "\"tab\\there\"");
    assert_eq!(json_str(""), "\"\"");
    assert_eq!(json_str("\u{8}\u{c}\r\u{1}\u{1f}"), "\"\\b\\f\\r\\u0001\\u001f\"");
    assert_eq!(json_str("/\u{7f}\u{e9}"), "\"/\u{7f}\u{e9}\"");
}

#[test]
fn is_false_negates() {
    assert!(is_false(&false));
    assert!(!is_false(&true));
}

fn thread(id: u32, data: &str, likes: i64, liked: bool) -> BoardData {
    BoardData { id, data: data.to_string(), likes, liked }
}

#[test]
fn board_json_leaves_out_a_false_liked() {
    assert_eq!(thread(1, "hi", 0, false).to_json(), "{\"id\":1,\"data\":\"hi\",\"likes\":0}");
    assert_eq!(
        thread(25, "a \"quote\"", 3, true).to_json(),
        "{\"id\":25,\"data\":\"a \\\"quote\\\"\",\"likes\":3,\"liked\":true}"
    );
}

#[test]
fn boards_json_arrays() {
    assert_eq!(boards_to_json(&vec![]), "[]");
    let boards = vec![thread(9, "x", 1, false), thread(8, "y", 2, true)];
    assert_eq!(
        boards_to_json(&boards),
        "[{\"id\":9,\"data\":\"x\",\"likes\":1},{\"id\":8,\"data\":\"y\",\"likes\":2,\"liked\":true}]"
    );
}

#[test]
fn boards_reply() {
    let reply = get_boards_reply(Ok(vec![thread(1, "t", -1, false)]));
    assert_eq!((reply.status, reply.json), (200, true));
    assert_eq!(reply.body, "[{\"id\":1,\"data\":\"t\",\"likes\":-1}]");
    let failed = get_boards_reply(Err(()));
    assert_eq!(failed.status, 500);
    assert_eq!(failed.body, "{\"error\":\"internal error\"}");
}

#[test]
fn like_replies() {
    assert_eq!(like_post_reply(Ok(())).body, "{}");
    let duplicate = like_post_reply(Err(Some(1062)));
    assert_eq!(duplicate.status, 400);
    assert_eq!(duplicate.body, "{\"error\":\"duplicate like\"}");
    assert_eq!(like_post_reply(Err(Some(1452))).status, 500);
    assert_eq!(like_post_reply(Err(None)).status, 500);
    assert_eq!(like_post_delete_reply(Ok(())).body, "{}");
    assert_eq!(like_post_delete_reply(Err(())).status, 500);
}

#[test]
fn post_thread_replies() {
    let reply = post_thread_reply(Ok(77));
    assert_eq!((reply.status, reply.json), (200, true));
    assert_eq!(reply.body, "{\"post_id\":77}");
    assert_eq!(post_thread_reply(Err(())).status, 500);
    assert_eq!(PostThreadResult { post_id: 4294967295 }.to_json(), "{\"post_id\":4294967295}");
    assert_eq!(TokenBody { token: "t".to_string() }.to_json(), "{\"token\":\"t\"}");
}
