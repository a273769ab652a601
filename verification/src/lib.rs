//! Verified core of a small message-board backend: session tokens, login and
//! reply decisions, and the JSON framing of the replies.

pub mod api;
pub mod database;
