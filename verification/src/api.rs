pub mod auth;
pub mod errors;
pub mod json;
pub mod routes;
pub mod types;
