pub mod db;
pub mod types;
