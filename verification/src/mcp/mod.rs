pub mod handler;
pub mod server;
pub mod types;
