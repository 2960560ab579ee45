pub mod actions;
pub mod cli;
pub mod config;
pub mod dotenv;
pub mod error;
pub mod jmap;
pub mod json;
pub mod json_text;
pub mod logging;
pub mod mcp;
pub mod recorder;
pub mod text;
pub mod present;
