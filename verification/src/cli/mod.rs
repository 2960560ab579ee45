//! What the command line decides and shows, apart from reading input and printing.

pub mod resolve;
pub mod emails;
pub mod contacts;
pub mod io;
pub mod setup;
pub mod views;
