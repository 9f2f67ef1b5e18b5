//! Device-code sign-in, credential storage and command-output handling for a
//! desktop front end of a command-line assistant.

pub mod text;
pub mod error;
pub mod json;
pub mod poll;
pub mod credential;
pub mod device;
pub mod login;
pub mod tool;
