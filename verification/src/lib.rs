//! The core of a command-line HTTP client: the parser of parameter
//! expressions, and the assembly of a request from the parsed parameters,
//! the options and the session.

pub mod address;
pub mod app;
pub mod auth;
pub mod client;
pub mod errors;
pub mod json;
pub mod param;
pub mod parse;
pub mod precedence;
pub mod request;
pub mod resolution;
pub mod response;
pub mod session;
pub mod text;
pub mod token;
