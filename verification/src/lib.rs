//! A client library for a text-generation HTTP API.
//!
//! The verified core covers the request/response translation layer: building
//! the provider wire request from configuration and a prompt, interpreting the
//! provider's response, validating credentials at client construction, and
//! assembling the outgoing prompt text.  Network and file I/O live outside
//! this crate.

pub mod chars;
pub mod num;
pub mod json;
pub mod emit;
pub mod parse;
pub mod config;
pub mod request;
pub mod response;
pub mod prompting;
pub mod llm;
pub mod round_trip;
