//! A typed client for the Domeneshop registrar REST API.
//!
//! The library builds request URLs from a configured base address, attaches
//! Basic-auth credentials and an identification header to every request,
//! dispatches through a pluggable transport, and interprets responses by
//! status code, normalising every failure into one uniform error value.

pub mod client;
pub mod codec;
pub mod date;
pub mod endpoints;
pub mod errors;
pub mod http;
pub mod interpret;
pub mod json;
pub mod parse;
pub mod query;
pub mod text;
pub mod weburl;
