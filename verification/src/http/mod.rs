//! Requests, responses and security headers.

pub mod request;
pub mod response;
pub mod security;
