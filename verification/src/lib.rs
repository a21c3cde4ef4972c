//! The routing core of an HTTP server that stands behind a scripting
//! layer: path patterns with typed parameters, a dispatcher that answers
//! from a static store, a cache with times to live, and routes served by a
//! foreign handler, with the counters that tell the tiers apart. Around
//! it stand the responses, requests, middleware settings and other pieces
//! that the serving layer is built from. Every executable function carries
//! a contract over a mathematical model of its data.

pub mod clock;
pub mod codec;
pub mod database;
pub mod dispatch;
pub mod handlers;
pub mod http;
pub mod middleware;
pub mod rate_limiting;
pub mod routing;
pub mod server;
pub mod string_map;
pub mod template_values;
pub mod templates;
pub mod text;
