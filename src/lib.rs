//! A minimal caching reverse proxy: request-line parsing, response framing,
//! a shared response cache and the per-connection decisions that tie them
//! together.
pub mod request;
pub mod response;
pub mod cache;
pub mod handler;
