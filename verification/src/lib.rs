//! A verified request-processing pipeline: an ordered chain of middleware
//! units composed around a terminal handler, together with a stream
//! decorator that observes a response body as it is pulled chunk by chunk,
//! accumulates a copy of the bytes for a diagnostic side effect, and
//! forwards every chunk unchanged.

pub mod chain;
pub mod decorate;
pub mod message;
pub mod stream;
