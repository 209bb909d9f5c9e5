//! Client-side core of a vision-language inference service: request
//! description, response status mapping, and the incremental decoder that turns
//! a fragmented server-sent-event byte stream into ordered text chunks.

pub mod common;
pub mod decoder;
pub mod json;
pub mod moondream;
pub mod session;
pub mod text;
