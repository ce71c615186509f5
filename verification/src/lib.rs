//! A verified bridge between typed tensor messages and a native inference engine.
//!
//! A wire request is checked and encoded into the flat buffers that the engine
//! reads, the steps that hand it to the engine are laid out in their order, the
//! notifications of the engine are answered, and the buffers of the engine's
//! response are decoded into a wire response. The engine itself is never called
//! from here: whoever drives it carries out what these functions decide.

pub mod codec;
pub mod codec_laws;
pub mod decimal;
pub mod error;
pub mod inference_request;
pub mod inference_response;
pub mod proto;
pub mod response_allocator;
pub mod server;
pub mod utils;
