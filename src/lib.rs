//! Streaming caption assembly: fixed-size audio chunking, speech gating,
//! engine hot-swap routing and the caption line buffer.

pub mod audio;
pub mod caption;
pub mod config;
pub mod gate;
pub mod layout;
pub mod models;
pub mod rechunk;
pub mod router;
pub mod stt;
pub mod text;
