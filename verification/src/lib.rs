//! Library core of the MemeBlink overlay: message parsing, media decoding,
//! animation timing, overlay placement and the IPC framing between the
//! dashboard and the overlay.

pub mod constants;
pub mod decoder;
pub mod error;
pub mod events;
pub mod ipc;
pub mod matrix;
pub mod models;
pub mod overlay;
pub mod parser;
pub mod placement;
pub mod render;
pub mod text;
pub mod texture;
pub mod time;
