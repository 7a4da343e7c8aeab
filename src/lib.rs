//! Blocking primitives for exchanging fixed-size plain values ("logs") over a
//! duplex byte stream (a "gutter"), with a one-byte handshake.

pub mod log;
pub mod gutter;
pub mod transfer;

pub use gutter::{Gutter, MemGutter};
pub use log::Log;
pub use transfer::{hail, pick_up, pick_up_and_hail, throw, throw_and_wait, wait, HAIL_BYTE};
