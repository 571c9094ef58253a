//! Byte sources, byte sinks and the error model of a CBOR encoder and decoder.
//!
//! The decoder pulls its input through [`read::Read`], the encoder pushes its
//! output through [`write::Write`], and both report failures as [`error::Error`].

pub mod error;
pub mod io_read;
mod private;
pub mod mut_slice_read;
pub mod read;
pub mod slice_read;
pub mod write;
