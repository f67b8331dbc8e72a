//! A verified decoder for the GIF image container format.
//!
//! The decoder recovers a structured representation — header, logical screen
//! descriptor, optional color tables, and an ordered sequence of image and
//! extension blocks — from a raw byte buffer, by single-pass recursive
//! descent. Image data is kept as opaque sub-blocks; no LZW decompression is
//! performed. Every parser is specified against a mathematical grammar over
//! `Seq<u8>`, so parsing is deterministic and never panics on any input.

pub mod block;
pub mod color;
pub mod descriptor;
pub mod error;
pub mod gif;
pub mod primitives;
pub mod sub_block;
