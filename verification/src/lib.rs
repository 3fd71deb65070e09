//! Decoder for the BD1 fixed-layout binary block-model format.
//!
//! A BD1 buffer starts with a table of ten texture filename slots of
//! 31 bytes each, followed by a sequence of fixed-width block records.
//! The decoder walks the buffer once, validates it, and produces a
//! [`reader::Reader`] holding the normalized texture table and the
//! ordered block list, or a [`reader::FormatError`] naming the first
//! offending region.
//!
//! Multi-byte fields are little-endian. Floating-point components are
//! kept as their raw 32-bit patterns so that decoding is exact and the
//! verified logic stays within integer arithmetic; callers that need
//! `f32` values reinterpret the bits.

pub mod error;
pub mod geom;
pub mod reader;
pub mod texture;
