//! Decoding of diagnostic response payloads, driven by a parameter schema.

pub mod bits;
pub mod endian;
pub mod format;
pub mod laws;
pub mod service;
pub mod text;
pub mod value;
