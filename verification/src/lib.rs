//! A verified bundle pipeline for leaf transaction envelopes: a
//! deterministic binary codec, a lossless compression layer, an
//! order-preserving assembler and a sentinel-invariant validator,
//! with the chain gateway kept at the boundary.

pub mod assemble;
pub mod calldata;
pub mod codec;
pub mod compress;
pub mod envelope;
pub mod errors;
pub mod hexfmt;
pub mod laws;
pub mod metadata;
pub mod retrieve;
pub mod validate;
