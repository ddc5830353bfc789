//! Scalar quantization for vector-similarity search: estimates a global
//! `[min, max]` range over float vector components, maps components to 8-bit
//! codes by linear min-max scaling, and exposes the metadata needed to
//! persist and reload a trained quantizer.
//!
//! Floating-point values cross this library's boundary as their IEEE-754 bit
//! patterns (`u16`/`u32`/`u64`); all range bookkeeping, width dispatch and
//! saturation logic is verified on that integer representation. The one step
//! that needs native double-precision arithmetic (the affine scaling itself)
//! is returned to the caller as an explicit job (see `codes::ScaleJob`).

pub mod float_bits;
pub mod bounds;
pub mod codes;
pub mod quantizer;
