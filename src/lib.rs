//! A bridge between a dynamically typed host and the VRL remapping language:
//! a canonical value model with its conversions, a unified diagnostic shape,
//! and an execution engine with a single-slot compiled-program cache.
pub mod dsl;
pub mod runtime;
pub mod value;
