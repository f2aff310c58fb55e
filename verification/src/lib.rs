//! # ananas
//!
//! Hide bytes in the payload bits of single-precision NaN values.
//!
//! A unit is the 32-bit pattern of an `f32`. The library works on bit
//! patterns throughout, so that every statement about a unit is a statement
//! about its bits; `f32::from_bits` and `f32::to_bits` carry a unit to and
//! from the floating-point value.

pub mod batch;
pub mod layout;
pub mod text;
pub mod unit;

pub use batch::{bytes_to_nan, nan_to_bytes};
pub use text::{nan_to_str, str_to_nan, InvalidUtf8};
pub use unit::{conforms, from_f32, into_f32, nan_to_u16, u16_to_nan};
