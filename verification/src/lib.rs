//! Fixed-dimension vector primitives for the plane and for 3-space.
//!
//! Components are IEEE-754 binary32 values, carried as their 32-bit
//! representations (`u32`), which is the form the verifier can reason
//! about exactly. The modules here cover the value-level rules of the
//! two vector types: the bit-level classification of components
//! (finite, NaN, zero), structural equality with IEEE zero semantics,
//! the widening of 32-bit integers to binary32, componentwise access,
//! and the conversions at the type boundary, fallible and not.
//! Floating-point arithmetic itself (sums, products, square roots,
//! trigonometry) is outside what the verifier can state and lives with
//! the callers that hold `f32` values.

pub mod fbits;
pub mod vect2;
pub mod vect3;
pub mod widen;

pub use fbits::clamp_unit;
pub use fbits::float_eq;
pub use fbits::is_finite;
pub use fbits::is_nan;
pub use fbits::is_zero_value;
pub use vect2::Vect2;
pub use vect3::Vect3;
pub use widen::widen_i32;
