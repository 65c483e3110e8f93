//! Planar warp algebra and a bilinear resampler over an exact fixed-point
//! scalar.
//!
//! The crate models 2-D homographies as 3x3 matrices of `Fx` values
//! (signed 64-bit, 32 fractional bits) together with a tagged
//! degree-of-freedom kind, and provides composition, inversion,
//! parameterization, extent computation, time interpolation and a bilinear
//! resampling kernel, all with exact contracts over the fixed-point
//! arithmetic.
//!
//! - `fixed` holds the saturating fixed-point scalar and its laws;
//! - `mat` the 3x3 matrix algebra;
//! - `kind` the degree-of-freedom tags;
//! - `warps` the `Mapping` type and its warp algebra;
//! - `interp` time interpolation of mapping parameters;
//! - `resample` the plane types and the bilinear kernel;
//! - `laws` the proofs that relate the operations to one another;
//! - `error` the error kinds every refused call reports.

pub mod error;
pub mod fixed;
pub mod interp;
pub mod kind;
pub mod laws;
pub mod mat;
pub mod resample;
pub mod warps;

pub use error::WarpError;
pub use fixed::Fx;
pub use kind::TransformationType;
pub use mat::Mat3;
pub use resample::{Array3F, Mask2, MAX_CHANNELS, fx_to_u8s, u8s_to_fx};
pub use warps::Mapping;
