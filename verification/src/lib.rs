//! Streaming convolution of a sample stream with a fixed impulse response,
//! block by block in the transformed domain.

pub mod arithmetic;
pub mod convolution;
pub mod dtype;
pub mod padding;
pub mod stereo;

pub use crate::arithmetic::Arithmetic;
pub use crate::convolution::{FFTConvolution, Filter};
pub use crate::stereo::{StereoFFTConvolution, StereoFilter, TrueStereoFFTConvolution};
