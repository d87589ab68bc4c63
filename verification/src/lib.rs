//! Short-time Fourier transform plumbing: a weighted-overlap-add framing
//! engine together with the window bookkeeping and spectral index logic it
//! needs.
//!
//! The engine is generic over a [`sample::Sample`] arithmetic, so every index
//! computation and every data-flow step of the analysis-synthesis cycle is
//! stated and checked here, independently of the concrete number type a
//! caller picks.

pub mod frame;
pub mod sample;
pub mod stft;
pub mod variables;
pub mod windows;

pub use crate::frame::Framing;
pub use crate::sample::Sample;
pub use crate::variables::Q;
