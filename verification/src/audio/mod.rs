//! Recording: the capture of a clip and what is done to it before it is
//! transcribed.
//!
//! Nothing here depends on what a sample is. The functions are generic in the
//! sample type, and arithmetic on samples is handed in or done by the caller.

pub mod capture;
pub mod preprocess;

pub use capture::{AudioError, CapturedAudio};
pub use preprocess::passes_gate;
