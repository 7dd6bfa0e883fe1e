//! Verified core of an escape-time fractal renderer.
//!
//! The library owns everything that can be stated and proved over plain
//! values: the viewport state machine with its dirty flag, the iteration
//! budget of the escape-time loop, and the block-sampled RGBA buffer
//! generator.  The floating-point plane arithmetic (complex powers, the
//! affine pixel-to-plane map) lives with the unverified driver, which
//! reports its results to this crate as plain integers and booleans.
pub mod app;
pub mod escape;
pub mod image;

pub use app::AppState;
pub use escape::MAX_ITERATIONS;
pub use escape::escape_step;
pub use image::grid_len;
