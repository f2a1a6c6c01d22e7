//! Core of a looping terminal "rain" animation: an immutable background
//! field carrying a four-letter watermark, a purely local cell update rule
//! that lets raindrops spread outward and then uncover the background
//! again, a frame stepper that seeds fresh drops on available cells, and
//! the small state machine that ends the animation on the quit key.

use vstd::prelude::*;

pub mod control;
pub mod field;
pub mod random;
pub mod rule;
pub mod stepper;

verus! {

/// Number of rows of the animated field.
pub const FIELD_ROWS: usize = 16;

/// Number of columns of the animated field.
pub const FIELD_COLUMNS: usize = 64;

/// Numerator of the probability that a background cell is textured (`','`).
pub const BACKGROUND_NUMERATOR: u32 = 1;

/// Denominator of the probability that a background cell is textured.
pub const BACKGROUND_DENOMINATOR: u32 = 3;

/// How many fresh drops a single frame step tries to seed.
pub const DROP_COUNT: usize = 10;

/// Delay between two frames, in milliseconds.
pub const FRAME_DELAY_MS: u64 = 150;

/// Timeout of one non-blocking poll for input, in milliseconds.
pub const POLL_TIMEOUT_MS: u64 = 16;

/// The key that ends the animation.
pub const QUIT_KEY: char = 'q';

} // verus!
