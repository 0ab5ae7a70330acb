//! A terminal music player's playback engine: the queue and history that
//! decide which track plays next, the spectrum analyzer's sample accounting
//! and bar bucketing, the track store's ordering rules, and the decisions of
//! the tick-driven session loop.
use vstd::prelude::*;

pub mod navigator;
pub mod prompt;
pub mod queue_file;
pub mod session;
pub mod songs;
pub mod spectrum;
pub mod text;
pub mod ui;
pub mod track;

verus! {

/// Number of bars in the spectrum display.
pub const NUM_BARS: usize = 48;

/// Length of one tick of the session loop, in milliseconds.
pub const TICK_RATE: u64 = 50;

/// Number of samples in the window handed to the frequency transform.
pub const HANN_WINDOW_SIZE: usize = 2048;

} // verus!
