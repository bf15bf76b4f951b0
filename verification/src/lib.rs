//! Kama Core: buffers, queues, routing topology and timing primitives for
//! real-time audio, with their behaviour stated and proved in Verus.
use vstd::prelude::*;

pub mod buffer;
pub mod control;
pub mod error;
pub mod graph;
pub mod high_precision;
pub mod io;
pub mod mixer;
pub mod queues;
pub mod signal;
pub mod simd;
pub mod time;

verus! {

/// Default block size for audio processing.
pub const DEFAULT_BLOCK_SIZE: usize = 64;

/// Maximum block size.
pub const MAX_BLOCK_SIZE: usize = 8192;

/// Minimum block size.
pub const MIN_BLOCK_SIZE: usize = 16;

/// Cache line size used for alignment (64 bytes on x86_64).
pub const CACHE_LINE_SIZE: usize = 64;

} // verus!
