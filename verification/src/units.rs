//! Shared units and global bounds.

use vstd::prelude::*;

verus! {

/// Fixed-point scale for progress values: a progress of `VALUE_SCALE`
/// stands for 1.0, that is, one full duration elapsed.
pub const VALUE_SCALE: u64 = 1000;

/// Clock ticks per second. All instants and durations are tick counts
/// supplied by the caller; the library never reads a clock itself.
pub const TICKS_PER_SECOND: u64 = 1000;

/// Largest instant or duration the clock may reach. The bound keeps
/// `elapsed * VALUE_SCALE` inside `u64`, so progress values never overflow.
pub const TIME_MAX: u64 = u64::MAX / VALUE_SCALE;

/// Bound on window sizes, pointer coordinates and block sizes, in
/// coordinate units. It keeps squared distances inside the machine range.
pub const GEOM_LIMIT: i64 = 0x4000_0000;

/// Bound on block positions, looser than `GEOM_LIMIT` since a block's
/// corner is computed from a window coordinate and a grid offset.
pub const BLOCK_POS_LIMIT: i64 = 0x10_0000_0000;

/// Bound on progress-bar geometry. Bars built by the game stay far below
/// it; the bound keeps the bar's own arithmetic inside `i64`.
pub const BAR_GEOM_LIMIT: i64 = 0x100_0000_0000;

} // verus!
