use vstd::prelude::*;

verus! {

/// The distance between resampled points, in micrometres.
pub const SAMPLE_DISTANCE: u64 = 10_000;

/// The maximum number of raw points a point trace holds; older points are
/// evicted first.
pub const MAX_POINTS: usize = 2048;

/// The number of newest raw points kept when a trace is mostly cleared after a
/// detection.
pub const KEEP_POINTS: usize = 2;

/// Two cumulative angles (micro-radians) within this margin are considered a
/// match.
pub const MARGIN: i64 = 200_000;

/// A search for a matching point is interrupted once the cumulative angles
/// differ by more than this (micro-radians).
pub const INTERRUPT_MARGIN: i64 = 2_750_000;

/// The number of template points without a match at which a comparison fails.
pub const MAX_ERROR: usize = 2;

/// How many points of the other trace are looked at for each template point.
pub const SEARCH_SPACE: usize = 10;

/// Numerator of the maximum tempo deviation factor (1.75 = 7 / 4).
pub const DEVIATION_NUM: usize = 7;

/// Denominator of the maximum tempo deviation factor (1.75 = 7 / 4).
pub const DEVIATION_DEN: usize = 4;

} // verus!
