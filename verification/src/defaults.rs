//! Default values shared by command-line arguments, configuration files and
//! runtime behaviour. Fractions are held in millionths.

use vstd::prelude::*;

verus! {

/// Default minimum block size for duplicate detection (in tokens).
pub const MIN_BLOCK_SIZE: usize = 50;

/// Default similarity threshold for duplicate detection, in millionths
/// (0.85).
pub const SIMILARITY: i64 = 850_000;

/// Default Type-3 tolerance for gap-tolerant clone detection, in millionths
/// (0.85).
pub const TYPE3_TOLERANCE: i64 = 850_000;

/// Check if a min_block_size value is the default
pub fn is_default_min_block_size(value: usize) -> (r: bool)
    ensures
        r == (value == MIN_BLOCK_SIZE),
{
    value == MIN_BLOCK_SIZE
}

/// Check if a similarity value (in millionths) is the default, with a
/// tolerance of one thousandth.
pub fn is_default_similarity(value: i64) -> (r: bool)
    ensures
        r == (SIMILARITY - 1000 < value < SIMILARITY + 1000),
{
    SIMILARITY - 1000 < value && value < SIMILARITY + 1000
}

} // verus!
