//! Words per minute.
use vstd::prelude::*;

verus! {

/// Words per minute, in thousandths and rounded down, for `total_chars`
/// characters typed in `elapsed_ms` milliseconds; a word counts five
/// characters. `None` when no time has passed, or when the count is too large
/// to scale.
pub open spec fn wpm_milli(total_chars: int, elapsed_ms: int) -> Option<u128> {
    if elapsed_ms <= 0 || total_chars * 12_000_000 > u128::MAX {
        None
    } else {
        Some(((total_chars * 12_000_000) / elapsed_ms) as u128)
    }
}

/// Computes words per minute in thousandths:
/// `(total_chars / 5) / (elapsed_ms / 60000)`, scaled by 1000.
pub fn words_per_minute_milli(total_chars: u128, elapsed_ms: u64) -> (r: Option<u128>)
    ensures
        r == wpm_milli(total_chars as int, elapsed_ms as int),
{
    if elapsed_ms == 0 {
        return None;
    }
    match total_chars.checked_mul(12_000_000) {
        None => None,
        Some(scaled) => Some(scaled / (elapsed_ms as u128)),
    }
}

} // verus!
