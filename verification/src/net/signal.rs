//! Signal strength as a percentage.

use vstd::prelude::*;

verus! {

/// `v`, held between `low` and `high`.
pub open spec fn clamped(v: int, low: int, high: int) -> int {
    if v < low {
        low
    } else if v > high {
        high
    } else {
        v
    }
}

/// The percentage for a signal level in dBm: -100 dBm and less is 0, -30 dBm
/// and more is 100, and between them the percentage grows with the level.
pub open spec fn percent_of_dbm(dbm: int) -> int {
    clamped(clamped(dbm + 100, 0, 100) * 100 / 70, 0, 100)
}

/// Convert dBm signal strength to percentage (0-100).
pub fn dbm_to_percent(dbm: i32) -> (percent: u8)
    ensures
        percent == percent_of_dbm(dbm as int),
        percent <= 100,
{
    let above_floor: i64 = dbm as i64 + 100;
    let level: i64 = if above_floor < 0 {
        0
    } else if above_floor > 100 {
        100
    } else {
        above_floor
    };
    let scaled: i64 = level * 100 / 70;
    if scaled > 100 {
        100
    } else {
        scaled as u8
    }
}

/// The percentage for a number of signal marks, at 25 to the mark and 100 at
/// most.
pub open spec fn percent_of_marks(marks: nat) -> int {
    if marks >= 4 {
        100
    } else {
        (marks * 25) as int
    }
}

/// The signal strength that a number of marks stands for.
pub fn marks_to_percent(marks: usize) -> (percent: u8)
    ensures
        percent == percent_of_marks(marks as nat),
{
    if marks >= 4 {
        100
    } else {
        (marks * 25) as u8
    }
}

} // verus!
