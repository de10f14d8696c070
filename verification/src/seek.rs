//! Where a seek lands, and how a position is shown.

use crate::decimal::{padded, padded_text};
use vstd::prelude::*;
use vstd::string::StringExecFns;

verus! {

/// How far one step back or forward goes, in seconds.
pub const SEEK_STEP_SECONDS: i64 = 10;

/// The second that a step of `seconds` from `current` leads to: never before
/// the start, and never behind the end where the duration is known.
pub open spec fn stepped(current: int, duration: int, seconds: int) -> int {
    let moved = if current + seconds < 0 {
        0
    } else if current + seconds > i64::MAX {
        i64::MAX as int
    } else {
        current + seconds
    };
    if 0 < duration < moved {
        duration
    } else {
        moved
    }
}

/// The nanosecond that a request for `requested` leads to: never before the
/// start, and never behind the end where the duration is known.
pub open spec fn clipped(requested: int, duration: int) -> int {
    let wanted = if requested < 0 {
        0
    } else {
        requested
    };
    if 0 < duration < wanted {
        duration
    } else {
        wanted
    }
}

/// A number of seconds as `minutes:seconds`, with the hours before them from
/// the first hour on.
pub open spec fn clock(seconds: nat) -> Seq<char> {
    let below_hour = padded(seconds % 3600 / 60) + ":"@ + padded(seconds % 60);
    if seconds >= 3600 {
        padded(seconds / 3600) + ":"@ + below_hour
    } else {
        below_hour
    }
}

/// The number of seconds that is shown for a position.
pub open spec fn shown_seconds(seconds: int) -> nat {
    if seconds < 0 {
        0
    } else {
        seconds as nat
    }
}

/// The position and the duration as they are shown side by side.
pub open spec fn clock_pair(position: int, duration: int) -> Seq<char> {
    clock(shown_seconds(position)) + " / "@ + clock(shown_seconds(duration))
}

/// The second to seek to for a step of `seconds` from `current`, where a
/// `duration` of zero or less is not known.
pub fn seek_target_seconds(current: i64, duration: i64, seconds: i64) -> (target: u64)
    ensures
        target == stepped(current as int, duration as int, seconds as int),
{
    let sum: i128 = current as i128 + seconds as i128;
    let mut target: i128 = if sum < 0 {
        0
    } else if sum > i64::MAX as i128 {
        i64::MAX as i128
    } else {
        sum
    };
    if duration > 0 && (duration as i128) < target {
        target = duration as i128;
    }
    target as u64
}

/// The nanosecond to seek to where the seek bar asks for `requested`, with a
/// `duration` of zero where it is not known. A target that no `u64` holds
/// wraps around.
pub fn seek_target_nanos(requested: i128, duration: u64) -> (target: u64)
    ensures
        target == clipped(requested as int, duration as int) % 0x1_0000_0000_0000_0000,
{
    let mut wanted: i128 = if requested < 0 {
        0
    } else {
        requested
    };
    if duration > 0 && (duration as i128) < wanted {
        wanted = duration as i128;
    }
    (wanted % 0x1_0000_0000_0000_0000i128) as u64
}

/// A position as it is shown: nothing before the start.
pub fn format_time(total_seconds: i64) -> (text: String)
    ensures
        text@ == clock(shown_seconds(total_seconds as int)),
{
    let total: u64 = if total_seconds < 0 {
        0
    } else {
        total_seconds as u64
    };
    let hours: u64 = total / 3600;
    let minutes: u64 = (total % 3600) / 60;
    let seconds: u64 = total % 60;
    let mut text = String::new();
    if hours > 0 {
        text.append(padded_text(hours).as_str());
        text.append(":");
    }
    text.append(padded_text(minutes).as_str());
    text.append(":");
    text.append(padded_text(seconds).as_str());
    assert(text@ =~= clock(total as nat));
    text
}

/// The position and the duration as they are shown side by side.
pub fn time_text(position: i64, duration: i64) -> (text: String)
    ensures
        text@ == clock_pair(position as int, duration as int),
{
    let mut text = format_time(position);
    text.append(" / ");
    text.append(format_time(duration).as_str());
    text
}

} // verus!
