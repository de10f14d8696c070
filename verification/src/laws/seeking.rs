//! Where seeks lead, and how times are shown.

use crate::decimal::{decimal, digit, lemma_decimal_injective, lemma_decimal_len, padded};
use crate::laws::numbers::law_padded_stands_for_its_number;
use crate::seek::{clipped, clock, clock_pair, shown_seconds, stepped, SEEK_STEP_SECONDS};
use crate::split::lemma_run_len_unique;
use vstd::prelude::*;

verus! {

/// A step never leads before the start, nor behind the end of a file whose
/// duration is known.
pub proof fn law_step_stays_in_the_file(current: int, duration: int, seconds: int)
    ensures
        0 <= stepped(current, duration, seconds),
        duration > 0 ==> stepped(current, duration, seconds) <= duration,
{
}

/// A step goes exactly as far as it says, unless it would leave the file.
pub proof fn law_step_goes_as_far_as_it_says(current: i64, duration: i64, seconds: i64)
    requires
        0 <= current + seconds <= i64::MAX,
        duration <= 0 || current + seconds <= duration,
    ensures
        stepped(current as int, duration as int, seconds as int) == current + seconds,
{
}

/// A step back and one forward by as much cancel out, unless the first
/// would leave the file.
pub proof fn law_steps_cancel_out(current: i64, duration: i64, seconds: i64)
    requires
        0 <= current,
        duration <= 0 || current <= duration,
        0 <= current + seconds <= i64::MAX,
        duration <= 0 || current + seconds <= duration,
    ensures
        stepped(
            stepped(current as int, duration as int, seconds as int),
            duration as int,
            -seconds,
        ) == current,
{
}

/// A place on the seek bar leads into the file, and to that very place if it
/// is in the file.
pub proof fn law_seek_bar_stays_in_the_file(requested: int, duration: int)
    ensures
        0 <= clipped(requested, duration),
        duration > 0 ==> clipped(requested, duration) <= duration,
        0 <= requested && (duration <= 0 || requested <= duration) ==> clipped(
            requested,
            duration,
        ) == requested,
{
}

/// Padded numbers have two digits up to ninety-nine.
proof fn lemma_padded(n: nat)
    ensures
        padded(n).len() >= 2,
        n < 100 ==> padded(n).len() == 2,
{
    lemma_decimal_len(n);
}

/// A number of two digits does not start with a zero.
proof fn lemma_two_digits(n: nat)
    requires
        10 <= n < 100,
    ensures
        decimal(n)[0] != '0',
{
    assert(decimal(n / 10) == seq![digit(n / 10)]);
    assert(decimal(n)[0] == digit(n / 10));
    assert(digit(n / 10) as u32 == 48 + n / 10);
}

/// Different numbers have different padded texts.
proof fn lemma_padded_injective(a: nat, b: nat)
    requires
        padded(a) == padded(b),
    ensures
        a == b,
{
    lemma_decimal_len(a);
    lemma_decimal_len(b);
    if a < 10 {
        assert(b < 100);
    }
    if b < 10 {
        assert(a < 100);
    }
    if a < 10 && b < 10 {
        assert(decimal(a) =~= padded(a).drop_first());
        assert(decimal(b) =~= padded(b).drop_first());
        lemma_decimal_injective(a, b);
    } else if a >= 10 && b >= 10 {
        lemma_decimal_injective(a, b);
    } else if a < 10 {
        lemma_two_digits(b);
    } else {
        lemma_two_digits(a);
    }
}

/// Different times are never shown alike.
pub proof fn law_times_are_told_apart(a: nat, b: nat)
    requires
        clock(a) == clock(b),
    ensures
        a == b,
{
    reveal_strlit(":");
    lemma_padded(a / 3600);
    lemma_padded(b / 3600);
    lemma_padded(a % 3600 / 60);
    lemma_padded(b % 3600 / 60);
    lemma_padded(a % 60);
    lemma_padded(b % 60);
    let text = clock(a);
    let n = text.len() as int;
    assert(a >= 3600 <==> n > 5);
    assert(b >= 3600 <==> n > 5);
    assert(text.subrange(n - 2, n) =~= padded(a % 60));
    assert(text.subrange(n - 2, n) =~= padded(b % 60));
    lemma_padded_injective(a % 60, b % 60);
    assert(text.subrange(n - 5, n - 3) =~= padded(a % 3600 / 60));
    assert(text.subrange(n - 5, n - 3) =~= padded(b % 3600 / 60));
    lemma_padded_injective(a % 3600 / 60, b % 3600 / 60);
    if a >= 3600 {
        assert(text.take(n - 6) =~= padded(a / 3600));
        assert(text.take(n - 6) =~= padded(b / 3600));
        lemma_padded_injective(a / 3600, b / 3600);
    }
}

/// A step that would lead before the start leads to it, and one that would
/// lead behind the end of a file whose duration is known leads there.
pub proof fn law_step_stops_at_the_ends(current: i64, duration: i64, seconds: i64)
    ensures
        current + seconds < 0 ==> stepped(current as int, duration as int, seconds as int) == 0,
        duration > 0 && current + seconds > duration ==> stepped(
            current as int,
            duration as int,
            seconds as int,
        ) == duration,
        duration <= 0 && current + seconds > i64::MAX ==> stepped(
            current as int,
            duration as int,
            seconds as int,
        ) == i64::MAX,
{
}

/// A place before the start leads to it, and one behind the end of a file
/// whose duration is known leads there.
pub proof fn law_seek_bar_stops_at_the_ends(requested: int, duration: int)
    ensures
        requested < 0 ==> clipped(requested, duration) == 0,
        0 < duration < requested ==> clipped(requested, duration) == duration,
{
}

/// A step goes ten seconds.
pub proof fn law_steps_are_ten_seconds()
    ensures
        SEEK_STEP_SECONDS == 10,
{
}

/// A time is shown as its hours, if there are any, its minutes and its
/// seconds, with colons between them.
pub proof fn law_times_show_hours_minutes_and_seconds(hours: nat, minutes: nat, seconds: nat)
    requires
        minutes < 60,
        seconds < 60,
    ensures
        ({
            let total = 3600 * hours + 60 * minutes + seconds;
            let below_hour = padded(minutes) + seq![':'] + padded(seconds);
            &&& hours == 0 ==> clock(total) == below_hour
            &&& hours > 0 ==> clock(total) == padded(hours) + seq![':'] + below_hour
        }),
{
    reveal_strlit(":");
    let total = 3600 * hours + 60 * minutes + seconds;
    assert(total / 3600 == hours);
    assert(total % 3600 / 60 == minutes);
    assert(total % 60 == seconds);
    assert(":"@ =~= seq![':']);
}

/// What is before the start is shown as the start, and anything else as what
/// it is.
pub proof fn law_times_before_the_start_are_shown_as_the_start(seconds: int)
    ensures
        seconds < 0 ==> shown_seconds(seconds) == 0,
        seconds >= 0 ==> shown_seconds(seconds) == seconds,
{
}

/// No time is shown with a space in it.
proof fn lemma_clock_holds_no_space(seconds: nat)
    ensures
        forall|i: int| 0 <= i < clock(seconds).len() ==> #[trigger] clock(seconds)[i] != ' ',
{
    reveal_strlit(":");
    law_padded_stands_for_its_number(seconds / 3600);
    law_padded_stands_for_its_number(seconds % 3600 / 60);
    law_padded_stands_for_its_number(seconds % 60);
}

/// The position is shown in front, the duration behind, a slash between them;
/// and what is shown tells both: no two positions and no two durations look
/// alike.
pub proof fn law_position_and_duration_are_both_told(
    position: nat,
    duration: nat,
    other_position: nat,
    other_duration: nat,
)
    ensures
        clock_pair(position as int, duration as int) == clock(position) + seq![' ', '/', ' ']
            + clock(duration),
        clock_pair(position as int, duration as int) == clock_pair(
            other_position as int,
            other_duration as int,
        ) ==> position == other_position && duration == other_duration,
{
    reveal_strlit(" / ");
    assert(" / "@ =~= seq![' ', '/', ' ']);
    let text = clock_pair(position as int, duration as int);
    if text == clock_pair(other_position as int, other_duration as int) {
        lemma_clock_holds_no_space(position);
        lemma_clock_holds_no_space(other_position);
        let n = clock(position).len();
        let m = clock(other_position).len();
        assert(text[n as int] == ' ' && text[m as int] == ' ');
        assert(forall|i: int| 0 <= i < n ==> text[i] == clock(position)[i]);
        assert(forall|i: int| 0 <= i < m ==> text[i] == clock(other_position)[i]);
        lemma_run_len_unique(text, ' ', n);
        lemma_run_len_unique(text, ' ', m);
        assert(clock(position) =~= text.take(n as int));
        assert(clock(other_position) =~= text.take(n as int));
        assert(clock(duration) =~= text.skip(n as int + 3));
        assert(clock(other_duration) =~= text.skip(n as int + 3));
        law_times_are_told_apart(position, other_position);
        law_times_are_told_apart(duration, other_duration);
    }
}

/// A position or a duration before the start is shown as the start.
pub proof fn law_nothing_before_the_start_is_told(position: int, duration: int)
    ensures
        position < 0 ==> clock_pair(position, duration) == clock_pair(0, duration),
        duration < 0 ==> clock_pair(position, duration) == clock_pair(position, 0),
{
}

} // verus!
