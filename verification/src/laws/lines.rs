//! What the lines and fields of a text are.

use crate::split::{after_run, lemma_run_len_unique, run_len};
use crate::text::{field, joined, lines};
use vstd::prelude::*;

verus! {

/// A sequence is cut at its first separator: what is before it, and what is
/// behind it.
pub proof fn law_cuts_are_at_the_first_separator<T>(before: Seq<T>, sep: T, behind: Seq<T>)
    requires
        !before.contains(sep),
    ensures
        run_len(before.push(sep) + behind, sep) == before.len(),
        after_run(before.push(sep) + behind, sep) == behind,
        run_len(before, sep) == before.len(),
        after_run(before, sep) == Seq::<T>::empty(),
{
    let whole = before.push(sep) + behind;
    assert(forall|k: int| 0 <= k < before.len() ==> before.contains(#[trigger] before[k]));
    lemma_run_len_unique(whole, sep, before.len());
    lemma_run_len_unique(before, sep, before.len());
    assert(after_run(whole, sep) =~= behind);
}

/// A line ends at its line feed, or at a carriage return right before it, and
/// the lines of the rest follow. Without a line feed a text that is not empty
/// is a line as it stands.
pub proof fn law_lines_end_at_line_feeds(line: Seq<char>, rest: Seq<char>)
    requires
        !line.contains('\n'),
    ensures
        line.len() == 0 || line.last() != '\r' ==> lines(line.push('\n') + rest) == seq![line]
            + lines(rest),
        lines(line.push('\r').push('\n') + rest) == seq![line] + lines(rest),
        line.len() > 0 ==> lines(line) == seq![line],
        lines(Seq::empty()) == Seq::<Seq<char>>::empty(),
{
    let ended = line.push('\r');
    assert(!ended.contains('\n')) by {
        assert(forall|k: int| 0 <= k < line.len() ==> line.contains(#[trigger] line[k]));
    }
    law_cuts_are_at_the_first_separator(line, '\n', rest);
    law_cuts_are_at_the_first_separator(ended, '\n', rest);
    assert((line.push('\n') + rest).take(line.len() as int) =~= line);
    assert((ended.push('\n') + rest).take(ended.len() as int) =~= ended);
    assert(ended.drop_last() =~= line);
    assert(line.take(line.len() as int) =~= line);
}

/// Lines put together have a line feed between each two of them.
pub proof fn law_joined_lines_have_a_feed_between_them(
    before: Seq<Seq<char>>,
    line: Seq<char>,
)
    ensures
        joined(Seq::empty()) == Seq::<char>::empty(),
        joined(seq![line]) == line,
        before.len() > 0 ==> joined(before.push(line)) == joined(before) + seq!['\n'] + line,
{
    if before.len() > 0 {
        assert(before.push(line).drop_last() =~= before);
        assert(joined(before.push(line)) =~= joined(before) + seq!['\n'] + line);
    }
}

/// The value of a field is what follows its key, and only a line that starts
/// with the key has one.
pub proof fn law_fields_follow_their_keys(key: Seq<char>, value: Seq<char>, line: Seq<char>)
    ensures
        field(key + value, key) == Some(value),
        field(line, key) == Some(value) ==> line == key + value,
        field(line, key) is None <==> !key.is_prefix_of(line),
{
    assert((key + value).subrange(0, key.len() as int) =~= key);
    assert((key + value).skip(key.len() as int) =~= value);
    if field(line, key) == Some(value) {
        assert(line =~= line.subrange(0, key.len() as int) + line.skip(key.len() as int));
    }
}

} // verus!
