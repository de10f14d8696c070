//! Lines and fields of a text.

use crate::split::{after_run, lemma_run_len, lemma_run_len_unique, run_len};
use vstd::prelude::*;

verus! {

/// A line as it stands before its line feed: a carriage return right before
/// the line feed belongs to the line ending.
pub open spec fn without_return(line: Seq<char>) -> Seq<char> {
    if line.len() > 0 && line.last() == '\r' {
        line.drop_last()
    } else {
        line
    }
}

/// The lines of a text. A line feed ends a line, alone or behind a carriage
/// return; what follows the last line feed is a line if it is not empty.
pub open spec fn lines(text: Seq<char>) -> Seq<Seq<char>>
    decreases text.len(),
{
    if text.len() == 0 {
        Seq::empty()
    } else {
        let line = text.take(run_len(text, '\n') as int);
        if line.len() < text.len() {
            seq![without_return(line)] + lines(after_run(text, '\n'))
        } else {
            seq![line]
        }
    }
}

/// Lines put together with a line feed between each two of them.
pub open spec fn joined(lines: Seq<Seq<char>>) -> Seq<char>
    decreases lines.len(),
{
    if lines.len() == 0 {
        Seq::empty()
    } else if lines.len() == 1 {
        lines[0]
    } else {
        joined(lines.drop_last()).push('\n') + lines.last()
    }
}

/// What follows `key` in a line that starts with it.
pub open spec fn field(line: Seq<char>, key: Seq<char>) -> Option<Seq<char>> {
    if key.is_prefix_of(line) {
        Some(line.skip(key.len() as int))
    } else {
        None
    }
}

/// Lines put together start with the first of them.
pub proof fn lemma_joined_front(lines: Seq<Seq<char>>)
    requires
        lines.len() >= 2,
    ensures
        joined(lines) == lines[0].push('\n') + joined(lines.drop_first()),
    decreases lines.len(),
{
    let front = lines.drop_last();
    let back = lines.drop_first();
    if lines.len() == 2 {
        assert(joined(front) == lines[0]);
        assert(joined(back) == lines[1]);
    } else {
        lemma_joined_front(front);
        assert(front.drop_first() =~= back.drop_last());
        assert(joined(lines) =~= lines[0].push('\n') + joined(back));
    }
}

/// Lines as they come back once they were put together: all but the last
/// lose a carriage return at their end.
pub open spec fn reread(parts: Seq<Seq<char>>) -> Seq<Seq<char>> {
    Seq::new(
        parts.len(),
        |i: int|
            if i < parts.len() - 1 {
                without_return(parts[i])
            } else {
                parts[i]
            },
    )
}

/// Lines put together come apart again, if none of them holds a line feed and
/// the last is not empty.
pub proof fn lemma_lines_joined(parts: Seq<Seq<char>>)
    requires
        parts.len() > 0,
        forall|i: int| 0 <= i < parts.len() ==> !(#[trigger] parts[i]).contains('\n'),
        parts.last().len() > 0,
    ensures
        lines(joined(parts)) == reread(parts),
    decreases parts.len(),
{
    let text = joined(parts);
    let first = parts[0];
    assert(forall|k: int| 0 <= k < first.len() ==> first.contains(#[trigger] first[k]));
    if parts.len() == 1 {
        lemma_run_len_unique(text, '\n', first.len());
        assert(text.take(first.len() as int) =~= text);
        assert(lines(text) =~= reread(parts));
    } else {
        let rest = parts.drop_first();
        lemma_joined_front(parts);
        lemma_lines_joined(rest);
        lemma_run_len_unique(text, '\n', first.len());
        assert(text.take(first.len() as int) =~= first);
        assert(after_run(text, '\n') =~= joined(rest));
        assert(lines(text) =~= reread(parts));
    }
}

/// No line of a text holds a line feed.
pub proof fn lemma_lines_hold_no_feed(text: Seq<char>)
    ensures
        forall|i: int| 0 <= i < lines(text).len() ==> !(#[trigger] lines(text)[i]).contains('\n'),
    decreases text.len(),
{
    if text.len() > 0 {
        let line = text.take(run_len(text, '\n') as int);
        lemma_run_len(text, '\n');
        lemma_lines_hold_no_feed(after_run(text, '\n'));
        assert(!line.contains('\n'));
        assert(!without_return(line).contains('\n'));
        let rest = lines(after_run(text, '\n'));
        assert forall|i: int| 0 <= i < lines(text).len() implies !(#[trigger] lines(
            text,
        )[i]).contains('\n') by {
            if i > 0 {
                assert(lines(text)[i] == rest[i - 1]);
            }
        }
    }
}

/// The characters of `text`.
pub fn chars_of(text: &str) -> (chars: Vec<char>)
    ensures
        chars@ == text@,
{
    let mut chars: Vec<char> = Vec::new();
    for c in it: text.chars()
        invariant
            it.seq() == text@,
            chars@ == text@.take(it.index() as int),
    {
        chars.push(c);
    }
    assert(text@.take(text@.len() as int) =~= text@);
    chars
}

/// Where the line that starts at `start` ends, and where the next one starts.
pub fn next_line(chars: &Vec<char>, start: usize) -> (found: (usize, usize))
    requires
        start < chars@.len(),
    ensures
        start <= found.0 <= found.1 <= chars@.len(),
        start < found.1,
        lines(chars@.skip(start as int)) == seq![chars@.subrange(start as int, found.0 as int)]
            + lines(chars@.skip(found.1 as int)),
{
    let ghost left = chars@.skip(start as int);
    let mut end: usize = start;
    while end < chars.len() && chars[end] != '\n'
        invariant
            start <= end <= chars@.len(),
            forall|k: int| start <= k < end ==> chars@[k] != '\n',
        decreases chars@.len() - end,
    {
        end = end + 1;
    }
    proof {
        lemma_run_len_unique(left, '\n', (end - start) as nat);
        assert(left.take(end - start) =~= chars@.subrange(start as int, end as int));
    }
    if end == chars.len() {
        assert(lines(chars@.skip(end as int)) =~= Seq::empty());
        assert(lines(left) =~= seq![chars@.subrange(start as int, end as int)] + lines(
            chars@.skip(end as int),
        ));
        return (end, end);
    }
    assert(chars@.skip(end + 1) =~= after_run(left, '\n'));
    if end > start && chars[end - 1] == '\r' {
        assert(chars@.subrange(start as int, end as int).drop_last() =~= chars@.subrange(
            start as int,
            end - 1,
        ));
        (end - 1, end + 1)
    } else {
        (end, end + 1)
    }
}

/// Where the value starts in the line `chars[from..to]`, if `key` stands
/// before it.
pub fn field_start(chars: &Vec<char>, from: usize, to: usize, key: &str) -> (start: Option<usize>)
    requires
        from <= to <= chars@.len(),
    ensures
        match start {
            Some(at) => from <= at <= to && field(
                chars@.subrange(from as int, to as int),
                key@,
            ) == Some(chars@.subrange(at as int, to as int)),
            None => field(chars@.subrange(from as int, to as int), key@) is None,
        },
{
    let wanted = chars_of(key);
    let ghost line = chars@.subrange(from as int, to as int);
    if wanted.len() > to - from {
        return None;
    }
    let mut i: usize = 0;
    while i < wanted.len()
        invariant
            wanted@ == key@,
            from <= to <= chars@.len(),
            line == chars@.subrange(from as int, to as int),
            i <= wanted@.len() <= to - from,
            forall|k: int| 0 <= k < i ==> wanted@[k] == line[k],
        decreases wanted@.len() - i,
    {
        if wanted[i] != chars[from + i] {
            assert(wanted@[i as int] != line[i as int]);
            assert(!key@.is_prefix_of(line)) by {
                if key@.is_prefix_of(line) {
                    assert(line.subrange(0, key@.len() as int)[i as int] == line[i as int]);
                }
            }
            return None;
        }
        i = i + 1;
    }
    assert(key@ =~= line.subrange(0, key@.len() as int));
    assert(line.skip(key@.len() as int) =~= chars@.subrange(from + i, to as int));
    Some(from + i)
}

} // verus!
