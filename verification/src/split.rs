//! Cutting a sequence at a separator.

use vstd::prelude::*;

verus! {

/// The number of leading elements of `s` before the first `sep`, or all of
/// them where `sep` does not occur.
pub open spec fn run_len<T>(s: Seq<T>, sep: T) -> nat
    decreases s.len(),
{
    if s.len() == 0 || s[0] == sep {
        0
    } else {
        1 + run_len(s.drop_first(), sep)
    }
}

/// What follows the first `sep` of `s`: empty where `sep` does not occur.
pub open spec fn after_run<T>(s: Seq<T>, sep: T) -> Seq<T> {
    let n = run_len(s, sep) as int;
    if n < s.len() {
        s.skip(n + 1)
    } else {
        Seq::empty()
    }
}

/// `run_len` stops at the first separator.
pub proof fn lemma_run_len<T>(s: Seq<T>, sep: T)
    ensures
        run_len(s, sep) <= s.len(),
        forall|i: int| 0 <= i < run_len(s, sep) ==> s[i] != sep,
        run_len(s, sep) < s.len() ==> s[run_len(s, sep) as int] == sep,
    decreases s.len(),
{
    if s.len() > 0 && s[0] != sep {
        lemma_run_len(s.drop_first(), sep);
        assert forall|i: int| 0 <= i < run_len(s, sep) implies s[i] != sep by {
            if i > 0 {
                assert(s.drop_first()[i - 1] == s[i]);
            }
        }
    }
}

/// Only one length has no separator before it and a separator, or the end,
/// right behind it.
pub proof fn lemma_run_len_unique<T>(s: Seq<T>, sep: T, n: nat)
    requires
        n <= s.len(),
        forall|i: int| 0 <= i < n ==> s[i] != sep,
        n < s.len() ==> s[n as int] == sep,
    ensures
        run_len(s, sep) == n,
{
    lemma_run_len(s, sep);
    let r = run_len(s, sep);
    if r < n {
        assert(s[r as int] == sep);
    } else if n < r {
        assert(s[n as int] == sep);
    }
}

} // verus!
