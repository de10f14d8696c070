//! What the text of a number says.

use crate::decimal::{decimal, digit, lemma_decimal_len, padded};
use vstd::prelude::*;

verus! {

/// The number that a text of decimal digits stands for.
pub open spec fn number_of(text: Seq<char>) -> int
    decreases text.len(),
{
    if text.len() == 0 {
        0
    } else {
        10 * number_of(text.drop_last()) + (text.last() as int - '0' as int)
    }
}

/// Whether a text is made of decimal digits.
pub open spec fn all_digits(text: Seq<char>) -> bool {
    forall|i: int| 0 <= i < text.len() ==> '0' as int <= #[trigger] text[i] as int <= '9' as int
}

/// The text of a number is made of digits, stands for the number, and starts
/// with a zero only if it is nothing else.
pub proof fn law_decimal_stands_for_its_number(n: nat)
    ensures
        all_digits(decimal(n)),
        decimal(n).len() > 0,
        number_of(decimal(n)) == n,
        decimal(n)[0] == '0' ==> decimal(n).len() == 1,
    decreases n,
{
    let text = decimal(n);
    assert(digit(n % 10) as int == 48 + n % 10);
    if n >= 10 {
        law_decimal_stands_for_its_number(n / 10);
        assert(text.drop_last() =~= decimal(n / 10));
        assert(text[0] == decimal(n / 10)[0]);
        if text[0] == '0' {
            assert(decimal(n / 10).len() == 1);
            assert(n / 10 < 10) by {
                lemma_decimal_len(n / 10);
            }
            assert(decimal(n / 10) == seq![digit(n / 10)]);
            assert(digit(n / 10) as int == 48 + n / 10);
        }
    } else {
        assert(digit(n) as int == 48 + n);
        assert(text.drop_last().len() == 0);
        assert(number_of(text.drop_last()) == 0);
    }
}

/// The padded text of a number is made of at least two digits, stands for the
/// number, and is longer than that only where it does not start with a zero.
pub proof fn law_padded_stands_for_its_number(n: nat)
    ensures
        all_digits(padded(n)),
        padded(n).len() >= 2,
        number_of(padded(n)) == n,
        padded(n)[0] == '0' ==> padded(n).len() == 2,
{
    law_decimal_stands_for_its_number(n);
    lemma_decimal_len(n);
    if n < 10 {
        let text = padded(n);
        assert(digit(n) as int == 48 + n);
        assert(text.drop_last() =~= seq!['0']);
        assert(seq!['0'].drop_last().len() == 0);
        assert(number_of(seq!['0'].drop_last()) == 0);
        assert(number_of(seq!['0']) == 0);
    }
}

} // verus!
