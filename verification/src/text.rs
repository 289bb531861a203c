//! Texts that are put together from parts.

use vstd::prelude::*;
use vstd::string::{StrSliceExecFns, StringExecFns};

verus! {

/// The decimal digit of a number below ten.
pub open spec fn digit(n: int) -> char {
    "0123456789"@[n]
}

/// A number in decimal digits.
pub open spec fn decimal(n: nat) -> Seq<char>
    decreases n,
{
    if n < 10 {
        seq![digit(n as int)]
    } else {
        decimal(n / 10).push(digit((n % 10) as int))
    }
}

/// Adds a number in decimal digits to the end of a text.
pub(crate) fn append_decimal(text: &mut String, n: usize)
    ensures
        final(text)@ == old(text)@ + decimal(n as nat),
    decreases n,
{
    if n >= 10 {
        append_decimal(text, n / 10);
    }
    let last: usize = n % 10;
    let ghost before = text@;
    proof {
        reveal_strlit("0123456789");
    }
    text.append("0123456789".substring_char(last, last + 1));
    assert("0123456789"@.subrange(last as int, last + 1) =~= seq![digit(last as int)]);
    assert(text@ =~= before.push(digit(last as int)));
    assert(text@ =~= old(text)@ + decimal(n as nat));
}

/// A text made of two parts.
pub(crate) fn joined(first: &str, second: &str) -> (text: String)
    ensures
        text@ == first@ + second@,
{
    let mut text = String::from_str(first);
    text.append(second);
    text
}

/// The number that a digit stands for.
pub open spec fn digit_value(c: char) -> int {
    c as int - '0' as int
}

/// The number that several decimal digits stand for.
pub open spec fn value_of(digits: Seq<char>) -> int
    decreases digits.len(),
{
    if digits.len() == 0 {
        0
    } else {
        value_of(digits.drop_last()) * 10 + digit_value(digits.last())
    }
}

/// A number in decimal digits stands for that number, is made of digits alone, and has no zero in
/// front unless it is zero.
pub proof fn decimal_stands_for_its_number(n: nat)
    ensures
        value_of(decimal(n)) == n,
        decimal(n).len() > 0,
        forall|i: int|
            0 <= i < decimal(n).len() ==> '0' <= #[trigger] decimal(n)[i] && decimal(n)[i] <= '9',
        decimal(n)[0] == '0' ==> n == 0 && decimal(n).len() == 1,
    decreases n,
{
    reveal_strlit("0123456789");
    let last = digit((n % 10) as int);
    assert(digit_value(last) == n % 10 && '0' <= last && last <= '9');
    if n < 10 {
        assert(decimal(n).drop_last() =~= Seq::<char>::empty());
        reveal_with_fuel(value_of, 2);
    } else {
        decimal_stands_for_its_number(n / 10);
        let most = decimal(n / 10);
        assert(most.push(last).drop_last() =~= most);
        assert(decimal(n)[0] == most[0]);
        assert forall|i: int| 0 <= i < decimal(n).len() implies '0' <= #[trigger] decimal(n)[i]
            && decimal(n)[i] <= '9' by {
            if i < most.len() {
                assert(decimal(n)[i] == most[i]);
            }
        }
    }
}

} // verus!
