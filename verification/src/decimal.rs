//! Whole numbers in decimal notation.

use vstd::prelude::*;

verus! {

/// The character of a digit.
pub open spec fn digit(d: int) -> char {
    if d == 0 {
        '0'
    } else if d == 1 {
        '1'
    } else if d == 2 {
        '2'
    } else if d == 3 {
        '3'
    } else if d == 4 {
        '4'
    } else if d == 5 {
        '5'
    } else if d == 6 {
        '6'
    } else if d == 7 {
        '7'
    } else if d == 8 {
        '8'
    } else {
        '9'
    }
}

/// The digits of `n`, most significant first, without leading zeros.
pub open spec fn digits(n: nat) -> Seq<char>
    decreases n,
{
    if n < 10 {
        seq![digit(n as int)]
    } else {
        digits(n / 10).push(digit((n % 10) as int))
    }
}

/// `n` in decimal notation: a minus sign if it is negative, then its digits.
pub open spec fn decimal(n: int) -> Seq<char> {
    if n < 0 {
        seq!['-'] + digits((-n) as nat)
    } else {
        digits(n as nat)
    }
}

/// The character of the digit `d`.
fn digit_char(d: u64) -> (c: char)
    requires
        d < 10,
    ensures
        c == digit(d as int),
{
    if d == 0 {
        '0'
    } else if d == 1 {
        '1'
    } else if d == 2 {
        '2'
    } else if d == 3 {
        '3'
    } else if d == 4 {
        '4'
    } else if d == 5 {
        '5'
    } else if d == 6 {
        '6'
    } else if d == 7 {
        '7'
    } else if d == 8 {
        '8'
    } else {
        '9'
    }
}

/// `n` in decimal notation.
pub fn to_decimal(n: i64) -> (text: String)
    ensures
        text@ == decimal(n as int),
{
    let magnitude: u64 = if n < 0 {
        (-(n + 1)) as u64 + 1
    } else {
        n as u64
    };
    let mut low_first: Vec<char> = Vec::new();
    low_first.push(digit_char(magnitude % 10));
    let mut rest: u64 = magnitude / 10;
    assert(digits(magnitude as nat) =~= if rest > 0 {
        digits(rest as nat)
    } else {
        Seq::<char>::empty()
    } + low_first@.reverse());
    while rest > 0
        invariant
            low_first@.len() > 0,
            digits(magnitude as nat) == if rest > 0 {
                digits(rest as nat)
            } else {
                Seq::<char>::empty()
            } + low_first@.reverse(),
        decreases rest,
    {
        let ghost before = low_first@;
        let ghost d = digit((rest % 10) as int);
        low_first.push(digit_char(rest % 10));
        assert(low_first@.reverse() =~= seq![d] + before.reverse());
        let ghost was = rest;
        rest = rest / 10;
        assert(digits(was as nat) + before.reverse() =~= if rest > 0 {
            digits(rest as nat)
        } else {
            Seq::<char>::empty()
        } + low_first@.reverse());
    }
    let mut text = String::new();
    if n < 0 {
        text.push('-');
    }
    let ghost sign = text@;
    let mut i: usize = low_first.len();
    assert(text@ =~= sign + low_first@.reverse().take(0));
    while i > 0
        invariant
            i <= low_first.len(),
            low_first@.len() > 0,
            text@ == sign + low_first@.reverse().take(low_first.len() - i),
        decreases i,
    {
        i = i - 1;
        text.push(low_first[i]);
        assert(text@ =~= sign + low_first@.reverse().take(low_first.len() - i));
    }
    assert(low_first@.reverse().take(low_first.len() as int) =~= low_first@.reverse());
    assert(text@ =~= decimal(n as int));
    text
}

} // verus!
