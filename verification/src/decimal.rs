//! Decimal notation of unsigned integers.

use crate::text::{is_line_break, lemma_unbroken_concat, unbroken};
use vstd::prelude::*;
use vstd::string::StringExecFns;

verus! {

/// The character of a single decimal digit.
pub open spec fn digit_char(d: nat) -> char
    recommends
        d < 10,
{
    if d == 0 {
        '0'
    } else if d == 1 {
        '1'
    } else if d == 2 {
        '2'
    } else if d == 3 {
        '3'
    } else if d == 4 {
        '4'
    } else if d == 5 {
        '5'
    } else if d == 6 {
        '6'
    } else if d == 7 {
        '7'
    } else if d == 8 {
        '8'
    } else {
        '9'
    }
}

/// The decimal notation of `n`, without leading zeros; `0` is written "0".
pub open spec fn decimal(n: nat) -> Seq<char>
    decreases n,
{
    if n < 10 {
        seq![digit_char(n)]
    } else {
        decimal(n / 10).push(digit_char(n % 10))
    }
}

/// The last `width` decimal digits of `n`, with leading zeros.
pub open spec fn decimal_padded(n: nat, width: nat) -> Seq<char>
    decreases width,
{
    if width == 0 {
        Seq::empty()
    } else {
        decimal_padded(n / 10, (width - 1) as nat).push(digit_char(n % 10))
    }
}

/// No digit is a line break.
pub proof fn lemma_digit_no_line_break(d: nat)
    ensures
        !is_line_break(digit_char(d)),
{
}

/// The decimal notation of a number holds no line break.
pub proof fn lemma_decimal_unbroken(n: nat)
    ensures
        unbroken(decimal(n)),
    decreases n,
{
    if n >= 10 {
        lemma_decimal_unbroken(n / 10);
        lemma_digit_no_line_break(n % 10);
        assert(unbroken(seq![digit_char(n % 10)]));
        lemma_unbroken_concat(decimal(n / 10), seq![digit_char(n % 10)]);
        assert(decimal(n) =~= decimal(n / 10) + seq![digit_char(n % 10)]);
    } else {
        lemma_digit_no_line_break(n);
    }
}

/// Padded decimal notation holds no line break.
pub proof fn lemma_decimal_padded_unbroken(n: nat, width: nat)
    ensures
        unbroken(decimal_padded(n, width)),
    decreases width,
{
    if width > 0 {
        lemma_decimal_padded_unbroken(n / 10, (width - 1) as nat);
        lemma_digit_no_line_break(n % 10);
        assert(unbroken(seq![digit_char(n % 10)]));
        lemma_unbroken_concat(
            decimal_padded(n / 10, (width - 1) as nat),
            seq![digit_char(n % 10)],
        );
        assert(decimal_padded(n, width) =~= decimal_padded(n / 10, (width - 1) as nat)
            + seq![digit_char(n % 10)]);
    }
}

/// The one-character text of a decimal digit.
pub fn digit_str(d: u8) -> (out: &'static str)
    requires
        d < 10,
    ensures
        out@ == seq![digit_char(d as nat)],
{
    proof {
        reveal_strlit("0");
        reveal_strlit("1");
        reveal_strlit("2");
        reveal_strlit("3");
        reveal_strlit("4");
        reveal_strlit("5");
        reveal_strlit("6");
        reveal_strlit("7");
        reveal_strlit("8");
        reveal_strlit("9");
    }
    let out = if d == 0 {
        "0"
    } else if d == 1 {
        "1"
    } else if d == 2 {
        "2"
    } else if d == 3 {
        "3"
    } else if d == 4 {
        "4"
    } else if d == 5 {
        "5"
    } else if d == 6 {
        "6"
    } else if d == 7 {
        "7"
    } else if d == 8 {
        "8"
    } else {
        "9"
    };
    assert(out@ =~= seq![digit_char(d as nat)]);
    out
}

/// Appends the decimal notation of `n` to `out`.
pub fn push_decimal(out: &mut String, n: u128)
    ensures
        final(out)@ == old(out)@ + decimal(n as nat),
    decreases n,
{
    if n >= 10 {
        push_decimal(out, n / 10);
    }
    let d: u8 = (n % 10) as u8;
    out.append(digit_str(d));
    proof {
        if n >= 10 {
            assert(final(out)@ =~= old(out)@ + decimal(n as nat));
        } else {
            assert(final(out)@ =~= old(out)@ + decimal(n as nat));
        }
    }
}

/// Appends the last `width` decimal digits of `n` to `out`, with leading
/// zeros.
pub fn push_decimal_padded(out: &mut String, n: u128, width: u8)
    ensures
        final(out)@ == old(out)@ + decimal_padded(n as nat, width as nat),
    decreases width,
{
    if width > 0 {
        push_decimal_padded(out, n / 10, width - 1);
        let d: u8 = (n % 10) as u8;
        out.append(digit_str(d));
        assert(final(out)@ =~= old(out)@ + decimal_padded(n as nat, width as nat));
    } else {
        assert(final(out)@ =~= old(out)@ + decimal_padded(n as nat, width as nat));
    }
}

/// The decimal notation of `n`.
pub fn to_decimal(n: u128) -> (out: String)
    ensures
        out@ == decimal(n as nat),
{
    let mut out = String::new();
    push_decimal(&mut out, n);
    assert(out@ =~= decimal(n as nat));
    out
}

} // verus!
