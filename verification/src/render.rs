//! Numbers as text: decimal digits, hundredths, percentages, mebibytes.

use vstd::prelude::*;
use vstd::string::StringExecFns;
use crate::quantity::{all_digits, decimal_value, digit_value, is_digit, MEBI};

verus! {

/// The character that writes a decimal digit.
pub open spec fn digit_char(d: nat) -> char
    recommends
        d < 10,
{
    if d == 0 {
        '0'
    } else if d == 1 {
        '1'
    } else if d == 2 {
        '2'
    } else if d == 3 {
        '3'
    } else if d == 4 {
        '4'
    } else if d == 5 {
        '5'
    } else if d == 6 {
        '6'
    } else if d == 7 {
        '7'
    } else if d == 8 {
        '8'
    } else {
        '9'
    }
}

/// A number in decimal digits, most significant first, without leading
/// zeros.
pub open spec fn decimal_text(n: nat) -> Seq<char>
    decreases n,
{
    if n < 10 {
        seq![digit_char(n)]
    } else {
        decimal_text(n / 10).push(digit_char(n % 10))
    }
}

/// A number of hundredths written with a decimal point and two fraction
/// digits.
pub open spec fn hundredths_text(h: nat) -> Seq<char> {
    decimal_text(h / 100) + seq!['.', digit_char((h % 100) / 10), digit_char(h % 10)]
}

/// The hundredths of a percent that `part` is of `whole`, rounded to the
/// nearest, a half upwards.
pub open spec fn percent_hundredths(part: nat, whole: nat) -> nat
    recommends
        whole > 0,
{
    (part * 10000 + whole / 2) / whole
}

/// The share that `part` is of `whole`, in percent with two fraction
/// digits. Of nothing, nothing is `NaN` and anything else is `inf`.
pub open spec fn percent_text(part: nat, whole: nat) -> Seq<char> {
    if whole > 0 {
        hundredths_text(percent_hundredths(part, whole))
    } else if part == 0 {
        "NaN"@
    } else {
        "inf"@
    }
}

/// A number of bytes in mebibytes with two fraction digits, what is left
/// of a hundredth dropped.
pub open spec fn mebibytes_text(bytes: nat) -> Seq<char> {
    hundredths_text(bytes * 100 / (MEBI as nat))
}

fn digit_str(d: u8) -> (s: &'static str)
    requires
        d < 10,
    ensures
        s@ == seq![digit_char(d as nat)],
{
    proof {
        reveal_strlit("0");
        reveal_strlit("1");
        reveal_strlit("2");
        reveal_strlit("3");
        reveal_strlit("4");
        reveal_strlit("5");
        reveal_strlit("6");
        reveal_strlit("7");
        reveal_strlit("8");
        reveal_strlit("9");
    }
    let s = if d == 0 {
        "0"
    } else if d == 1 {
        "1"
    } else if d == 2 {
        "2"
    } else if d == 3 {
        "3"
    } else if d == 4 {
        "4"
    } else if d == 5 {
        "5"
    } else if d == 6 {
        "6"
    } else if d == 7 {
        "7"
    } else if d == 8 {
        "8"
    } else {
        "9"
    };
    assert(s@ =~= seq![digit_char(d as nat)]);
    s
}

/// Appends a number in decimal digits.
pub fn append_decimal(out: &mut String, n: u128)
    ensures
        final(out)@ == old(out)@ + decimal_text(n as nat),
    decreases n,
{
    if n >= 10 {
        append_decimal(out, n / 10);
    }
    out.append(digit_str((n % 10) as u8));
    assert(out@ =~= old(out)@ + decimal_text(n as nat));
}

/// Appends a number of hundredths with two fraction digits.
pub fn append_hundredths(out: &mut String, h: u128)
    ensures
        final(out)@ == old(out)@ + hundredths_text(h as nat),
{
    append_decimal(out, h / 100);
    proof {
        reveal_strlit(".");
    }
    out.append(".");
    out.append(digit_str(((h % 100) / 10) as u8));
    out.append(digit_str((h % 10) as u8));
    assert(out@ =~= old(out)@ + hundredths_text(h as nat));
}

/// Appends the share that `part` is of `whole`.
pub fn append_percent(out: &mut String, part: u64, whole: u64)
    ensures
        final(out)@ == old(out)@ + percent_text(part as nat, whole as nat),
{
    if whole > 0 {
        let h: u128 = (part as u128 * 10000 + (whole / 2) as u128) / (whole as u128);
        append_hundredths(out, h);
    } else if part == 0 {
        out.append("NaN");
    } else {
        out.append("inf");
    }
}

/// Appends a number of bytes in mebibytes.
pub fn append_mebibytes(out: &mut String, bytes: u64)
    ensures
        final(out)@ == old(out)@ + mebibytes_text(bytes as nat),
{
    append_hundredths(out, bytes as u128 * 100 / (MEBI as u128));
}

/// What is written is what is read: the decimal text of a number is a run
/// of digits whose value is the number.
pub proof fn lemma_decimal_text_reads_back(n: nat)
    ensures
        decimal_text(n).len() > 0,
        all_digits(decimal_text(n)),
        decimal_value(decimal_text(n)) == n,
    decreases n,
{
    if n < 10 {
        let s = seq![digit_char(n)];
        assert(s.drop_last() == Seq::<char>::empty());
        assert(decimal_value(s.drop_last()) == 0);
        assert(digit_value(digit_char(n)) == n);
    } else {
        lemma_decimal_text_reads_back(n / 10);
        let head = decimal_text(n / 10);
        let s = head.push(digit_char(n % 10));
        assert(s.drop_last() == head);
        assert(is_digit(digit_char(n % 10)));
        assert(digit_value(digit_char(n % 10)) == n % 10);
        assert forall|i: int| 0 <= i < s.len() implies is_digit(#[trigger] s[i]) by {
            if i < head.len() {
                assert(s[i] == head[i]);
            }
        }
    }
}

} // verus!
