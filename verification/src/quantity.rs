//! Resource quantities: the text in which a cluster writes amounts of CPU,
//! memory and storage, and its value in millicores and bytes.

use vstd::prelude::*;
use crate::text::{contains_char, to_chars};

verus! {

/// Why a quantity string was rejected.
#[derive(Debug, Clone, Copy, PartialEq, Eq, Structural)]
pub enum InvalidQuantity {
    /// The text is not a number in the accepted grammar.
    Malformed,
    /// The text is a number, but one that the integer types here cannot hold.
    OutOfRange,
}

/// Whether a character is an ASCII decimal digit.
pub open spec fn is_digit(c: char) -> bool {
    '0' <= c && c <= '9'
}

/// The value of an ASCII decimal digit.
pub open spec fn digit_value(c: char) -> nat
    recommends
        is_digit(c),
{
    (c as u32 - '0' as u32) as nat
}

/// Whether a text holds decimal digits and nothing else.
pub open spec fn all_digits(s: Seq<char>) -> bool {
    forall|i: int| 0 <= i < s.len() ==> is_digit(#[trigger] s[i])
}

/// The number that a string of decimal digits writes, most significant first.
pub open spec fn decimal_value(s: Seq<char>) -> nat
    decreases s.len(),
{
    if s.len() == 0 {
        0
    } else {
        decimal_value(s.drop_last()) * 10 + digit_value(s.last())
    }
}

/// The digits of an unsigned literal: the text after an optional leading `+`.
pub open spec fn literal_digits(s: Seq<char>) -> Seq<char> {
    if s.len() > 0 && s[0] == '+' {
        s.skip(1)
    } else {
        s
    }
}

/// An unsigned literal is an optional `+` followed by one or more decimal
/// digits; its value is the number the digits write.
pub open spec fn unsigned_literal(s: Seq<char>) -> Option<nat> {
    let digits = literal_digits(s);
    if digits.len() > 0 && all_digits(digits) {
        Some(decimal_value(digits))
    } else {
        None
    }
}

/// What reading a run of decimal digits into 64 bits gives: the value, or
/// the reason there is none.
pub open spec fn digits_outcome(s: Seq<char>) -> Result<u64, InvalidQuantity> {
    if s.len() > 0 && all_digits(s) {
        if decimal_value(s) <= u64::MAX {
            Ok(decimal_value(s) as u64)
        } else {
            Err(InvalidQuantity::OutOfRange)
        }
    } else {
        Err(InvalidQuantity::Malformed)
    }
}

/// What parsing an unsigned literal into 64 bits gives.
pub open spec fn unsigned_outcome(s: Seq<char>) -> Result<u64, InvalidQuantity> {
    match unsigned_literal(s) {
        None => Err(InvalidQuantity::Malformed),
        Some(n) => if n <= u64::MAX {
            Ok(n as u64)
        } else {
            Err(InvalidQuantity::OutOfRange)
        },
    }
}

/// Appending a digit multiplies the value by ten and adds the digit.
pub proof fn lemma_decimal_value_push(s: Seq<char>, c: char)
    ensures
        decimal_value(s.push(c)) == decimal_value(s) * 10 + digit_value(c),
{
    assert(s.push(c).drop_last() == s);
}

/// Reads the run of decimal digits `v[from..to)`.
pub(crate) fn parse_digits(v: &Vec<char>, from: usize, to: usize) -> (r: Result<u64, InvalidQuantity>)
    requires
        from <= to <= v.len(),
    ensures
        r == digits_outcome(v@.subrange(from as int, to as int)),
{
    let ghost digits = v@.subrange(from as int, to as int);
    if from == to {
        return Err(InvalidQuantity::Malformed);
    }
    let mut acc: u64 = 0;
    let mut overflow = false;
    let mut i = from;
    assert(digits.take(0) == Seq::<char>::empty());
    while i < to
        invariant
            from <= i <= to <= v.len(),
            digits == v@.subrange(from as int, to as int),
            all_digits(digits.take(i - from)),
            !overflow ==> acc == decimal_value(digits.take(i - from)),
            overflow ==> decimal_value(digits.take(i - from)) > u64::MAX,
        decreases to - i,
    {
        let c = v[i];
        let ghost k = i - from;
        assert(digits[k] == c);
        if !('0' <= c && c <= '9') {
            assert(!is_digit(digits[k]));
            return Err(InvalidQuantity::Malformed);
        }
        let d: u64 = (c as u32 - '0' as u32) as u64;
        proof {
            assert(digits.take(k + 1) == digits.take(k).push(c));
            lemma_decimal_value_push(digits.take(k), c);
        }
        if !overflow {
            if acc > (u64::MAX - d) / 10 {
                overflow = true;
            } else {
                acc = acc * 10 + d;
            }
        }
        i += 1;
    }
    assert(digits.take(digits.len() as int) == digits);
    if overflow {
        Err(InvalidQuantity::OutOfRange)
    } else {
        Ok(acc)
    }
}

/// Parses the unsigned literal written in `v[from..to)`.
pub(crate) fn parse_unsigned(v: &Vec<char>, from: usize, to: usize) -> (r: Result<u64, InvalidQuantity>)
    requires
        from <= to <= v.len(),
    ensures
        r == unsigned_outcome(v@.subrange(from as int, to as int)),
{
    let start: usize = if from < to && v[from] == '+' { from + 1 } else { from };
    assert(literal_digits(v@.subrange(from as int, to as int)) == v@.subrange(
        start as int,
        to as int,
    ));
    parse_digits(v, start, to)
}

/// Whether a character is anything but the decimal point.
pub open spec fn not_point(c: char) -> bool {
    c != '.'
}

/// The text with every decimal point taken out.
pub open spec fn without_points(s: Seq<char>) -> Seq<char> {
    s.filter(|c: char| not_point(c))
}

/// Copies the characters of `v[from..to)` that are not a decimal point.
pub(crate) fn strip_points(v: &Vec<char>, from: usize, to: usize) -> (out: Vec<char>)
    requires
        from <= to <= v.len(),
    ensures
        out@ == without_points(v@.subrange(from as int, to as int)),
{
    let mut out: Vec<char> = Vec::new();
    let mut i = from;
    let ghost s = v@.subrange(from as int, to as int);
    assert(s.take(0) == Seq::<char>::empty());
    while i < to
        invariant
            from <= i <= to <= v.len(),
            s == v@.subrange(from as int, to as int),
            out@ == without_points(s.take(i - from)),
        decreases to - i,
    {
        let c = v[i];
        proof {
            let k = i - from;
            assert(s.take(k + 1).drop_last() == s.take(k));
            assert(s.take(k + 1).last() == c);
            reveal(Seq::filter);
        }
        if c != '.' {
            out.push(c);
        }
        i += 1;
    }
    assert(s.take(s.len() as int) == s);
    out
}

/// Bytes in one unit of each binary suffix.
pub const KIBI: u64 = 1_024;

pub const MEBI: u64 = 1_048_576;

pub const GIBI: u64 = 1_073_741_824;

pub const TEBI: u64 = 1_099_511_627_776;

/// Bytes in one unit of each decimal suffix.
pub const KILO: u64 = 1_000;

pub const MEGA: u64 = 1_000_000;

pub const GIGA: u64 = 1_000_000_000;

pub const TERA: u64 = 1_000_000_000_000;

/// The most fraction digits a capacity may carry: ten to this power is the
/// largest power of ten that 64 bits hold.
pub const MAX_FRACTION_DIGITS: usize = 19;

/// The unit suffix that ends a capacity text: how many characters it takes
/// and how many bytes one unit is. `Ki`, `Mi`, `Gi`, `Ti` are powers of 1024;
/// `k`, `K`, `M`, `G`, `T` are powers of 1000; a text with none of these
/// counts bytes.
pub open spec fn capacity_suffix(s: Seq<char>) -> (nat, nat) {
    let n = s.len() as int;
    if n >= 2 && s[n - 1] == 'i' && s[n - 2] == 'K' {
        (2, KIBI as nat)
    } else if n >= 2 && s[n - 1] == 'i' && s[n - 2] == 'M' {
        (2, MEBI as nat)
    } else if n >= 2 && s[n - 1] == 'i' && s[n - 2] == 'G' {
        (2, GIBI as nat)
    } else if n >= 2 && s[n - 1] == 'i' && s[n - 2] == 'T' {
        (2, TEBI as nat)
    } else if n >= 1 && (s[n - 1] == 'k' || s[n - 1] == 'K') {
        (1, KILO as nat)
    } else if n >= 1 && s[n - 1] == 'M' {
        (1, MEGA as nat)
    } else if n >= 1 && s[n - 1] == 'G' {
        (1, GIGA as nat)
    } else if n >= 1 && s[n - 1] == 'T' {
        (1, TERA as nat)
    } else {
        (0, 1)
    }
}

/// How many characters follow the last decimal point of `s`; all of them
/// where there is no point.
pub open spec fn after_last_point(s: Seq<char>) -> nat
    decreases s.len(),
{
    if s.len() == 0 || s.last() == '.' {
        0
    } else {
        1 + after_last_point(s.drop_last())
    }
}

/// The number of fraction digits of a decimal number: the characters after
/// its point, none where it has no point.
pub open spec fn fraction_digits(s: Seq<char>) -> nat {
    if s.contains('.') {
        after_last_point(s)
    } else {
        0
    }
}

/// Ten to the power `e`.
pub open spec fn pow10(e: nat) -> nat
    decreases e,
{
    if e == 0 {
        1
    } else {
        10 * pow10((e - 1) as nat)
    }
}

/// The number inside a capacity text, between an optional leading `+` and
/// the unit suffix.
pub open spec fn capacity_number(s: Seq<char>) -> Seq<char> {
    literal_digits(s.take(s.len() - capacity_suffix(s).0))
}

/// Whether a capacity text is well formed: its number has at least one
/// digit, at most one decimal point, and nothing else.
pub open spec fn capacity_well_formed(s: Seq<char>) -> bool {
    let number = capacity_number(s);
    let digits = without_points(number);
    digits.len() > 0 && all_digits(digits) && number.len() - digits.len() <= 1
}

/// The bytes that a well-formed capacity text stands for, a fraction of a
/// byte dropped.
pub open spec fn capacity_bytes(s: Seq<char>) -> nat {
    let number = capacity_number(s);
    decimal_value(without_points(number)) * capacity_suffix(s).1 / pow10(fraction_digits(number))
}

/// Whether the parser can hold a well-formed capacity: its digits read as
/// one integer fit 64 bits, it has no more than `MAX_FRACTION_DIGITS`
/// fraction digits, and its bytes fit 64 bits.
pub open spec fn capacity_representable(s: Seq<char>) -> bool {
    let number = capacity_number(s);
    &&& decimal_value(without_points(number)) <= u64::MAX
    &&& fraction_digits(number) <= MAX_FRACTION_DIGITS
    &&& capacity_bytes(s) <= u64::MAX
}

/// Finds the unit suffix of a capacity text.
pub(crate) fn read_capacity_suffix(v: &Vec<char>) -> (r: (usize, u64))
    ensures
        (r.0 as nat, r.1 as nat) == capacity_suffix(v@),
        r.0 <= v.len(),
        1 <= r.1 <= TEBI,
{
    let n = v.len();
    if n >= 2 && v[n - 1] == 'i' {
        let c = v[n - 2];
        if c == 'K' {
            return (2, KIBI);
        } else if c == 'M' {
            return (2, MEBI);
        } else if c == 'G' {
            return (2, GIBI);
        } else if c == 'T' {
            return (2, TEBI);
        }
    }
    if n >= 1 {
        let c = v[n - 1];
        if c == 'k' || c == 'K' {
            return (1, KILO);
        } else if c == 'M' {
            return (1, MEGA);
        } else if c == 'G' {
            return (1, GIGA);
        } else if c == 'T' {
            return (1, TERA);
        }
    }
    (0, 1)
}

/// Counts the fraction digits of the number in `v[from..to)`.
pub(crate) fn count_fraction_digits(v: &Vec<char>, from: usize, to: usize) -> (f: usize)
    requires
        from <= to <= v.len(),
    ensures
        f == fraction_digits(v@.subrange(from as int, to as int)),
        f <= to - from,
{
    let ghost s = v@.subrange(from as int, to as int);
    if !contains_char(v, from, to, '.') {
        return 0;
    }
    let mut i = to;
    assert(s.take(s.len() as int) == s);
    while i > from && v[i - 1] != '.'
        invariant
            from <= i <= to <= v.len(),
            s == v@.subrange(from as int, to as int),
            after_last_point(s) == after_last_point(s.take(i - from)) + (to - i),
        decreases i,
    {
        proof {
            let k = i - from;
            assert(s.take(k).drop_last() == s.take(k - 1));
            assert(s.take(k).last() == v[i - 1]);
        }
        i -= 1;
    }
    proof {
        let k = i - from;
        if k > 0 {
            assert(s.take(k).last() == '.');
        }
    }
    to - i
}

/// Ten to the power `e`.
pub(crate) fn pow10_u64(e: usize) -> (p: u64)
    requires
        e <= MAX_FRACTION_DIGITS,
    ensures
        p == pow10(e as nat),
        p >= 1,
{
    let mut p: u64 = 1;
    let mut i: usize = 0;
    proof {
        lemma_pow10_monotone(0, 19);
    }
    while i < e
        invariant
            i <= e <= MAX_FRACTION_DIGITS,
            p == pow10(i as nat),
            1 <= p,
            p <= pow10(19),
        decreases e - i,
    {
        proof {
            lemma_pow10_monotone((i + 1) as nat, 19);
            reveal_with_fuel(pow10, 20);
        }
        p = p * 10;
        i += 1;
    }
    p
}

/// Powers of ten grow with the exponent.
pub proof fn lemma_pow10_monotone(a: nat, b: nat)
    requires
        a <= b,
    ensures
        1 <= pow10(a) <= pow10(b),
    decreases b,
{
    if b == 0 {
    } else if a == b {
        lemma_pow10_monotone((a - 1) as nat, (b - 1) as nat);
    } else {
        lemma_pow10_monotone(a, (b - 1) as nat);
    }
}

/// The literal inside a CPU quantity and the millicores that one unit of
/// it stands for. `500m` counts millicores; a text with a decimal point
/// counts tenths of a core, the point dropped; any other text counts cores.
pub open spec fn cpu_literal(s: Seq<char>) -> (Seq<char>, nat) {
    if s.len() > 0 && s.last() == 'm' {
        (s.drop_last(), 1)
    } else if s.contains('.') {
        (without_points(s), 100)
    } else {
        (s, 1000)
    }
}

/// The millicores that a CPU quantity writes, if it is well formed.
pub open spec fn cpu_millicores(s: Seq<char>) -> Option<nat> {
    match unsigned_literal(cpu_literal(s).0) {
        Some(n) => Some(n * cpu_literal(s).1),
        None => None,
    }
}

/// What parsing a CPU quantity gives: its millicores, or the reason there
/// are none. The millicores must fit 32 bits.
pub open spec fn cpu_outcome(s: Seq<char>) -> Result<u32, InvalidQuantity> {
    match cpu_millicores(s) {
        None => Err(InvalidQuantity::Malformed),
        Some(n) => if n <= u32::MAX {
            Ok(n as u32)
        } else {
            Err(InvalidQuantity::OutOfRange)
        },
    }
}

/// Parses a CPU quantity into millicores.
pub fn parse_cpu(text: &str) -> (r: Result<u32, InvalidQuantity>)
    ensures
        r == cpu_outcome(text@),
{
    let chars = to_chars(text);
    let n = chars.len();
    assert(chars@.subrange(0, n as int) == chars@);
    let (parsed, scale): (Result<u64, InvalidQuantity>, u64) = if n > 0 && chars[n - 1] == 'm' {
        assert(chars@.subrange(0, n - 1) == chars@.drop_last());
        (parse_unsigned(&chars, 0, n - 1), 1)
    } else if contains_char(&chars, 0, n, '.') {
        let digits = strip_points(&chars, 0, n);
        assert(digits@.subrange(0, digits.len() as int) == digits@);
        (parse_unsigned(&digits, 0, digits.len()), 100)
    } else {
        (parse_unsigned(&chars, 0, n), 1000)
    };
    let ghost literal = unsigned_literal(cpu_literal(text@).0);
    assert(parsed == unsigned_outcome(cpu_literal(text@).0));
    assert(scale == cpu_literal(text@).1);
    match parsed {
        Err(e) => {
            proof {
                if let Some(n) = literal {
                    assert(n * scale >= n) by (nonlinear_arith)
                        requires
                            scale >= 1,
                    ;
                }
            }
            Err(e)
        },
        Ok(value) => {
            if value > (u32::MAX as u64) / scale {
                assert(value * scale > u32::MAX) by (nonlinear_arith)
                    requires
                        value > (u32::MAX as u64) / scale,
                        scale > 0,
                ;
                Err(InvalidQuantity::OutOfRange)
            } else {
                assert(value * scale <= u32::MAX) by (nonlinear_arith)
                    requires
                        value <= (u32::MAX as u64) / scale,
                        scale > 0,
                ;
                Ok((value * scale) as u32)
            }
        },
    }
}

/// Digits hold no decimal point.
pub proof fn lemma_digits_without_points(digits: Seq<char>)
    requires
        all_digits(digits),
    ensures
        without_points(digits) == digits,
        !digits.contains('.'),
    decreases digits.len(),
{
    reveal(Seq::filter);
    if digits.len() > 0 {
        lemma_digits_without_points(digits.drop_last());
        assert(is_digit(digits.last()));
        assert(digits.drop_last().push(digits.last()) == digits);
        if digits.contains('.') {
            let i = choose|i: int| 0 <= i < digits.len() && digits[i] == '.';
            assert(is_digit(digits[i]));
        }
    }
}

/// A number followed by `m` counts millicores.
pub proof fn lemma_cpu_millicores(digits: Seq<char>)
    requires
        digits.len() > 0,
        all_digits(digits),
    ensures
        cpu_millicores(digits.push('m')) == Some(decimal_value(digits)),
{
    assert(digits.push('m').drop_last() == digits);
    assert(is_digit(digits[0]));
    assert(decimal_value(digits) * 1 == decimal_value(digits));
}

/// A whole number counts cores, a thousand millicores each.
pub proof fn lemma_cpu_cores(digits: Seq<char>)
    requires
        digits.len() > 0,
        all_digits(digits),
    ensures
        cpu_millicores(digits) == Some(decimal_value(digits) * 1000),
{
    lemma_digits_without_points(digits);
    assert(is_digit(digits.last()));
    assert(is_digit(digits[0]));
}

/// A number of cores with one fraction digit is worth what it says: a
/// thousand millicores for each core and a hundred for each tenth.
pub proof fn lemma_cpu_tenths(cores: Seq<char>, tenth: char)
    requires
        cores.len() > 0,
        all_digits(cores),
        is_digit(tenth),
    ensures
        cpu_millicores(cores.push('.').push(tenth)) == Some(
            decimal_value(cores) * 1000 + digit_value(tenth) * 100,
        ),
{
    reveal(Seq::filter);
    let s = cores.push('.').push(tenth);
    lemma_digits_without_points(cores);
    assert(s[cores.len() as int] == '.');
    assert(s.drop_last() == cores.push('.'));
    assert(cores.push('.').drop_last() == cores);
    let keep = |c: char| not_point(c);
    assert(cores.push('.').filter(keep) == cores.filter(keep)) by {
        assert(cores.push('.').last() == '.');
        assert(!keep('.'));
    }
    assert(s.filter(keep) == s.drop_last().filter(keep).push(tenth)) by {
        assert(s.last() == tenth);
        assert(keep(tenth));
    }
    assert(without_points(s) == cores.push(tenth));
    assert(is_digit(cores[0]));
    assert(all_digits(cores.push(tenth)));
    lemma_decimal_value_push(cores, tenth);
    assert((decimal_value(cores) * 10 + digit_value(tenth)) * 100 == decimal_value(cores) * 1000
        + digit_value(tenth) * 100) by (nonlinear_arith);
}

/// What parsing a capacity gives: its bytes, or the reason there are
/// none.
pub open spec fn capacity_outcome(s: Seq<char>) -> Result<u64, InvalidQuantity> {
    if !capacity_well_formed(s) {
        Err(InvalidQuantity::Malformed)
    } else if !capacity_representable(s) {
        Err(InvalidQuantity::OutOfRange)
    } else {
        Ok(capacity_bytes(s) as u64)
    }
}

/// Parses a memory or storage quantity into bytes.
pub fn parse_capacity(text: &str) -> (r: Result<u64, InvalidQuantity>)
    ensures
        r == capacity_outcome(text@),
{
    let chars = to_chars(text);
    let n = chars.len();
    let (suffix_len, unit) = read_capacity_suffix(&chars);
    let end = n - suffix_len;
    let start: usize = if 0 < end && chars[0] == '+' { 1 } else { 0 };
    let ghost number = capacity_number(text@);
    assert(number == chars@.subrange(start as int, end as int));
    let digits = strip_points(&chars, start, end);
    proof {
        number.lemma_filter_len(|c: char| not_point(c));
        assert(digits@.subrange(0, digits.len() as int) == digits@);
    }
    if end - start - digits.len() > 1 {
        return Err(InvalidQuantity::Malformed);
    }
    let fraction = count_fraction_digits(&chars, start, end);
    match parse_digits(&digits, 0, digits.len()) {
        Err(e) => Err(e),
        Ok(value) => {
            if fraction > MAX_FRACTION_DIGITS {
                return Err(InvalidQuantity::OutOfRange);
            }
            let divisor = pow10_u64(fraction);
            assert(value * unit <= u128::MAX) by (nonlinear_arith)
                requires
                    value <= u64::MAX,
                    unit <= TEBI,
            ;
            let bytes: u128 = (value as u128 * unit as u128) / (divisor as u128);
            if bytes > u64::MAX as u128 {
                Err(InvalidQuantity::OutOfRange)
            } else {
                Ok(bytes as u64)
            }
        },
    }
}

/// A whole number followed by a unit is worth the number times the unit;
/// without a unit it counts bytes.
pub proof fn lemma_capacity_whole_number(digits: Seq<char>, unit: Seq<char>)
    requires
        digits.len() > 0,
        all_digits(digits),
        capacity_suffix(digits + unit).0 == unit.len(),
    ensures
        capacity_well_formed(digits + unit),
        capacity_bytes(digits + unit) == decimal_value(digits) * capacity_suffix(digits + unit).1,
{
    let s = digits + unit;
    lemma_digits_without_points(digits);
    assert(s.take(s.len() - unit.len()) == digits);
    assert(is_digit(digits[0]));
    assert(capacity_number(s) == digits);
    assert(fraction_digits(digits) == 0);
    assert(pow10(0) == 1);
}

} // verus!
