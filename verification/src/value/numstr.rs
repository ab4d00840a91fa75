//! Decimal text of integers: rendering and parsing, with their
//! mathematical definitions.
use vstd::prelude::*;
use vstd::string::StrSliceExecFns;
use vstd::string::StringExecFns;
use crate::value::kinds::sm_val;

verus! {

/// The digit character of `d` in `0..=9`.
pub open spec fn digit_char(d: int) -> char {
    if d == 0 {
        '0'
    } else if d == 1 {
        '1'
    } else if d == 2 {
        '2'
    } else if d == 3 {
        '3'
    } else if d == 4 {
        '4'
    } else if d == 5 {
        '5'
    } else if d == 6 {
        '6'
    } else if d == 7 {
        '7'
    } else if d == 8 {
        '8'
    } else {
        '9'
    }
}

/// The decimal digits of `n`, most significant first, no sign and no
/// leading zeros.
pub open spec fn dec_digits(n: nat) -> Seq<char>
    decreases n,
{
    if n < 10 {
        seq![digit_char(n as int)]
    } else {
        dec_digits(n / 10).push(digit_char((n % 10) as int))
    }
}

/// The decimal text of `v`, with a leading `-` when negative.
pub open spec fn dec_str_int(v: int) -> Seq<char> {
    if v < 0 {
        seq!['-'].add(dec_digits((-v) as nat))
    } else {
        dec_digits(v as nat)
    }
}

/// How many decimal digits `n` has.
pub open spec fn ndigits(n: nat) -> nat
    decreases n,
{
    if n < 10 {
        1
    } else {
        1 + ndigits(n / 10)
    }
}

/// `10^d`.
pub open spec fn pow10(d: nat) -> int
    decreases d,
{
    if d == 0 {
        1
    } else {
        10 * pow10((d - 1) as nat)
    }
}

pub open spec fn is_dec_digit(c: char) -> bool {
    48 <= c as int <= 57
}

pub open spec fn digit_val(c: char) -> int {
    c as int - 48
}

pub open spec fn all_digits(s: Seq<char>) -> bool {
    forall|i: int| 0 <= i < s.len() ==> is_dec_digit(#[trigger] s[i])
}

/// The value of a plain digit string.
pub open spec fn digits_val(s: Seq<char>) -> int
    decreases s.len(),
{
    if s.len() == 0 {
        0
    } else {
        digits_val(s.drop_last()) * 10 + digit_val(s.last())
    }
}

/// What `str::parse` to an integer accepts: an optional sign, then one or
/// more decimal digits; and the value it yields.
pub open spec fn parse_int_str(s: Seq<char>) -> Option<int> {
    if s.len() >= 1 && (s[0] == '-' || s[0] == '+') {
        let rest = s.skip(1);
        if rest.len() >= 1 && all_digits(rest) {
            Some(
                if s[0] == '-' {
                    -digits_val(rest)
                } else {
                    digits_val(rest)
                },
            )
        } else {
            None
        }
    } else if s.len() >= 1 && all_digits(s) {
        Some(digits_val(s))
    } else {
        None
    }
}

pub open spec fn is_dec_int_str(s: Seq<char>) -> bool {
    parse_int_str(s) is Some
}

/// A digit string's value is never negative.
pub proof fn lemma_digits_val_nonneg(s: Seq<char>)
    requires
        all_digits(s),
    ensures
        digits_val(s) >= 0,
    decreases s.len(),
{
    if s.len() > 0 {
        assert(all_digits(s.drop_last()));
        lemma_digits_val_nonneg(s.drop_last());
    }
}

/// `pow10` is positive and monotone.
pub proof fn lemma_pow10_mono(a: nat, b: nat)
    requires
        a <= b,
    ensures
        1 <= pow10(a) <= pow10(b),
    decreases b,
{
    if b == 0 {
    } else if a == b {
        lemma_pow10_mono(0, (b - 1) as nat);
    } else {
        lemma_pow10_mono(a, (b - 1) as nat);
    }
}

/// The digit text of `d`.
fn digit_str(d: u8) -> (r: &'static str)
    requires
        d < 10,
    ensures
        r@ == seq![digit_char(d as int)],
{
    proof {
        reveal_strlit("0");
        reveal_strlit("1");
        reveal_strlit("2");
        reveal_strlit("3");
        reveal_strlit("4");
        reveal_strlit("5");
        reveal_strlit("6");
        reveal_strlit("7");
        reveal_strlit("8");
        reveal_strlit("9");
    }
    match d {
        0 => "0",
        1 => "1",
        2 => "2",
        3 => "3",
        4 => "4",
        5 => "5",
        6 => "6",
        7 => "7",
        8 => "8",
        _ => "9",
    }
}

/// Renders `n` in decimal.
pub fn u128_to_dec(n: u128) -> (s: String)
    ensures
        s@ == dec_digits(n as nat),
    decreases n,
{
    if n < 10 {
        digit_str(n as u8).to_owned()
    } else {
        let mut s = u128_to_dec(n / 10);
        s.append(digit_str((n % 10) as u8));
        proof {
            assert(s@ =~= dec_digits(n as nat));
        }
        s
    }
}

/// Renders a sign-and-magnitude integer in decimal.
pub fn int_to_dec(neg: bool, mag: u128) -> (s: String)
    ensures
        s@ == dec_str_int(sm_val(neg, mag as int)),
{
    if neg && mag > 0 {
        let mut s = "-".to_owned();
        let digits = u128_to_dec(mag);
        s.append(digits.as_str());
        proof {
            reveal_strlit("-");
            assert(s@ =~= dec_str_int(sm_val(true, mag as int)));
        }
        s
    } else {
        u128_to_dec(mag)
    }
}

/// What scanning a decimal literal can find.
pub enum ParsedInt {
    /// Not an optional sign followed by one or more digits.
    Malformed,
    /// A value whose magnitude fits 128 bits.
    Within { neg: bool, mag: u128 },
    /// Well-formed, but the magnitude exceeds 128 bits.
    TooBig { neg: bool },
}

/// Scans a decimal integer literal.
pub fn parse_dec_str(s: &str) -> (r: ParsedInt)
    ensures
        match r {
            ParsedInt::Malformed => parse_int_str(s@) is None,
            ParsedInt::Within { neg, mag } => parse_int_str(s@) == Some(sm_val(neg, mag as int)),
            ParsedInt::TooBig { neg } => {
                &&& parse_int_str(s@) matches Some(v)
                &&& if neg {
                    v < -(u128::MAX as int)
                } else {
                    v > u128::MAX as int
                }
            },
        },
{
    let n = s.unicode_len();
    if n == 0 {
        return ParsedInt::Malformed;
    }
    let c0 = s.get_char(0);
    let u0 = c0 as u32;
    let signed: bool = u0 == 45 || u0 == 43;
    let neg: bool = u0 == 45;
    let start: usize = if signed {
        1
    } else {
        0
    };
    proof {
        assert(c0 == s@[0]);
        assert((c0 == '-') == (c0 as int == 45));
        assert((c0 == '+') == (c0 as int == 43));
    }
    if n == start {
        proof {
            assert(s@.skip(1).len() == s@.len() - 1);
        }
        return ParsedInt::Malformed;
    }
    let ghost d = s@.skip(start as int);
    let mut acc: u128 = 0;
    let mut too_big: bool = false;
    let mut i: usize = start;
    while i < n
        invariant
            start <= i <= n,
            1 <= n == s@.len(),
            start == if signed { 1int } else { 0int },
            signed == (s@[0] == '-' || s@[0] == '+'),
            neg == (s@[0] == '-'),
            d == s@.skip(start as int),
            d.len() == n - start,
            all_digits(d.take(i - start)),
            !too_big ==> acc as int == digits_val(d.take(i - start)),
            too_big ==> digits_val(d.take(i - start)) > u128::MAX as int,
        decreases n - i,
    {
        let c = s.get_char(i);
        let u = c as u32;
        proof {
            assert(c == s@[i as int]);
            assert(s@[i as int] == d[i - start]);
        }
        if u < 48 || u > 57 {
            proof {
                assert(!is_dec_digit(d[i - start]));
                assert(!all_digits(d));
            }
            return ParsedInt::Malformed;
        }
        let dv: u128 = (u - 48) as u128;
        proof {
            assert(d.take(i + 1 - start).drop_last() =~= d.take(i - start));
            assert(d.take(i + 1 - start).last() == d[i - start]);
            assert(digit_val(d[i - start]) == dv as int);
            assert(all_digits(d.take(i + 1 - start)));
        }
        if !too_big {
            let mul = acc.checked_mul(10);
            match mul {
                Some(m10) => {
                    let sum = m10.checked_add(dv);
                    match sum {
                        Some(v) => {
                            acc = v;
                        },
                        None => {
                            too_big = true;
                        },
                    }
                },
                None => {
                    proof {
                        lemma_digits_val_nonneg(d.take(i - start));
                    }
                    too_big = true;
                },
            }
        } else {
            proof {
                lemma_digits_val_nonneg(d.take(i - start));
                assert(digits_val(d.take(i + 1 - start)) == digits_val(d.take(i - start)) * 10
                    + dv as int);
                assert(digits_val(d.take(i - start)) * 10 > u128::MAX as int) by (nonlinear_arith)
                    requires digits_val(d.take(i - start)) > u128::MAX as int;
            }
        }
        i += 1;
    }
    proof {
        assert(d.take(n - start) =~= d);
        if signed {
            assert(s@[0] == '-' || s@[0] == '+');
            assert((s@[0] == '-') == neg);
        } else {
            assert(s@[0] != '-' && s@[0] != '+');
            assert(d =~= s@);
        }
        lemma_digits_val_nonneg(d);
    }
    if too_big {
        ParsedInt::TooBig { neg }
    } else {
        ParsedInt::Within { neg, mag: acc }
    }
}

/// How many decimal digits `n` has.
pub fn dec_len_u128(n: u128) -> (r: u32)
    ensures
        r as nat == ndigits(n as nat),
    decreases n,
{
    if n < 10 {
        1
    } else {
        let rest = dec_len_u128(n / 10);
        proof {
            lemma_ndigits_le_39((n / 10) as nat);
        }
        rest + 1
    }
}

/// No 128-bit number has more than 39 decimal digits.
pub proof fn lemma_ndigits_le_39(n: nat)
    requires
        n <= u128::MAX,
    ensures
        ndigits(n) <= 39,
{
    lemma_ndigits_pow10(n);
    if ndigits(n) > 39 {
        lemma_pow10_mono(39, (ndigits(n) - 1) as nat);
        lemma_pow10_39();
    }
}

/// `n` is below `10^ndigits(n)`.
pub proof fn lemma_ndigits_pow10(n: nat)
    ensures
        n < pow10(ndigits(n)),
        pow10((ndigits(n) - 1) as nat) <= n || n == 0,
    decreases n,
{
    if n < 10 {
        reveal_with_fuel(pow10, 3);
    } else {
        lemma_ndigits_pow10(n / 10);
        let dd = ndigits(n / 10);
        assert(n / 10 < pow10(dd));
        assert(n < 10 * pow10(dd)) by (nonlinear_arith)
            requires n / 10 < pow10(dd), n >= 10;
        assert(pow10((dd + 1 - 1) as nat) == pow10(dd));
        assert(pow10((dd - 1) as nat) <= n / 10);
        assert(10 * pow10((dd - 1) as nat) <= n) by (nonlinear_arith)
            requires pow10((dd - 1) as nat) <= n / 10, n >= 10;
        assert(pow10(dd) == 10 * pow10((dd - 1) as nat));
    }
}

/// `10^39` exceeds the 128-bit range.
pub proof fn lemma_pow10_39()
    ensures
        pow10(39) > u128::MAX as int,
{
    reveal_with_fuel(pow10, 41);
    assert(pow10(39) == 1000000000000000000000000000000000000000int);
}

/// `10^d`, or `None` past the 128-bit range.
pub fn checked_pow10(d: u32) -> (r: Option<u128>)
    ensures
        match r {
            Some(p) => p as int == pow10(d as nat),
            None => pow10(d as nat) > u128::MAX as int,
        },
{
    let mut acc: u128 = 1;
    let mut i: u32 = 0;
    while i < d
        invariant
            0 <= i <= d,
            acc as int == pow10(i as nat),
        decreases d - i,
    {
        match acc.checked_mul(10) {
            Some(v) => {
                acc = v;
            },
            None => {
                proof {
                    lemma_pow10_mono((i + 1) as nat, d as nat);
                }
                return None;
            },
        }
        i += 1;
    }
    Some(acc)
}

} // verus!
