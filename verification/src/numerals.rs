//! Verified decimal numerals.
//!
//! The probes and the cache codec need to read and write unsigned decimal
//! numbers.  This module gives both directions an exact specification and
//! proves that writing a number and reading it back yields the number again.

use vstd::prelude::*;

verus! {

/// Is `c` a decimal digit?
pub open spec fn is_digit_char(c: char) -> bool {
    c == '0' || c == '1' || c == '2' || c == '3' || c == '4' || c == '5' || c == '6' || c == '7'
        || c == '8' || c == '9'
}

/// The value of a decimal digit character.
pub open spec fn digit_val(c: char) -> int {
    if c == '0' {
        0
    } else if c == '1' {
        1
    } else if c == '2' {
        2
    } else if c == '3' {
        3
    } else if c == '4' {
        4
    } else if c == '5' {
        5
    } else if c == '6' {
        6
    } else if c == '7' {
        7
    } else if c == '8' {
        8
    } else {
        9
    }
}

/// The decimal digit character for a value below ten.
pub open spec fn digit_char(d: int) -> char {
    if d == 0 {
        '0'
    } else if d == 1 {
        '1'
    } else if d == 2 {
        '2'
    } else if d == 3 {
        '3'
    } else if d == 4 {
        '4'
    } else if d == 5 {
        '5'
    } else if d == 6 {
        '6'
    } else if d == 7 {
        '7'
    } else if d == 8 {
        '8'
    } else {
        '9'
    }
}

/// Are all characters of `s` decimal digits?
pub open spec fn all_digits(s: Seq<char>) -> bool {
    forall|k: int| 0 <= k < s.len() ==> is_digit_char(s[k])
}

/// The number denoted by a sequence of digit characters.
pub open spec fn spec_digits_val(s: Seq<char>) -> int
    decreases s.len(),
{
    if s.len() == 0 {
        0
    } else {
        spec_digits_val(s.drop_last()) * 10 + digit_val(s.last())
    }
}

/// What parsing `s` as an unsigned 64-bit decimal number yields: the value
/// when `s` is a non-empty, all-digit numeral that fits, nothing otherwise.
pub open spec fn spec_parse_u64(s: Seq<char>) -> Option<u64> {
    if s.len() > 0 && all_digits(s) && spec_digits_val(s) <= u64::MAX {
        Some(spec_digits_val(s) as u64)
    } else {
        None
    }
}

/// What parsing `s` as an unsigned 32-bit decimal number yields.
pub open spec fn spec_parse_u32(s: Seq<char>) -> Option<u32> {
    if s.len() > 0 && all_digits(s) && spec_digits_val(s) <= u32::MAX {
        Some(spec_digits_val(s) as u32)
    } else {
        None
    }
}

/// The decimal numeral of a non-negative number, most significant digit
/// first and without leading zeros (a single zero for zero itself).
pub open spec fn spec_fmt_nat(n: int) -> Seq<char>
    decreases n,
{
    if n < 0 {
        Seq::empty()
    } else if n < 10 {
        seq![digit_char(n)]
    } else {
        spec_fmt_nat(n / 10) + seq![digit_char(n % 10)]
    }
}

/// A digit sequence denotes a non-negative number.
pub proof fn lemma_digits_val_nonneg(s: Seq<char>)
    requires
        all_digits(s),
    ensures
        spec_digits_val(s) >= 0,
    decreases s.len(),
{
    if s.len() > 0 {
        assert(all_digits(s.drop_last()));
        lemma_digits_val_nonneg(s.drop_last());
    }
}

/// Extending a digit sequence on the right never shrinks its value.
pub proof fn lemma_digits_val_mono(s: Seq<char>, j: int)
    requires
        all_digits(s),
        0 <= j <= s.len(),
    ensures
        spec_digits_val(s.take(j)) <= spec_digits_val(s),
    decreases s.len() - j,
{
    assert(all_digits(s.take(j)));
    if j < s.len() {
        lemma_digits_val_mono(s, j + 1);
        assert(s.take(j + 1).drop_last() =~= s.take(j));
        assert(s.take(j + 1).last() == s[j]);
        lemma_digits_val_nonneg(s.take(j));
        assert(spec_digits_val(s.take(j + 1)) == spec_digits_val(s.take(j)) * 10 + digit_val(
            s[j],
        ));
    } else {
        assert(s.take(j) =~= s);
    }
}

/// Parse a char slice as an unsigned 64-bit decimal number.
pub fn parse_u64(v: &[char]) -> (r: Option<u64>)
    ensures
        r == spec_parse_u64(v@),
{
    let n: usize = v.len();
    if n == 0 {
        return None;
    }
    let mut acc: u64 = 0;
    let mut i: usize = 0;
    proof {
        assert(v@.take(0) =~= Seq::<char>::empty());
    }
    while i < n
        invariant
            0 <= i <= n,
            n == v@.len(),
            all_digits(v@.take(i as int)),
            acc == spec_digits_val(v@.take(i as int)),
        decreases n - i,
    {
        let c = v[i];
        let d: u64 = match c {
            '0' => 0,
            '1' => 1,
            '2' => 2,
            '3' => 3,
            '4' => 4,
            '5' => 5,
            '6' => 6,
            '7' => 7,
            '8' => 8,
            '9' => 9,
            _ => {
                proof {
                    assert(!is_digit_char(v@[i as int]));
                }
                return None;
            },
        };
        proof {
            assert(is_digit_char(v@[i as int]) && digit_val(v@[i as int]) == d);
            assert(v@.take(i + 1).drop_last() =~= v@.take(i as int));
            assert(v@.take(i + 1).last() == v@[i as int]);
            assert(all_digits(v@.take(i + 1)));
            assert(spec_digits_val(v@.take(i + 1)) == acc * 10 + d);
        }
        let step = match acc.checked_mul(10) {
            Some(x) => x.checked_add(d),
            None => None,
        };
        match step {
            Some(x) => {
                acc = x;
            },
            None => {
                proof {
                    assert(spec_digits_val(v@.take(i + 1)) > u64::MAX);
                    if all_digits(v@) {
                        lemma_digits_val_mono(v@, i + 1);
                        assert(spec_digits_val(v@) > u64::MAX);
                    }
                }
                return None;
            },
        }
        i = i + 1;
    }
    proof {
        assert(v@.take(n as int) =~= v@);
    }
    Some(acc)
}

/// Parse a char slice as an unsigned 32-bit decimal number.
pub fn parse_u32(v: &[char]) -> (r: Option<u32>)
    ensures
        r == spec_parse_u32(v@),
{
    proof {
        if v@.len() > 0 && all_digits(v@) {
            lemma_digits_val_nonneg(v@);
        }
    }
    match parse_u64(v) {
        Some(x) => {
            if x <= u32::MAX as u64 {
                Some(x as u32)
            } else {
                None
            }
        },
        None => None,
    }
}

/// Write a number as its decimal numeral.
pub fn fmt_u64(n: u64) -> (r: Vec<char>)
    ensures
        r@ == spec_fmt_nat(n as int),
    decreases n,
{
    let d: u64 = n % 10;
    let c: char = match d {
        0 => '0',
        1 => '1',
        2 => '2',
        3 => '3',
        4 => '4',
        5 => '5',
        6 => '6',
        7 => '7',
        8 => '8',
        _ => '9',
    };
    proof {
        assert(c == digit_char(n as int % 10));
    }
    if n < 10 {
        let mut r: Vec<char> = Vec::new();
        r.push(c);
        proof {
            assert(r@ =~= seq![digit_char(n as int)]);
        }
        r
    } else {
        let mut r = fmt_u64(n / 10);
        r.push(c);
        proof {
            assert(r@ =~= spec_fmt_nat(n as int / 10) + seq![digit_char(n as int % 10)]);
        }
        r
    }
}

/// Write a 32-bit number as its decimal numeral.
pub fn fmt_u32(n: u32) -> (r: Vec<char>)
    ensures
        r@ == spec_fmt_nat(n as int),
{
    fmt_u64(n as u64)
}

/// A numeral is non-empty and consists of digits only.
pub proof fn lemma_fmt_nat_digits(n: int)
    requires
        n >= 0,
    ensures
        spec_fmt_nat(n).len() > 0,
        all_digits(spec_fmt_nat(n)),
    decreases n,
{
    if n >= 10 {
        lemma_fmt_nat_digits(n / 10);
        assert(forall|k: int|
            0 <= k < spec_fmt_nat(n / 10).len() ==> spec_fmt_nat(n)[k] == spec_fmt_nat(
                n / 10,
            )[k]);
        assert(spec_fmt_nat(n).last() == digit_char(n % 10));
    }
}

/// Reading back a written numeral yields the number it was written from.
pub proof fn lemma_digits_val_fmt(n: int)
    requires
        n >= 0,
    ensures
        spec_digits_val(spec_fmt_nat(n)) == n,
    decreases n,
{
    if n < 10 {
        assert(spec_fmt_nat(n) =~= seq![digit_char(n)]);
        assert(spec_fmt_nat(n).drop_last() =~= Seq::<char>::empty());
        assert(spec_fmt_nat(n).last() == digit_char(n));
        assert(spec_digits_val(spec_fmt_nat(n)) == spec_digits_val(Seq::<char>::empty()) * 10
            + digit_val(digit_char(n)));
        assert(spec_digits_val(Seq::<char>::empty()) == 0);
        assert(digit_val(digit_char(n)) == n);
    } else {
        lemma_digits_val_fmt(n / 10);
        assert(spec_fmt_nat(n).drop_last() =~= spec_fmt_nat(n / 10));
        assert(spec_fmt_nat(n).last() == digit_char(n % 10));
        assert(spec_fmt_nat(n).len() > 0);
        assert(spec_digits_val(spec_fmt_nat(n)) == spec_digits_val(spec_fmt_nat(n).drop_last())
            * 10 + digit_val(spec_fmt_nat(n).last()));
        assert(0 <= n % 10 < 10);
        assert(digit_val(digit_char(n % 10)) == n % 10);
        vstd::arithmetic::div_mod::lemma_fundamental_div_mod(n, 10);
        assert(spec_digits_val(spec_fmt_nat(n)) == (n / 10) * 10 + n % 10);
    }
}

/// Round trip for 64-bit numbers: parsing a written numeral succeeds and
/// yields the original number.
pub proof fn lemma_parse_fmt_u64(n: u64)
    ensures
        spec_parse_u64(spec_fmt_nat(n as int)) == Some(n),
{
    lemma_fmt_nat_digits(n as int);
    lemma_digits_val_fmt(n as int);
}

/// Round trip for 32-bit numbers.
pub proof fn lemma_parse_fmt_u32(n: u32)
    ensures
        spec_parse_u32(spec_fmt_nat(n as int)) == Some(n),
{
    lemma_fmt_nat_digits(n as int);
    lemma_digits_val_fmt(n as int);
}

} // verus!
