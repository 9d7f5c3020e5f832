//! Decimal numerals: writing integers as text and reading them back.

use vstd::prelude::*;

use crate::text::chars_of;

verus! {

/// The character of the decimal digit `d`.
pub open spec fn digit_char(d: nat) -> char
    recommends
        d < 10,
{
    (48 + d) as char
}

/// The decimal numeral of `n`, without leading zeros.
pub open spec fn nat_text(n: nat) -> Seq<char>
    decreases n,
{
    if n < 10 {
        seq![digit_char(n)]
    } else {
        nat_text(n / 10).push(digit_char(n % 10))
    }
}

/// The decimal numeral of `i`, with a minus sign where `i` is negative.
pub open spec fn int_text(i: int) -> Seq<char> {
    if i < 0 {
        seq!['-'] + nat_text((-i) as nat)
    } else {
        nat_text(i as nat)
    }
}

fn digit(d: u8) -> (c: char)
    requires
        d < 10,
    ensures
        c == digit_char(d as nat),
{
    (48 + d) as char
}

/// The decimal numeral of `n`.
pub fn u64_text(n: u64) -> (r: String)
    ensures
        r@ == nat_text(n as nat),
    decreases n,
{
    if n < 10 {
        let mut s: String = String::new();
        s.push(digit(n as u8));
        assert(s@ =~= seq![digit_char(n as nat)]);
        s
    } else {
        let mut s: String = u64_text(n / 10);
        s.push(digit((n % 10) as u8));
        s
    }
}

/// The decimal numeral of `n`.
pub fn usize_text(n: usize) -> (r: String)
    ensures
        r@ == nat_text(n as nat),
{
    u64_text(n as u64)
}

/// The decimal numeral of `i`.
pub fn i64_text(i: i64) -> (r: String)
    ensures
        r@ == int_text(i as int),
{
    if i < 0 {
        let magnitude: u64 = if i == i64::MIN {
            0x8000_0000_0000_0000
        } else {
            (-i) as u64
        };
        let mut s: String = String::new();
        s.push('-');
        s.append(u64_text(magnitude).as_str());
        assert(s@ =~= seq!['-'] + nat_text((-i) as nat));
        s
    } else {
        u64_text(i as u64)
    }
}

/// The decimal numeral of `i`.
pub fn i32_text(i: i32) -> (r: String)
    ensures
        r@ == int_text(i as int),
{
    i64_text(i as i64)
}

// ---------------------------------------------------------------------------
// Reading
// ---------------------------------------------------------------------------

/// Whether `c` is an ASCII decimal digit.
pub open spec fn is_digit(c: char) -> bool {
    '0' <= c <= '9'
}

/// Whether `s` has at least one character and ASCII digits only.
pub open spec fn all_digits(s: Seq<char>) -> bool {
    &&& s.len() > 0
    &&& forall|i: int| 0 <= i < s.len() ==> is_digit(#[trigger] s[i])
}

/// The number that the digits `s` denote.
pub open spec fn digits_value(s: Seq<char>) -> nat
    decreases s.len(),
{
    if s.len() == 0 {
        0
    } else {
        digits_value(s.drop_last()) * 10 + (s.last() as u32 - 48) as nat
    }
}

/// The integer that `s` denotes: digits, with one sign before them or none.
pub open spec fn int_of_text(s: Seq<char>) -> Option<int> {
    if all_digits(s) {
        Some(digits_value(s) as int)
    } else if s.len() > 0 && s[0] == '+' && all_digits(s.skip(1)) {
        Some(digits_value(s.skip(1)) as int)
    } else if s.len() > 0 && s[0] == '-' && all_digits(s.skip(1)) {
        Some(-(digits_value(s.skip(1)) as int))
    } else {
        None
    }
}

/// The number that `s` denotes: digits, with a plus sign before them or none.
pub open spec fn nat_of_text(s: Seq<char>) -> Option<nat> {
    if all_digits(s) {
        Some(digits_value(s))
    } else if s.len() > 0 && s[0] == '+' && all_digits(s.skip(1)) {
        Some(digits_value(s.skip(1)))
    } else {
        None
    }
}

/// `s` as an `i64`, where it denotes an integer in that range.
pub open spec fn i64_of_text(s: Seq<char>) -> Option<i64> {
    match int_of_text(s) {
        Some(i) if i64::MIN <= i <= i64::MAX => Some(i as i64),
        _ => None,
    }
}

/// `s` as a `u64`, where it denotes a number in that range.
pub open spec fn u64_of_text(s: Seq<char>) -> Option<u64> {
    match nat_of_text(s) {
        Some(n) if n <= u64::MAX => Some(n as u64),
        _ => None,
    }
}

proof fn lemma_digits_value_grows(s: Seq<char>, k: int)
    requires
        0 <= k <= s.len(),
        forall|i: int| 0 <= i < s.len() ==> is_digit(#[trigger] s[i]),
    ensures
        digits_value(s.take(k)) <= digits_value(s),
    decreases s.len() - k,
{
    if k == s.len() {
        assert(s.take(k) =~= s);
    } else {
        let shorter = s.drop_last();
        lemma_digits_value_grows(shorter, k);
        assert(shorter.take(k) =~= s.take(k));
        assert(is_digit(s.last()));
    }
}

/// The number that the digits from position `from` denote; nothing where
/// there is no digit, another character, or more than `u64` holds.
fn read_digits(v: &Vec<char>, from: usize) -> (r: Option<u64>)
    requires
        from <= v.len(),
    ensures
        ({
            let s = v@.skip(from as int);
            match r {
                Some(n) => all_digits(s) && digits_value(s) == n,
                None => !all_digits(s) || digits_value(s) > u64::MAX,
            }
        }),
{
    let ghost s = v@.skip(from as int);
    if from == v.len() {
        return None;
    }
    let mut n: u64 = 0;
    let mut i: usize = from;
    while i < v.len()
        invariant
            from <= i <= v.len(),
            s == v@.skip(from as int),
            forall|j: int| 0 <= j < i - from ==> is_digit(#[trigger] s[j]),
            n == digits_value(s.take(i - from)),
        decreases v.len() - i,
    {
        let c = v[i];
        assert(s[i - from] == c);
        if c < '0' || c > '9' {
            return None;
        }
        let d: u64 = (c as u32 - 48) as u64;
        proof {
            let longer = s.take(i + 1 - from);
            assert(longer.drop_last() =~= s.take(i - from));
            assert(longer.last() == c);
            if all_digits(s) {
                lemma_digits_value_grows(s, i + 1 - from);
            }
        }
        if n > (u64::MAX - d) / 10 {
            return None;
        }
        n = n * 10 + d;
        i = i + 1;
    }
    assert(s.take(i - from) =~= s);
    Some(n)
}

/// `s` as an `i64`, where it denotes an integer in that range.
pub fn parse_i64(s: &str) -> (r: Option<i64>)
    ensures
        r == i64_of_text(s@),
{
    let v = chars_of(s);
    assert(v@.skip(0) =~= s@);
    if v.len() == 0 {
        return None;
    }
    assert(v@[0] == s@[0]);
    if v[0] == '-' {
        assert(!is_digit(s@[0]));
        match read_digits(&v, 1) {
            Some(n) => {
                if n <= 0x7fff_ffff_ffff_ffff {
                    Some(-(n as i64))
                } else if n == 0x8000_0000_0000_0000 {
                    Some(i64::MIN)
                } else {
                    None
                }
            },
            None => None,
        }
    } else {
        let from: usize = if v[0] == '+' {
            assert(!is_digit(s@[0]));
            1
        } else {
            0
        };
        match read_digits(&v, from) {
            Some(n) => {
                if n <= 0x7fff_ffff_ffff_ffff {
                    Some(n as i64)
                } else {
                    None
                }
            },
            None => None,
        }
    }
}

/// `s` as a `u64`, where it denotes a number in that range.
pub fn parse_u64(s: &str) -> (r: Option<u64>)
    ensures
        r == u64_of_text(s@),
{
    let v = chars_of(s);
    assert(v@.skip(0) =~= s@);
    if v.len() == 0 {
        return None;
    }
    let from: usize = if v[0] == '+' {
        assert(!is_digit(s@[0]));
        1
    } else {
        0
    };
    read_digits(&v, from)
}

/// Reading the numeral of an integer gives the integer back.
pub proof fn law_numeral_reads_back(i: i64)
    ensures
        i64_of_text(int_text(i as int)) == Some(i),
{
    let n: nat = if i < 0 {
        (-i) as nat
    } else {
        i as nat
    };
    lemma_nat_text(n);
    if i < 0 {
        assert(int_text(i as int).skip(1) =~= nat_text(n));
        assert(!is_digit(int_text(i as int)[0]));
    }
}

pub proof fn lemma_nat_text(n: nat)
    ensures
        all_digits(nat_text(n)),
        digits_value(nat_text(n)) == n,
    decreases n,
{
    if n < 10 {
        reveal_with_fuel(digits_value, 2);
        assert(nat_text(n).drop_last() =~= Seq::empty());
        assert(nat_text(n).last() == digit_char(n));
    } else {
        lemma_nat_text(n / 10);
        assert(nat_text(n).drop_last() =~= nat_text(n / 10));
        assert(nat_text(n).last() == digit_char(n % 10));
    }
}

/// The numeral of an integer has no white space to trim.
pub proof fn lemma_int_text_is_trimmed(i: int)
    ensures
        crate::text::trimmed(int_text(i)) == int_text(i),
        int_text(i).len() > 0,
{
    let n = if i < 0 {
        (-i) as nat
    } else {
        i as nat
    };
    lemma_nat_text(n);
    let digits = nat_text(n);
    assert(is_digit(digits[0]) && is_digit(digits.last()));
    assert(int_text(i).last() == digits.last());
}

} // verus!
