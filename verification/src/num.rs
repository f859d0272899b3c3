//! Decimal rendering of integers, as `Display` writes them, and decimal
//! parsing, as `str::parse` reads them.

use vstd::prelude::*;

verus! {

pub open spec fn digit_char(d: nat) -> char {
    ((d + 48) as u32) as char
}

/// Decimal digits of `n`, most significant first, no leading zeros.
pub open spec fn digits(n: nat) -> Seq<char>
    decreases n,
{
    if n < 10 {
        seq![digit_char(n)]
    } else {
        digits(n / 10).push(digit_char(n % 10))
    }
}

/// `n.to_string()` for any integer: a `-` sign, then the digits.
pub open spec fn int_text(n: int) -> Seq<char> {
    if n < 0 { seq!['-'] + digits((-n) as nat) } else { digits(n as nat) }
}

fn digit(d: u64) -> (c: char)
    requires
        d < 10,
    ensures
        c == digit_char(d as nat),
{
    let b: u8 = (d as u8) + 48;
    b as char
}

/// Decimal text of `n`.
pub fn u64_text(n: u64) -> (r: Vec<char>)
    ensures
        r@ == digits(n as nat),
    decreases n,
{
    if n < 10 {
        vec![digit(n)]
    } else {
        let mut r = u64_text(n / 10);
        r.push(digit(n % 10));
        r
    }
}

/// Decimal text of `n`.
pub fn i32_text(n: i32) -> (r: Vec<char>)
    ensures
        r@ == int_text(n as int),
{
    if n < 0 {
        let m: u64 = (-(n as i64)) as u64;
        let d = u64_text(m);
        let mut r = vec!['-'];
        crate::text::extend_chars(&mut r, &d);
        r
    } else {
        u64_text(n as u64)
    }
}

/// Decimal text of `n`.
pub fn i64_text(n: i64) -> (r: Vec<char>)
    ensures
        r@ == int_text(n as int),
{
    if n < 0 {
        let m: u64 = (-(n as i128)) as u64;
        let d = u64_text(m);
        let mut r = vec!['-'];
        crate::text::extend_chars(&mut r, &d);
        r
    } else {
        u64_text(n as u64)
    }
}


/// An ASCII decimal digit.
pub open spec fn is_digit(c: char) -> bool {
    '0' <= c && c <= '9'
}

pub open spec fn all_digits(s: Seq<char>) -> bool {
    forall|i: int| 0 <= i < s.len() ==> is_digit(#[trigger] s[i])
}

/// The value of a run of ASCII digits, most significant first.
pub open spec fn digits_value(s: Seq<char>) -> nat
    decreases s.len(),
{
    if s.len() == 0 {
        0
    } else {
        digits_value(s.drop_last()) * 10 + ((s.last() as u32) - 48) as nat
    }
}

/// A numeral: at least one ASCII digit and nothing else.
pub open spec fn numeral_value(s: Seq<char>) -> Option<nat> {
    if s.len() > 0 && all_digits(s) { Some(digits_value(s)) } else { None }
}

/// What `str::parse` reads as a signed integer, before the range check: an
/// optional `+` or `-`, then a numeral.
pub open spec fn signed_value(s: Seq<char>) -> Option<int> {
    if s.len() > 0 && s[0] == '-' {
        match numeral_value(s.drop_first()) {
            Some(v) => Some(-v),
            None => None,
        }
    } else if s.len() > 0 && s[0] == '+' {
        match numeral_value(s.drop_first()) {
            Some(v) => Some(v as int),
            None => None,
        }
    } else {
        match numeral_value(s) {
            Some(v) => Some(v as int),
            None => None,
        }
    }
}

/// What `str::parse` reads as an unsigned integer, before the range check:
/// an optional `+`, then a numeral.
pub open spec fn unsigned_value(s: Seq<char>) -> Option<nat> {
    if s.len() > 0 && s[0] == '+' {
        numeral_value(s.drop_first())
    } else {
        numeral_value(s)
    }
}

/// `s.parse::<i32>().ok()`.
pub open spec fn i32_of_text(s: Seq<char>) -> Option<i32> {
    match signed_value(s) {
        Some(v) => if i32::MIN <= v <= i32::MAX { Some(v as i32) } else { None },
        None => None,
    }
}

/// `s.parse::<i64>().ok()`.
pub open spec fn i64_of_text(s: Seq<char>) -> Option<i64> {
    match signed_value(s) {
        Some(v) => if i64::MIN <= v <= i64::MAX { Some(v as i64) } else { None },
        None => None,
    }
}

/// `s.parse::<u16>().ok()`.
pub open spec fn u16_of_text(s: Seq<char>) -> Option<u16> {
    match unsigned_value(s) {
        Some(v) => if v <= u16::MAX { Some(v as u16) } else { None },
        None => None,
    }
}

proof fn lemma_digits_value_prefix(s: Seq<char>, k: int)
    requires
        0 <= k <= s.len(),
    ensures
        digits_value(s.take(k)) <= digits_value(s),
    decreases s.len(),
{
    if k < s.len() {
        assert(s.drop_last().take(k) =~= s.take(k));
        lemma_digits_value_prefix(s.drop_last(), k);
    } else {
        assert(s.take(k) =~= s);
    }
}

/// The numeral `cs[start..]` when its value is at most `limit`.
fn numeral_at_most(cs: &Vec<char>, start: usize, limit: u64) -> (r: Option<u64>)
    requires
        start <= cs@.len(),
    ensures
        match numeral_value(cs@.subrange(start as int, cs@.len() as int)) {
            Some(v) => if v <= limit { r == Some(v as u64) } else { r is None },
            None => r is None,
        },
{
    let ghost rest = cs@.subrange(start as int, cs@.len() as int);
    let mut acc: u128 = 0;
    let mut i: usize = start;
    while i < cs.len()
        invariant
            start <= i <= cs@.len(),
            rest == cs@.subrange(start as int, cs@.len() as int),
            acc == digits_value(rest.take(i - start)),
            acc <= limit,
            all_digits(rest.take(i - start)),
        decreases cs.len() - i,
    {
        let c = cs[i];
        if !('0' <= c && c <= '9') {
            assert(!is_digit(rest[i - start]));
            return None;
        }
        let d: u128 = ((c as u32) - 48) as u128;
        let next: u128 = acc * 10 + d;
        proof {
            assert(rest.take(i + 1 - start).drop_last() =~= rest.take(i - start));
            assert(rest.take(i + 1 - start).last() == c);
            assert(all_digits(rest.take(i + 1 - start)));
        }
        if next > limit as u128 {
            proof {
                if all_digits(rest) {
                    lemma_digits_value_prefix(rest, i + 1 - start);
                }
            }
            return None;
        }
        acc = next;
        i = i + 1;
    }
    assert(rest.take(i - start) =~= rest);
    if i == start {
        return None;
    }
    Some(acc as u64)
}

/// `s.parse::<i32>().ok()`.
pub fn parse_i32(s: &str) -> (r: Option<i32>)
    ensures
        r == i32_of_text(s@),
{
    let cs = crate::text::chars_of(s);
    if cs.len() > 0 && cs[0] == '-' {
        assert(cs@.subrange(1, cs@.len() as int) =~= s@.drop_first());
        match numeral_at_most(&cs, 1, 2147483648) {
            Some(m) => Some((-(m as i64)) as i32),
            None => None,
        }
    } else if cs.len() > 0 && cs[0] == '+' {
        assert(cs@.subrange(1, cs@.len() as int) =~= s@.drop_first());
        match numeral_at_most(&cs, 1, 2147483647) {
            Some(m) => Some(m as i32),
            None => None,
        }
    } else {
        assert(cs@.subrange(0, cs@.len() as int) =~= s@);
        match numeral_at_most(&cs, 0, 2147483647) {
            Some(m) => Some(m as i32),
            None => None,
        }
    }
}

/// `s.parse::<i64>().ok()`.
pub fn parse_i64(s: &str) -> (r: Option<i64>)
    ensures
        r == i64_of_text(s@),
{
    let cs = crate::text::chars_of(s);
    if cs.len() > 0 && cs[0] == '-' {
        assert(cs@.subrange(1, cs@.len() as int) =~= s@.drop_first());
        match numeral_at_most(&cs, 1, 9223372036854775808) {
            Some(m) => Some((-(m as i128)) as i64),
            None => None,
        }
    } else if cs.len() > 0 && cs[0] == '+' {
        assert(cs@.subrange(1, cs@.len() as int) =~= s@.drop_first());
        match numeral_at_most(&cs, 1, 9223372036854775807) {
            Some(m) => Some(m as i64),
            None => None,
        }
    } else {
        assert(cs@.subrange(0, cs@.len() as int) =~= s@);
        match numeral_at_most(&cs, 0, 9223372036854775807) {
            Some(m) => Some(m as i64),
            None => None,
        }
    }
}

/// `s.parse::<u16>().ok()`.
pub fn parse_u16(s: &str) -> (r: Option<u16>)
    ensures
        r == u16_of_text(s@),
{
    let cs = crate::text::chars_of(s);
    if cs.len() > 0 && cs[0] == '+' {
        assert(cs@.subrange(1, cs@.len() as int) =~= s@.drop_first());
        match numeral_at_most(&cs, 1, 65535) {
            Some(m) => Some(m as u16),
            None => None,
        }
    } else {
        assert(cs@.subrange(0, cs@.len() as int) =~= s@);
        match numeral_at_most(&cs, 0, 65535) {
            Some(m) => Some(m as u16),
            None => None,
        }
    }
}

/// Reading a number back gives the number: the text `Display` writes for an
/// `i32` parses as that `i32`.
pub proof fn law_i32_text_round_trip(n: i32)
    ensures
        i32_of_text(int_text(n as int)) == Some(n),
{
    lemma_signed_value_of_int_text(n as int);
}

/// The text `Display` writes for an `i64` parses as that `i64`.
pub proof fn law_i64_text_round_trip(n: i64)
    ensures
        i64_of_text(int_text(n as int)) == Some(n),
{
    lemma_signed_value_of_int_text(n as int);
}

/// The text `Display` writes for a `u16` parses as that `u16`.
pub proof fn law_u16_text_round_trip(n: u16)
    ensures
        u16_of_text(digits(n as nat)) == Some(n),
{
    lemma_digits_numeral(n as nat);
    assert(is_digit(digits(n as nat)[0]));
}

proof fn lemma_signed_value_of_int_text(n: int)
    ensures
        signed_value(int_text(n)) == Some(n),
{
    if n < 0 {
        let m = (-n) as nat;
        lemma_digits_numeral(m);
        assert((seq!['-'] + digits(m)).drop_first() =~= digits(m));
    } else {
        lemma_digits_numeral(n as nat);
        assert(is_digit(digits(n as nat)[0]));
    }
}

proof fn lemma_digit_char(d: nat)
    requires
        d < 10,
    ensures
        digit_char(d) as u32 == d + 48,
        is_digit(digit_char(d)),
{
}

proof fn lemma_digits_numeral(n: nat)
    ensures
        digits(n).len() > 0,
        all_digits(digits(n)),
        digits_value(digits(n)) == n,
    decreases n,
{
    lemma_digit_char(n % 10);
    if n >= 10 {
        lemma_digits_numeral(n / 10);
        assert(digits(n).drop_last() =~= digits(n / 10));
        assert(digits(n).last() == digit_char(n % 10));
        assert(digits_value(digits(n)) == digits_value(digits(n / 10)) * 10 + (n % 10));
        assert((n / 10) * 10 + n % 10 == n) by (nonlinear_arith);
        assert forall|i: int| 0 <= i < digits(n).len() implies is_digit(#[trigger] digits(n)[i]) by {
            if i < digits(n).len() - 1 {
                assert(digits(n)[i] == digits(n / 10)[i]);
            }
        }
    } else {
        assert(digits(n).drop_last() =~= Seq::<char>::empty());
        assert(digits(n).last() == digit_char(n));
        assert(digits_value(digits(n)) == digits_value(Seq::<char>::empty()) * 10 + n);
    }
}


/// `Display` text of an integer has no surrounding whitespace.
pub proof fn lemma_int_text_unpadded(n: int)
    ensures
        crate::text::trim(int_text(n)) == int_text(n),
        int_text(n).len() > 0,
{
    let m: nat = if n < 0 { (-n) as nat } else { n as nat };
    lemma_digits_numeral(m);
    let s = int_text(n);
    let d = digits(m);
    assert(is_digit(d[d.len() - 1]));
    assert(is_digit(d[0]));
    if n < 0 {
        assert(s[0] == '-');
        assert(s[s.len() - 1] == d[d.len() - 1]);
    } else {
        assert(s == d);
    }
    assert(!crate::text::is_whitespace(s[0]));
    assert(!crate::text::is_whitespace(s.last()));
    assert(crate::text::trim_start(s) == s);
    assert(crate::text::trim_end(s) == s);
}

} // verus!
