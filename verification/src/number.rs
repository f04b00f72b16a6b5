//! Numbers as text.
use crate::text::chars_of;
use vstd::prelude::*;

verus! {

/// The value of a digit, in a base of at most ten.
pub open spec fn digit_value(c: char, base: nat) -> Option<nat> {
    if '0' <= c <= '9' && (c as u32 - '0' as u32) < base {
        Some((c as u32 - '0' as u32) as nat)
    } else {
        None
    }
}

/// Whether every character is a digit.
pub open spec fn all_digits(s: Seq<char>, base: nat) -> bool {
    forall|i: int| 0 <= i < s.len() ==> digit_value(#[trigger] s[i], base) is Some
}

/// The number that digits spell.
pub open spec fn digits_value(s: Seq<char>, base: nat) -> nat
    decreases s.len(),
{
    if s.len() == 0 {
        0
    } else {
        digits_value(s.drop_last(), base) * base + digit_value(s.last(), base)->0
    }
}

/// The digits of a text that spells an unsigned number: one plus sign may stand before them.
pub open spec fn number_digits(s: Seq<char>) -> Seq<char> {
    if s.len() > 0 && s[0] == '+' {
        s.drop_first()
    } else {
        s
    }
}

/// The unsigned number that a text spells, if it spells one that is at most `max`.
pub open spec fn number_in(s: Seq<char>, base: nat, max: nat) -> Option<nat> {
    let digits = number_digits(s);
    if digits.len() > 0 && all_digits(digits, base) && digits_value(digits, base) <= max {
        Some(digits_value(digits, base))
    } else {
        None
    }
}

proof fn lemma_prefix_smaller(s: Seq<char>, i: int, base: nat)
    requires
        0 <= i <= s.len(),
        base >= 1,
        all_digits(s, base),
    ensures
        digits_value(s.take(i), base) <= digits_value(s, base),
    decreases s.len() - i,
{
    if i == s.len() {
        assert(s.take(i) == s);
    } else {
        lemma_prefix_smaller(s, i + 1, base);
        assert(s.take(i + 1).drop_last() == s.take(i));
        let v = digits_value(s.take(i), base);
        assert(v * base >= v) by (nonlinear_arith)
            requires
                base >= 1,
        ;
    }
}

/// The unsigned number that a text spells in a base of at most ten, if it spells one that is at
/// most `max`.
pub fn parse_number(s: &str, base: u64, max: u64) -> (out: Option<u64>)
    requires
        2 <= base <= 10,
    ensures
        match number_in(s@, base as nat, max as nat) {
            Some(n) => out == Some(n as u64),
            None => out is None,
        },
{
    let chars = chars_of(s);
    let from: usize = if chars.len() > 0 && chars[0] == '+' { 1 } else { 0 };
    let ghost digits = number_digits(s@);
    assert(digits == chars@.skip(from as int));
    if from == chars.len() {
        return None;
    }
    let mut value: u64 = 0;
    let mut i: usize = from;
    assert(digits.take(0) == Seq::<char>::empty());
    while i < chars.len()
        invariant
            2 <= base <= 10,
            from <= i <= chars@.len(),
            digits == number_digits(s@),
            digits.len() > 0,
            digits == chars@.skip(from as int),
            all_digits(digits.take(i - from), base as nat),
            value == digits_value(digits.take(i - from), base as nat),
            value <= max,
        decreases chars@.len() - i,
    {
        let c = chars[i];
        assert(c == digits[i - from]);
        if !('0' <= c && c <= '9') || (c as u32 - '0' as u32) as u64 >= base {
            assert(digit_value(digits[i - from], base as nat) is None);
            assert(!all_digits(digits, base as nat));
            return None;
        }
        let d: u64 = (c as u32 - '0' as u32) as u64;
        assert(digits.take(i - from + 1).drop_last() == digits.take(i - from));
        assert(digits.take(i - from + 1).last() == c);
        let ghost next: nat = (value * base + d) as nat;
        assert(next == digits_value(digits.take(i - from + 1), base as nat));
        if d > max || value > (max - d) / base {
            proof {
                assert(next > max) by (nonlinear_arith)
                    requires
                        next == value * base + d,
                        base >= 2,
                        d > max || value as int > (max - d) as int / base as int,
                ;
                if all_digits(digits, base as nat) {
                    lemma_prefix_smaller(digits, i - from + 1, base as nat);
                }
            }
            return None;
        }
        proof {
            assert(next <= max) by (nonlinear_arith)
                requires
                    next == value * base + d,
                    base >= 2,
                    d <= max,
                    value as int <= (max - d) as int / base as int,
            ;
            assert(value * base <= max) by (nonlinear_arith)
                requires
                    next == value * base + d,
                    next <= max,
                    d >= 0,
            ;
        }
        value = value * base + d;
        i = i + 1;
        assert(all_digits(digits.take(i - from), base as nat)) by {
            assert forall|k: int| 0 <= k < i - from implies digit_value(
                #[trigger] digits.take(i - from)[k],
                base as nat,
            ) is Some by {
                if k < i - from - 1 {
                    assert(digits.take(i - from - 1)[k] == digits[k]);
                }
            }
        }
    }
    assert(digits.take(chars@.len() - from) == digits);
    Some(value)
}

/// The character of a digit below ten.
pub open spec fn digit_char(d: nat) -> char {
    (('0' as u32 + d) as u32) as char
}

/// A number in digits, without leading zeros.
pub open spec fn digits_of(n: nat, base: nat) -> Seq<char>
    decreases n,
{
    if base < 2 || n < base {
        seq![digit_char(n)]
    } else {
        proof {
            assert((n / base) < n) by (nonlinear_arith)
                requires
                    n >= base,
                    base >= 2,
            ;
        }
        digits_of(n / base, base).push(digit_char(n % base))
    }
}

/// A number in decimal digits.
pub open spec fn decimal(n: nat) -> Seq<char> {
    digits_of(n, 10)
}

/// A number in octal digits.
pub open spec fn octal(n: nat) -> Seq<char> {
    digits_of(n, 8)
}

/// The text of a number in a base of at most ten.
pub fn number_text(n: u64, base: u64) -> (out: String)
    requires
        2 <= base <= 10,
    ensures
        out@ == digits_of(n as nat, base as nat),
    decreases n,
{
    if n < base {
        let mut out = String::new();
        out.push((48u8 + n as u8) as char);
        assert(out@ == digits_of(n as nat, base as nat));
        out
    } else {
        proof {
            assert((n as int / base as int) < n) by (nonlinear_arith)
                requires
                    n >= base,
                    base >= 2,
            ;
        }
        let mut out = number_text(n / base, base);
        let d: u64 = n % base;
        out.push((48u8 + d as u8) as char);
        out
    }
}

/// Reading back the digits of a number gives the number.
pub proof fn law_number_round_trip(n: nat, base: nat, max: nat)
    requires
        2 <= base <= 10,
        n <= max,
    ensures
        number_in(digits_of(n, base), base, max) == Some(n),
{
    lemma_digits(n, base);
    assert(digits_of(n, base)[0] != '+');
}

/// A number in decimal digits has at least one, and nothing but digits.
pub proof fn lemma_decimal(n: nat)
    ensures
        decimal(n).len() > 0,
        forall|i: int| 0 <= i < decimal(n).len() ==> '0' <= #[trigger] decimal(n)[i] <= '9',
{
    lemma_digits(n, 10);
    assert forall|i: int| 0 <= i < decimal(n).len() implies '0' <= #[trigger] decimal(n)[i]
        <= '9' by {
        assert(digit_value(decimal(n)[i], 10) is Some);
    }
}

/// A number in octal digits has at least one, and nothing but octal digits.
pub proof fn lemma_octal(n: nat)
    ensures
        octal(n).len() > 0,
        forall|i: int| 0 <= i < octal(n).len() ==> '0' <= #[trigger] octal(n)[i] <= '7',
{
    lemma_digits(n, 8);
    assert forall|i: int| 0 <= i < octal(n).len() implies '0' <= #[trigger] octal(n)[i]
        <= '7' by {
        assert(digit_value(octal(n)[i], 8) is Some);
    }
}

proof fn lemma_digits(n: nat, base: nat)
    requires
        2 <= base <= 10,
    ensures
        digits_of(n, base).len() > 0,
        all_digits(digits_of(n, base), base),
        digits_value(digits_of(n, base), base) == n,
    decreases n,
{
    let s = digits_of(n, base);
    if n < base {
        assert(s.drop_last() == Seq::<char>::empty());
        assert(digits_value(s.drop_last(), base) == 0);
        assert(0 * base == 0);
        assert(s.last() == digit_char(n));
    } else {
        assert(n / base < n) by (nonlinear_arith)
            requires
                n >= base,
                base >= 2,
        ;
        assert(n % base < base && n == (n / base) * base + n % base) by (nonlinear_arith)
            requires
                base >= 2,
        ;
        lemma_digits(n / base, base);
        assert(s.drop_last() == digits_of(n / base, base));
        assert(s.last() == digit_char(n % base));
        assert forall|i: int| 0 <= i < s.len() implies digit_value(#[trigger] s[i], base) is Some by {
            if i < s.len() - 1 {
                assert(s[i] == digits_of(n / base, base)[i]);
            }
        }
    }
}

/// Digits count by their place: the number that is `base` times as large, and a digit more, is
/// written with that digit behind.
pub proof fn law_digits_count_by_their_place(n: nat, d: nat, base: nat)
    requires
        2 <= base <= 10,
        d < base,
        n > 0,
    ensures
        digits_of(n * base + d, base) == digits_of(n, base).push((48 + d) as char),
        digits_of(d, base) == seq![(48 + d) as char],
{
    let m = n * base + d;
    assert(m >= base) by (nonlinear_arith)
        requires
            m == n * base + d,
            n > 0,
            base >= 2,
    ;
    vstd::arithmetic::div_mod::lemma_fundamental_div_mod_converse(
        m as int,
        base as int,
        n as int,
        d as int,
    );
}

} // verus!
