//! Numbers as text: permission modes written in octal, counts written in
//! decimal.

use vstd::prelude::*;
use crate::text::chars_of;

verus! {

/// `c` is one of `0` to `7`.
pub open spec fn is_octal_digit(c: char) -> bool {
    48 <= c as int <= 55
}

/// The value of a string of octal digits, most significant first; none when
/// a character is no octal digit.
pub open spec fn octal_digits_value(d: Seq<char>) -> Option<nat>
    decreases d.len(),
{
    if d.len() == 0 {
        Some(0nat)
    } else {
        match octal_digits_value(d.drop_last()) {
            Some(v) if is_octal_digit(d.last()) => Some((v * 8 + (d.last() as int - 48)) as nat),
            _ => None,
        }
    }
}

/// The 16-bit value that `s` denotes in octal: an optional `+`, then at
/// least one octal digit, the whole no larger than 16 bits hold.
pub open spec fn octal_value(s: Seq<char>) -> Option<u16> {
    let d = if s.len() > 0 && s[0] == '+' {
        s.skip(1)
    } else {
        s
    };
    match octal_digits_value(d) {
        Some(v) if d.len() > 0 && v <= 0xffff => Some(v as u16),
        _ => None,
    }
}

/// The character for a decimal digit.
pub open spec fn digit_char(d: nat) -> char {
    (48 + d) as char
}

/// `n` written in decimal, without leading zeros.
pub open spec fn decimal_text(n: nat) -> Seq<char>
    decreases n,
{
    if n < 10 {
        seq![digit_char(n)]
    } else {
        decimal_text(n / 10).push(digit_char(n % 10))
    }
}

/// Where a string of digits has a value, so has each of its beginnings, and
/// none of them is larger.
pub proof fn lemma_octal_prefix(d: Seq<char>, k: int)
    requires
        0 <= k <= d.len(),
    ensures
        octal_digits_value(d) is Some ==> octal_digits_value(d.take(k)) is Some
            && octal_digits_value(d.take(k))->Some_0 <= octal_digits_value(d)->Some_0,
    decreases d.len(),
{
    if k == d.len() {
        assert(d.take(k) =~= d);
    } else {
        assert(d.drop_last().take(k) =~= d.take(k));
        lemma_octal_prefix(d.drop_last(), k);
    }
}

/// The code point of a character fits in 32 bits.
pub proof fn lemma_code_point(c: char)
    ensures
        (c as u32) as int == c as int,
{
}

/// Reads a permission mode written in octal.
pub fn parse_octal(s: &str) -> (r: Option<u16>)
    ensures
        r == octal_value(s@),
{
    let chars = chars_of(s);
    let start: usize = if chars.len() > 0 && chars[0] == '+' {
        1
    } else {
        0
    };
    let ghost d = if s@.len() > 0 && s@[0] == '+' {
        s@.skip(1)
    } else {
        s@
    };
    if start == chars.len() {
        return None;
    }
    let mut value: u32 = 0;
    let mut i: usize = start;
    assert(d.take(0) =~= Seq::<char>::empty());
    while i < chars.len()
        invariant
            start <= i <= chars.len(),
            chars@ == s@,
            d == (if s@.len() > 0 && s@[0] == '+' {
                s@.skip(1)
            } else {
                s@
            }),
            d.len() == chars.len() - start,
            forall|k: int| 0 <= k < d.len() ==> d[k] == chars@[start + k],
            octal_digits_value(d.take(i - start)) == Some(value as nat),
            value <= 0xffff,
        decreases chars.len() - i,
    {
        let code = chars[i] as u32;
        let ghost upto = d.take(i - start + 1);
        proof {
            assert(upto.drop_last() =~= d.take(i - start));
            assert(upto.last() == chars@[i as int]);
            lemma_octal_prefix(d, i - start + 1);
            lemma_code_point(chars@[i as int]);
        }
        if code < 48 || code > 55 {
            return None;
        }
        let next = value * 8 + (code - 48);
        if next > 0xffff {
            return None;
        }
        value = next;
        i += 1;
    }
    assert(d.take(i - start) =~= d);
    Some(value as u16)
}

/// The text of one decimal digit.
fn digit_text(d: u64) -> (r: &'static str)
    requires
        d < 10,
    ensures
        r@ == seq![digit_char(d as nat)],
{
    proof {
        reveal_strlit("0");
        reveal_strlit("1");
        reveal_strlit("2");
        reveal_strlit("3");
        reveal_strlit("4");
        reveal_strlit("5");
        reveal_strlit("6");
        reveal_strlit("7");
        reveal_strlit("8");
        reveal_strlit("9");
    }
    let r = if d == 0 {
        "0"
    } else if d == 1 {
        "1"
    } else if d == 2 {
        "2"
    } else if d == 3 {
        "3"
    } else if d == 4 {
        "4"
    } else if d == 5 {
        "5"
    } else if d == 6 {
        "6"
    } else if d == 7 {
        "7"
    } else if d == 8 {
        "8"
    } else {
        "9"
    };
    assert(r@ =~= seq![digit_char(d as nat)]);
    r
}

/// `n` written in decimal.
pub fn decimal(n: u64) -> (r: String)
    ensures
        r@ == decimal_text(n as nat),
    decreases n,
{
    if n < 10 {
        digit_text(n).to_owned()
    } else {
        let mut out = decimal(n / 10);
        out.append(digit_text(n % 10));
        out
    }
}

} // verus!
