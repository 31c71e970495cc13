//! Text primitives: UTF-8 decoding, decimal integers and string building.

use vstd::prelude::*;
use vstd::string::StringExecFns;
use vstd::utf8::{decode_utf8, valid_utf8};

verus! {

/// Relies on `std::str::from_utf8`: it accepts exactly the byte sequences that
/// are valid UTF-8, and the string it gives holds the characters they encode.
#[verifier::external_body]
pub(crate) fn decode_bytes(bytes: &[u8]) -> (r: Option<String>)
    ensures
        r is Some <==> valid_utf8(bytes@),
        r matches Some(s) ==> s@ == decode_utf8(bytes@),
{
    match std::str::from_utf8(bytes) {
        Ok(s) => Some(s.to_string()),
        Err(_) => None,
    }
}

/// Relies on `String::push`: the character is added at the end.
#[verifier::external_body]
pub(crate) fn push_char(s: &mut String, c: char)
    ensures
        final(s)@ == old(s)@.push(c),
{
    s.push(c)
}

/// Relies on `str::chars`: the characters of the string, in order.
#[verifier::external_body]
pub(crate) fn chars_of(s: &str) -> (r: Vec<char>)
    ensures
        r@ == s@,
{
    s.chars().collect()
}

/// The decimal digit for `d`.
pub open spec fn digit_char(d: nat) -> char {
    if d == 0 {
        '0'
    } else if d == 1 {
        '1'
    } else if d == 2 {
        '2'
    } else if d == 3 {
        '3'
    } else if d == 4 {
        '4'
    } else if d == 5 {
        '5'
    } else if d == 6 {
        '6'
    } else if d == 7 {
        '7'
    } else if d == 8 {
        '8'
    } else {
        '9'
    }
}

/// The decimal spelling of `n`, without sign or leading zeros.
pub open spec fn decimal(n: nat) -> Seq<char>
    decreases n,
{
    if n < 10 {
        seq![digit_char(n)]
    } else {
        decimal(n / 10).push(digit_char(n % 10))
    }
}

fn digit(d: usize) -> (c: char)
    requires
        d < 10,
    ensures
        c == digit_char(d as nat),
{
    if d == 0 {
        '0'
    } else if d == 1 {
        '1'
    } else if d == 2 {
        '2'
    } else if d == 3 {
        '3'
    } else if d == 4 {
        '4'
    } else if d == 5 {
        '5'
    } else if d == 6 {
        '6'
    } else if d == 7 {
        '7'
    } else if d == 8 {
        '8'
    } else {
        '9'
    }
}

/// `n` in decimal, as `usize`'s `Display` writes it.
pub(crate) fn decimal_text(n: usize) -> (r: String)
    ensures
        r@ == decimal(n as nat),
    decreases n,
{
    let mut out = if n < 10 {
        String::new()
    } else {
        decimal_text(n / 10)
    };
    push_char(&mut out, digit(n % 10));
    proof {
        if n < 10 {
            assert(out@ =~= seq![digit_char(n as nat)]);
        }
    }
    out
}

/// Appends `t` to `s`.
pub(crate) fn push_text(s: &mut String, t: &str)
    ensures
        final(s)@ == old(s)@ + t@,
{
    s.append(t);
}

/// A copy of `t` as an owned string.
pub(crate) fn owned(t: &str) -> (r: String)
    ensures
        r@ == t@,
{
    String::from_str(t)
}

pub open spec fn is_digit(c: char) -> bool {
    '0' <= c <= '9'
}

/// A non-empty run of ASCII decimal digits.
pub open spec fn is_digits(s: Seq<char>) -> bool {
    s.len() > 0 && forall|i: int| 0 <= i < s.len() ==> is_digit(#[trigger] s[i])
}

/// The number that a run of decimal digits spells.
pub open spec fn digits_value(s: Seq<char>) -> nat
    decreases s.len(),
{
    if s.len() == 0 {
        0
    } else {
        digits_value(s.drop_last()) * 10 + ((s.last() as int - '0' as int) as nat)
    }
}

/// The text after an optional leading `+`.
pub open spec fn without_plus(s: Seq<char>) -> Seq<char> {
    if s.len() > 0 && s[0] == '+' {
        s.skip(1)
    } else {
        s
    }
}

/// What `usize::from_str` reads from `s`: an optional `+`, then decimal
/// digits whose value fits.
pub open spec fn unsigned_decimal(s: Seq<char>) -> Option<usize> {
    let d = without_plus(s);
    if is_digits(d) && digits_value(d) <= usize::MAX {
        Some(digits_value(d) as usize)
    } else {
        None
    }
}

/// What `isize::from_str` reads from `s`: an optional `+` or `-`, then
/// decimal digits whose signed value fits.
pub open spec fn signed_decimal(s: Seq<char>) -> Option<isize> {
    if s.len() > 0 && s[0] == '-' {
        let d = s.skip(1);
        if is_digits(d) && digits_value(d) <= -(isize::MIN as int) {
            Some((-(digits_value(d) as int)) as isize)
        } else {
            None
        }
    } else {
        let d = without_plus(s);
        if is_digits(d) && digits_value(d) <= isize::MAX {
            Some(digits_value(d) as isize)
        } else {
            None
        }
    }
}

proof fn lemma_digits_step(t: Seq<char>, start: int, i: int)
    requires
        0 <= start <= i < t.len(),
    ensures
        t.subrange(start, i + 1).drop_last() == t.subrange(start, i),
        t.subrange(start, i + 1).last() == t[i],
        digits_value(t.subrange(start, i + 1)) == digits_value(t.subrange(start, i)) * 10 + ((
        t[i] as int - '0' as int) as nat),
{
    assert(t.subrange(start, i + 1).drop_last() =~= t.subrange(start, i));
}

/// The value of the characters of `t` from `start` on, where they are all
/// decimal digits and their value is at most `limit`.
fn read_digits(t: &Vec<char>, start: usize, limit: usize) -> (r: Option<usize>)
    requires
        start <= t@.len(),
        limit >= 9,
    ensures
        r == if is_digits(t@.skip(start as int)) && digits_value(t@.skip(start as int)) <= limit {
            Some(digits_value(t@.skip(start as int)) as usize)
        } else {
            None::<usize>
        },
{
    let ghost d = t@.skip(start as int);
    if start >= t.len() {
        return None;
    }
    let mut acc: usize = 0;
    let mut over = false;
    let mut i: usize = start;
    assert(t@.subrange(start as int, start as int) =~= Seq::<char>::empty());
    while i < t.len()
        invariant
            start <= i <= t@.len(),
            start < t@.len(),
            limit >= 9,
            d == t@.skip(start as int),
            forall|k: int| start <= k < i ==> is_digit(#[trigger] t@[k]),
            !over ==> acc == digits_value(t@.subrange(start as int, i as int)) && acc <= limit,
            over ==> digits_value(t@.subrange(start as int, i as int)) > limit,
        decreases t@.len() - i,
    {
        let c = t[i];
        if !('0' <= c && c <= '9') {
            assert(d[i - start] == c);
            assert(!is_digits(d));
            return None;
        }
        let v = ((c as u32) - ('0' as u32)) as usize;
        proof {
            lemma_digits_step(t@, start as int, i as int);
        }
        if !over {
            if acc > (limit - v) / 10 {
                assert(acc * 10 + v > limit) by (nonlinear_arith)
                    requires
                        acc > (limit - v) / 10,
                        v <= 9,
                        limit >= 9,
                ;
                over = true;
            } else {
                assert(acc * 10 + v <= limit) by (nonlinear_arith)
                    requires
                        acc <= (limit - v) / 10,
                        v <= 9,
                        limit >= 9,
                ;
                acc = acc * 10 + v;
            }
        }
        i = i + 1;
    }
    assert(t@.subrange(start as int, t@.len() as int) =~= d);
    assert(is_digits(d));
    if over {
        None
    } else {
        Some(acc)
    }
}

/// What `usize::from_str` gives: an optional `+` followed by ASCII decimal
/// digits, and no overflow.
pub(crate) fn parse_unsigned(s: &str) -> (r: Option<usize>)
    ensures
        r == unsigned_decimal(s@),
{
    let t = chars_of(s);
    let start: usize = if t.len() > 0 && t[0] == '+' {
        1
    } else {
        0
    };
    assert(t@.skip(start as int) == without_plus(s@));
    read_digits(&t, start, usize::MAX)
}

/// What `isize::from_str` gives: an optional `+` or `-` followed by ASCII
/// decimal digits, and no overflow.
pub(crate) fn parse_signed(s: &str) -> (r: Option<isize>)
    ensures
        r == signed_decimal(s@),
{
    let t = chars_of(s);
    if t.len() > 0 && t[0] == '-' {
        let magnitude = (isize::MAX as usize) + 1;
        match read_digits(&t, 1, magnitude) {
            Some(v) => {
                if v == magnitude {
                    Some(isize::MIN)
                } else {
                    Some(-(v as isize))
                }
            },
            None => None,
        }
    } else {
        let start: usize = if t.len() > 0 && t[0] == '+' {
            1
        } else {
            0
        };
        assert(t@.skip(start as int) == without_plus(s@));
        match read_digits(&t, start, isize::MAX as usize) {
            Some(v) => Some(v as isize),
            None => None,
        }
    }
}

} // verus!
