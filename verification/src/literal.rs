//! The grammar of decimal literals.
//!
//! A decimal literal is what `str::parse` reads as a binary64 value. Which
//! texts those are is decided here; which value a literal has is
//! floating-point work, and no part of this crate.

use crate::integer::is_digit;
use crate::integer::unsigned_part;
use crate::token::lower;
use crate::token::is_symbol;
use crate::token::lowered;
use crate::token::spells;
use crate::token::writes;
use vstd::prelude::*;
use vstd::string::StrSliceExecFns;

verus! {

/// Digits around at most one point, with at least one digit: `12`, `12.`,
/// `.5` and `1.5`, but neither `.` nor `1.2.3`.
pub open spec fn is_mantissa(s: Seq<char>) -> bool {
    &&& forall|i: int| 0 <= i < s.len() ==> is_digit(#[trigger] s[i]) || s[i] == '.'
    &&& forall|i: int, j: int|
        0 <= i < j < s.len() ==> !(#[trigger] s[i] == '.' && #[trigger] s[j] == '.')
    &&& exists|i: int| 0 <= i < s.len() && is_digit(#[trigger] s[i])
}

/// What follows the letter of an exponent: an optional sign, then at least
/// one digit, and digits only.
pub open spec fn is_exponent(s: Seq<char>) -> bool {
    let body = unsigned_part(s);
    body.len() > 0 && forall|i: int| 0 <= i < body.len() ==> is_digit(#[trigger] body[i])
}

/// The place of the first `e` or `E` in `s`, or the length of `s` if it has
/// none.
pub open spec fn exponent_mark(s: Seq<char>) -> int
    decreases s.len(),
{
    if s.len() == 0 || lowered(s[0]) == 'e' {
        0
    } else {
        1 + exponent_mark(s.drop_first())
    }
}

/// A number without a sign: a mantissa, and after it possibly `e` or `E`
/// and an exponent.
pub open spec fn is_decimal_number(s: Seq<char>) -> bool {
    let k = exponent_mark(s);
    is_mantissa(s.take(k)) && (k == s.len() || is_exponent(s.skip(k + 1)))
}

/// How infinity is written, in short.
pub open spec fn inf_name() -> Seq<char> {
    seq!['i', 'n', 'f']
}

/// How infinity is written, in full.
pub open spec fn infinity_name() -> Seq<char> {
    seq!['i', 'n', 'f', 'i', 'n', 'i', 't', 'y']
}

/// How a value that is no number is written.
pub open spec fn nan_name() -> Seq<char> {
    seq!['n', 'a', 'n']
}

/// Whether `s` is a decimal literal: an optional sign, and then `inf`,
/// `infinity` or `nan` in any mix of upper and lower case, or a number.
pub open spec fn is_decimal_literal(s: Seq<char>) -> bool {
    let body = unsigned_part(s);
    spells(body, inf_name()) || spells(body, infinity_name()) || spells(body, nan_name())
        || is_decimal_number(body)
}

/// The mark of the exponent lies within the text, no `e` comes before it,
/// and where it lies within the text there is an `e`.
pub proof fn lemma_exponent_mark(s: Seq<char>)
    ensures
        0 <= exponent_mark(s) <= s.len(),
        forall|j: int| 0 <= j < exponent_mark(s) ==> lowered(#[trigger] s[j]) != 'e',
        exponent_mark(s) < s.len() ==> lowered(s[exponent_mark(s)]) == 'e',
    decreases s.len(),
{
    if s.len() > 0 && lowered(s[0]) != 'e' {
        let rest = s.drop_first();
        lemma_exponent_mark(rest);
        assert forall|j: int| 0 <= j < exponent_mark(s) implies lowered(#[trigger] s[j])
            != 'e' by {
            if j > 0 {
                assert(s[j] == rest[j - 1]);
            }
        }
    }
}

/// A lone symbol is no decimal literal.
pub proof fn lemma_symbol_is_no_literal(c: char)
    requires
        is_symbol(c),
    ensures
        !is_decimal_literal(seq![c]),
{
    let s = seq![c];
    let body = unsigned_part(s);
    assert(body.map_values(|x: char| lowered(x)).len() == body.len());
    if c == '+' || c == '-' {
        assert(body =~= Seq::<char>::empty());
        assert(body.take(exponent_mark(body)).len() == 0);
    } else {
        assert(body == s);
        assert(exponent_mark(s.drop_first()) == 0);
        assert(exponent_mark(s) == 1);
        assert(s.take(1)[0] == c);
    }
}

fn digit(c: char) -> (r: bool)
    ensures
        r == is_digit(c),
{
    '0' <= c && c <= '9'
}

/// Whether `body` is a number without a sign.
fn number(body: &str) -> (r: bool)
    ensures
        r == is_decimal_number(body@),
{
    let ghost s = body@;
    let n = body.unicode_len();
    let mut i: usize = 0;
    let mut stop = false;
    let mut digits = false;
    let mut points: u8 = 0;
    let ghost mut first: int = 0;
    let ghost mut second: int = 0;
    let ghost mut some_digit: int = 0;
    while i < n && !stop
        invariant
            i <= n,
            n == s.len(),
            s == body@,
            forall|j: int| 0 <= j < i ==> is_digit(#[trigger] s[j]) || s[j] == '.',
            stop ==> i < n && !is_digit(s[i as int]) && s[i as int] != '.',
            digits ==> 0 <= some_digit < i && is_digit(s[some_digit]),
            !digits ==> forall|j: int| 0 <= j < i ==> !is_digit(#[trigger] s[j]),
            points <= 2,
            points == 0 ==> forall|j: int| 0 <= j < i ==> #[trigger] s[j] != '.',
            points >= 1 ==> 0 <= first < i && s[first] == '.',
            points == 1 ==> forall|j: int| 0 <= j < i && j != first ==> #[trigger] s[j] != '.',
            points == 2 ==> first < second < i && s[second] == '.',
        decreases n - i + (if stop { 0int } else { 1int }),
    {
        let c = body.get_char(i);
        if digit(c) {
            digits = true;
            proof {
                some_digit = i as int;
            }
            i += 1;
        } else if c == '.' {
            if points == 0 {
                points = 1;
                proof {
                    first = i as int;
                }
            } else if points == 1 {
                points = 2;
                proof {
                    second = i as int;
                }
            }
            i += 1;
        } else {
            stop = true;
        }
    }
    let sound = digits && points <= 1;
    proof {
        lemma_exponent_mark(s);
        let head = s.take(i as int);
        if digits {
            assert(is_digit(head[some_digit]));
        }
        if points == 2 {
            assert(head[first] == '.' && head[second] == '.');
        }
    }
    if i == n {
        return sound;
    }
    let c = body.get_char(i);
    if lower(c) != 'e' {
        proof {
            let k = exponent_mark(s);
            assert(s.take(k)[i as int] == s[i as int]);
        }
        return false;
    }
    if !sound {
        return false;
    }
    let ghost tail = s.skip(i as int + 1);
    let mut j: usize = i + 1;
    if j < n {
        let sign = body.get_char(j);
        if sign == '+' || sign == '-' {
            j += 1;
        }
    }
    assert(unsigned_part(tail) =~= s.skip(j as int));
    if j == n {
        return false;
    }
    let ghost power = s.skip(j as int);
    let from = j;
    assert(is_decimal_number(s) == (forall|k: int|
        0 <= k < power.len() ==> is_digit(#[trigger] power[k])));
    while j < n
        invariant
            from <= j <= n,
            n == s.len(),
            s == body@,
            power == s.skip(from as int),
            is_decimal_number(s) == (forall|k: int|
                0 <= k < power.len() ==> is_digit(#[trigger] power[k])),
            forall|k: int| 0 <= k < j - from ==> is_digit(#[trigger] power[k]),
        decreases n - j,
    {
        if !digit(body.get_char(j)) {
            assert(power[j - from] == s[j as int]);
            return false;
        }
        j += 1;
    }
    true
}

/// Whether `t` is a decimal literal.
pub fn is_decimal(t: &str) -> (r: bool)
    ensures
        r == is_decimal_literal(t@),
{
    let n = t.unicode_len();
    let mut start: usize = 0;
    if n > 0 {
        let c = t.get_char(0);
        if c == '+' || c == '-' {
            start = 1;
        }
    }
    let body = t.substring_char(start, n);
    proof {
        assert(body@ =~= unsigned_part(t@));
        reveal_strlit("inf");
        reveal_strlit("infinity");
        reveal_strlit("nan");
        assert("inf"@ =~= inf_name());
        assert("infinity"@ =~= infinity_name());
        assert("nan"@ =~= nan_name());
    }
    if writes(body, "inf") || writes(body, "infinity") || writes(body, "nan") {
        return true;
    }
    number(body)
}

} // verus!
