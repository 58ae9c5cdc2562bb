//! What holds of the integers, whatever their size.

use crate::integer::integer_literal;
use crate::integer::integer_text;
use crate::integer::is_digit_run;
use crate::integer::natural_text;
use crate::integer::truncated_quotient;
use crate::integer::unsigned_part;
use crate::laws::reading::lemma_natural_text;
use vstd::arithmetic::div_mod::lemma_fundamental_div_mod;
use vstd::arithmetic::div_mod::lemma_mod_bound;
use vstd::prelude::*;

verus! {

/// The decimal form of an integer is a literal that writes that integer.
pub proof fn lemma_integer_text_is_read_back(v: int)
    ensures
        integer_literal(integer_text(v)) == Some(v),
{
    if v < 0 {
        let digits = natural_text((-v) as nat);
        lemma_natural_text((-v) as nat);
        assert(unsigned_part(integer_text(v)) =~= digits);
        assert(is_digit_run(digits));
    } else {
        let digits = natural_text(v as nat);
        lemma_natural_text(v as nat);
        assert(unsigned_part(digits) == digits);
        assert(is_digit_run(digits));
    }
}

/// The size of an integer without its sign.
pub open spec fn magnitude(v: int) -> int {
    if v < 0 {
        -v
    } else {
        v
    }
}

/// Division rounds towards zero: what is left of the dividend is smaller
/// than the divisor, and has the sign of the dividend.
pub proof fn lemma_truncated_quotient(a: int, b: int)
    requires
        b != 0,
    ensures
        ({
            let rest = a - truncated_quotient(a, b) * b;
            &&& magnitude(rest) < magnitude(b)
            &&& a >= 0 ==> rest >= 0
            &&& a <= 0 ==> rest <= 0
        }),
{
    let x = magnitude(a);
    let d = magnitude(b);
    lemma_fundamental_div_mod(x, d);
    lemma_mod_bound(x, d);
    let q = x / d;
    assert(x - q * d == x % d) by (nonlinear_arith)
        requires
            x == d * q + x % d,
    ;
    assert(a - truncated_quotient(a, b) * b == if a >= 0 {
        x - q * d
    } else {
        -(x - q * d)
    }) by (nonlinear_arith)
        requires
            x == magnitude(a),
            d == magnitude(b),
            b != 0,
            truncated_quotient(a, b) == if (a >= 0) == (b > 0) {
                q
            } else {
                -q
            },
    ;
}

} // verus!
