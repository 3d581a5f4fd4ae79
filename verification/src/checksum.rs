//! ISO 7064 MOD 97-10 checksum arithmetic over base-36 digit strings.
//!
//! A string over the alphabet `0-9`, `A-Z` (and, case-insensitively, `a-z`)
//! is read as one long decimal numeral: each digit contributes one decimal
//! digit, each letter two (its value 10-35).  The residue of that numeral
//! modulo 97 is computed by a left-to-right Horner fold that never
//! materialises the full number.  A candidate LEI is checksum-correct
//! exactly when the residue over all 20 characters equals 1.

use vstd::arithmetic::div_mod::{
    lemma_add_mod_noop, lemma_fundamental_div_mod, lemma_mod_multiples_vanish,
    lemma_mul_mod_noop_left,
};
use vstd::prelude::*;

verus! {

/// A character the checksum engine accepts: a base-36 digit,
/// i.e. `'0'-'9'`, `'A'-'Z'` or `'a'-'z'`.
pub open spec fn is_digit36(c: char) -> bool {
    (48 <= c as int && c as int <= 57) || (65 <= c as int && c as int <= 90) || (97 <= c as int
        && c as int <= 122)
}

/// An uppercase base-36 digit: `'0'-'9'` or `'A'-'Z'`.
pub open spec fn is_upper_digit36(c: char) -> bool {
    (48 <= c as int && c as int <= 57) || (65 <= c as int && c as int <= 90)
}

/// Numeric value of a base-36 digit: `'0'-'9'` map to 0-9 and letters map
/// to 10-35, case-insensitively.
pub open spec fn digit36_value(c: char) -> int {
    if 48 <= c as int && c as int <= 57 {
        c as int - 48
    } else if 65 <= c as int && c as int <= 90 {
        c as int - 55
    } else {
        c as int - 87
    }
}

/// Every character of `s` is a base-36 digit.
pub open spec fn all_digit36(s: Seq<char>) -> bool {
    forall|i: int| 0 <= i < s.len() ==> is_digit36(#[trigger] s[i])
}

/// The ISO 7064 MOD 97-10 residue of `s`, by Horner's method: a digit
/// multiplies the accumulator by 10, a letter by 100 (it stands for two
/// decimal digits).  The empty string has residue 0.  Only meaningful when
/// `all_digit36(s)` holds.
pub open spec fn mod97_spec(s: Seq<char>) -> int
    decreases s.len(),
{
    if s.len() == 0 {
        0
    } else {
        let d = digit36_value(s.last());
        let m: int = if d > 9 {
            100
        } else {
            10
        };
        (mod97_spec(s.drop_last()) * m + d) % 97
    }
}

/// The number denoted by `s` read as one long decimal numeral: each digit
/// contributes one decimal digit, each letter the two decimal digits of
/// its value 10-35.  Only meaningful when `all_digit36(s)` holds.
pub open spec fn numeral_value(s: Seq<char>) -> int
    decreases s.len(),
{
    if s.len() == 0 {
        0
    } else {
        let d = digit36_value(s.last());
        let m: int = if d > 9 {
            100
        } else {
            10
        };
        numeral_value(s.drop_last()) * m + d
    }
}

/// The Horner fold computes exactly the residue of the full decimal
/// numeral, without ever materialising it.
pub proof fn lemma_mod97_is_numeral_residue(s: Seq<char>)
    ensures
        mod97_spec(s) == numeral_value(s) % 97,
    decreases s.len(),
{
    if s.len() > 0 {
        let t = s.drop_last();
        let d = digit36_value(s.last());
        let m: int = if d > 9 {
            100
        } else {
            10
        };
        lemma_mod97_is_numeral_residue(t);
        lemma_mul_mod_noop_left(numeral_value(t), m, 97);
        lemma_add_mod_noop(numeral_value(t) * m, d, 97);
        lemma_add_mod_noop(numeral_value(t) % 97 * m, d, 97);
        assert((numeral_value(t) % 97 * m % 97 + d % 97) % 97 == (numeral_value(t) % 97 * m + d)
            % 97);
        assert((numeral_value(t) * m % 97 + d % 97) % 97 == (numeral_value(t) * m + d) % 97);
    }
}

/// Position of the leftmost character of `s` that is not a base-36 digit
/// (meaningful only when such a character exists).
pub open spec fn first_invalid(s: Seq<char>) -> int
    decreases s.len(),
{
    if s.len() == 0 {
        0
    } else if !is_digit36(s[0]) {
        0
    } else {
        1 + first_invalid(s.subrange(1, s.len() as int))
    }
}

/// A structurally valid LEI: exactly 20 base-36 digits whose MOD 97-10
/// residue is 1.
pub open spec fn valid_lei(s: Seq<char>) -> bool {
    s.len() == 20 && all_digit36(s) && mod97_spec(s) == 1
}

/// The residue always lies in `[0, 97)`.
pub proof fn lemma_mod97_bound(s: Seq<char>)
    ensures
        0 <= mod97_spec(s) < 97,
{
    if s.len() == 0 {
    }
}

/// `first_invalid` indeed points at a non-digit character, and every
/// character to its left is a base-36 digit: the scan is left-to-right and
/// reports the first offender.
pub proof fn lemma_first_invalid(s: Seq<char>)
    requires
        !all_digit36(s),
    ensures
        0 <= first_invalid(s) < s.len(),
        !is_digit36(s[first_invalid(s)]),
        forall|j: int| 0 <= j < first_invalid(s) ==> is_digit36(#[trigger] s[j]),
    decreases s.len(),
{
    let k = choose|k: int| 0 <= k < s.len() && !is_digit36(s[k]);
    if is_digit36(s[0]) {
        let t = s.subrange(1, s.len() as int);
        assert(t[k - 1] == s[k]);
        assert(!all_digit36(t));
        lemma_first_invalid(t);
        let i = first_invalid(t);
        assert(s[1 + i] == t[i]);
        assert forall|j: int| 0 <= j < 1 + i implies is_digit36(#[trigger] s[j]) by {
            if j >= 1 {
                assert(t[j - 1] == s[j]);
            }
        }
    }
}

/// Core arithmetic of check-digit completion: if `r` is the residue of a
/// string extended by the placeholder digits "00", then appending instead
/// the two decimal digits of `98 - r` yields residue 1.
proof fn lemma_mod97_complete(a: int, r: int, d1: int, d2: int)
    requires
        0 <= a < 97,
        r == ((a * 10) % 97 * 10) % 97,
        0 <= d1 <= 9,
        0 <= d2 <= 9,
        10 * d1 + d2 == 98 - r,
    ensures
        ((a * 10 + d1) % 97 * 10 + d2) % 97 == 1,
{
    let x = a * 10 + d1;
    lemma_mul_mod_noop_left(a * 10, 10, 97);
    assert(r == (a * 10 * 10) % 97);
    lemma_mul_mod_noop_left(x, 10, 97);
    assert((x % 97 * 10) % 97 == (x * 10) % 97);
    lemma_add_mod_noop(x % 97 * 10, d2, 97);
    assert((x % 97 * 10 % 97 + d2 % 97) % 97 == (x % 97 * 10 + d2) % 97);
    lemma_add_mod_noop(x * 10, d2, 97);
    assert(((x * 10) % 97 + d2 % 97) % 97 == (x * 10 + d2) % 97);
    assert((x % 97 * 10 + d2) % 97 == (x * 10 + d2) % 97);
    assert(x * 10 + d2 == a * 100 + 10 * d1 + d2) by (nonlinear_arith)
        requires
            x == a * 10 + d1,
    ;
    assert(a * 10 * 10 == a * 100) by (nonlinear_arith);
    lemma_fundamental_div_mod(a * 100, 97);
    let q = a * 100 / 97;
    assert(a * 100 == 97 * q + r);
    assert(x * 10 + d2 == 97 * q + 98 - r + r - 98 + a * 100 - a * 100 + 98 - r + r);
    assert(x * 10 + d2 == 97 * q + 98);
    assert(97 * q + 98 == 97 * (q + 1) + 1) by (nonlinear_arith);
    lemma_mod_multiples_vanish(q + 1, 1, 97);
    assert((97 * (q + 1) + 1) % 97 == 1int % 97);
}

/// Check-digit completion, stated over character sequences: let `r` be the
/// residue of `base` extended by the placeholder `"00"`.  Appending to
/// `base` the two decimal digit characters of `98 - r` instead produces a
/// string whose residue is exactly 1.  This is the identity the generator
/// relies on.
pub proof fn lemma_append_check_digits(base: Seq<char>, c1: char, c2: char)
    requires
        is_digit36(c1),
        is_digit36(c2),
        digit36_value(c1) <= 9,
        digit36_value(c2) <= 9,
        10 * digit36_value(c1) + digit36_value(c2) == 98 - mod97_spec(base.push('0').push('0')),
    ensures
        mod97_spec(base.push(c1).push(c2)) == 1,
{
    let a = mod97_spec(base);
    lemma_mod97_bound(base);
    let p1 = base.push('0');
    let p2 = p1.push('0');
    assert(p2.drop_last() =~= p1);
    assert(p1.drop_last() =~= base);
    assert(p1.last() == '0');
    assert(p2.last() == '0');
    assert(digit36_value('0') == 0);
    let r = mod97_spec(p2);
    assert(mod97_spec(p1) == (mod97_spec(p1.drop_last()) * 10 + 0) % 97);
    assert(mod97_spec(p1) == (a * 10) % 97);
    assert(r == (mod97_spec(p2.drop_last()) * 10 + 0) % 97);
    assert(r == ((a * 10) % 97 * 10) % 97);
    let q1 = base.push(c1);
    let q2 = q1.push(c2);
    assert(q2.drop_last() =~= q1);
    assert(q1.drop_last() =~= base);
    assert(q1.last() == c1);
    assert(q2.last() == c2);
    let d1 = digit36_value(c1);
    let d2 = digit36_value(c2);
    assert(0 <= d1 && 0 <= d2);
    assert(mod97_spec(q1) == (mod97_spec(q1.drop_last()) * 10 + d1) % 97);
    assert(mod97_spec(q1) == (a * 10 + d1) % 97);
    assert(mod97_spec(q2) == (mod97_spec(q2.drop_last()) * 10 + d2) % 97);
    assert(mod97_spec(q2) == ((a * 10 + d1) % 97 * 10 + d2) % 97);
    lemma_mod97_complete(a, r, d1, d2);
}

} // verus!
