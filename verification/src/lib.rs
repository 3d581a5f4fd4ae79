//! Legal Entity Identifiers (ISO 17442).
//!
//! An LEI is a 20-character alphanumeric code protected by the ISO 7064
//! MOD 97-10 checksum.  This crate validates and parses candidate codes,
//! generates random codes that pass its own validation, and answers
//! membership queries against the fixed list of known Registration
//! Authority codes.

use vstd::prelude::*;

pub mod checksum;
pub mod lei;
/// Functionality related to registration authorities.
pub mod registration_authority;

use checksum::{
    all_digit36, digit36_value, first_invalid, is_digit36, is_upper_digit36, lemma_first_invalid,
    mod97_spec, valid_lei,
};

verus! {

/// The errors emitted when parsing a LEI.
#[derive(Debug, PartialEq, Eq)]
pub enum Error {
    /// The input's length differs from the required 20; carries the
    /// observed length.
    InvalidLength(usize),
    /// The input is 20 base-36 digits, but its MOD 97-10 residue is not 1.
    InvalidChecksum,
    /// The input holds a character outside the base-36 alphabet; carries
    /// the leftmost such position and the character found there.
    InvalidChar { pos: usize, char: char },
}

/// ISO 7064 MOD 97-10 residue of `lei`, by a single left-to-right Horner
/// pass.  Fails at the first character outside the base-36 alphabet,
/// reporting its position and the character itself.
pub fn mod_97(lei: &str) -> (r: Result<u32, Error>)
    ensures
        r is Ok <==> all_digit36(lei@),
        all_digit36(lei@) ==> r == Ok::<u32, Error>(mod97_spec(lei@) as u32),
        !all_digit36(lei@) ==> r == Err::<u32, Error>(
            (Error::InvalidChar { pos: first_invalid(lei@) as usize, char: lei@[first_invalid(lei@)] }),
        ),
{
    let n: usize = lei.unicode_len();
    let mut acc: u32 = 0;
    let mut i: usize = 0;
    while i < n
        invariant
            n == lei@.len(),
            0 <= i <= n,
            forall|j: int| 0 <= j < i ==> is_digit36(#[trigger] lei@[j]),
            acc == mod97_spec(lei@.take(i as int)),
            acc < 97,
        decreases n - i,
    {
        let c = lei.get_char(i);
        let u = c as u32;
        let digit: u32 = if 48 <= u && u <= 57 {
            u - 48
        } else if 65 <= u && u <= 90 {
            u - 55
        } else if 97 <= u && u <= 122 {
            u - 87
        } else {
            proof {
                assert(!is_digit36(lei@[i as int]));
                assert(!all_digit36(lei@));
                lemma_first_invalid(lei@);
                let f = first_invalid(lei@);
                if f < i {
                    assert(is_digit36(lei@[f]));
                }
                assert(f == i);
            }
            return Err(Error::InvalidChar { pos: i, char: c });
        };
        proof {
            assert(is_digit36(lei@[i as int]));
            assert(digit == digit36_value(lei@[i as int]));
        }
        let multiplier: u32 = if digit > 9 {
            100
        } else {
            10
        };
        acc = (acc * multiplier + digit) % 97;
        proof {
            let t = lei@.take(i as int + 1);
            assert(t.drop_last() =~= lei@.take(i as int));
            assert(t.last() == lei@[i as int]);
        }
        i += 1;
    }
    proof {
        assert(lei@.take(n as int) =~= lei@);
    }
    Ok(acc)
}

/// A string passes the checksum exactly when every character is a base-36
/// digit and the MOD 97-10 residue over the whole string equals 1.
pub fn validate_checksum(lei: &str) -> (r: bool)
    ensures
        r == (all_digit36(lei@) && mod97_spec(lei@) == 1),
{
    match mod_97(lei) {
        Ok(m) => m == 1,
        Err(_) => false,
    }
}

/// The outcome of parsing, at the level of character sequences: the length
/// check first, then the character scan, then the residue check.  `try_from`
/// is proved to return exactly this.
pub open spec fn parse_result(s: Seq<char>) -> Result<Seq<char>, Error> {
    if s.len() != 20 {
        Err(Error::InvalidLength(s.len() as usize))
    } else if !all_digit36(s) {
        Err(Error::InvalidChar { pos: first_invalid(s) as usize, char: s[first_invalid(s)] })
    } else if mod97_spec(s) != 1 {
        Err(Error::InvalidChecksum)
    } else {
        Ok(s)
    }
}

/// Round trip: a structurally valid sequence of characters parses back to
/// exactly itself.  Together with the generator's postcondition (its output
/// satisfies `valid_lei`) and `to_string` (the view is preserved), every
/// generated LEI re-parses successfully to an equal value.
pub proof fn lemma_parse_round_trip(s: Seq<char>)
    requires
        valid_lei(s),
    ensures
        parse_result(s) == Ok::<Seq<char>, Error>(s),
{
}

/// A 20-character Legal Entity Identifier.  The checksum validation happens
/// according to ISO 7064, similarly to IBAN numbers.  Construction is the
/// single validation gate: every value of this type holds a string that
/// passed `try_from` in full, and is immutable afterwards.
#[derive(Debug, PartialEq, Eq)]
pub struct LEI {
    lei: String,
}

impl Clone for LEI {
    fn clone(&self) -> (r: Self)
        ensures
            r@ == self@,
    {
        proof {
            use_type_invariant(self);
        }
        LEI { lei: self.lei.clone() }
    }
}

impl View for LEI {
    type V = Seq<char>;

    closed spec fn view(&self) -> Seq<char> {
        self.lei@
    }
}

impl LEI {
    /// No partially-valid LEI exists: every value satisfies `valid_lei`.
    #[verifier::type_invariant]
    pub closed spec fn inv(self) -> bool {
        valid_lei(self.lei@)
    }

    /// Parse an arbitrary string: the length check, the character scan and
    /// the checksum check, in that order.  Returns the validated,
    /// immutable LEI holding the caller's exact characters.
    pub fn try_from(from: &str) -> (r: Result<LEI, Error>)
        ensures
            r is Ok <==> valid_lei(from@),
            match r {
                Ok(l) => parse_result(from@) == Ok::<Seq<char>, Error>(l@) && l@ == from@,
                Err(e) => parse_result(from@) == Err::<Seq<char>, Error>(e),
            },
    {
        let n = from.unicode_len();
        if n != 20 {
            return Err(Error::InvalidLength(n));
        }
        match mod_97(from) {
            Err(e) => Err(e),
            Ok(m) => {
                if m != 1 {
                    Err(Error::InvalidChecksum)
                } else {
                    Ok(LEI { lei: from.to_owned() })
                }
            },
        }
    }

    /// The exact 20-character canonical form held internally.
    pub fn to_string(&self) -> (r: String)
        ensures
            r@ == self@,
    {
        self.lei.clone()
    }

    /// The issuing Local Operating Unit: characters 0-3.
    pub fn lou(&self) -> (r: String)
        ensures
            r@ == self@.subrange(0, 4),
    {
        proof {
            use_type_invariant(self);
        }
        self.lei.as_str().substring_char(0, 4).to_owned()
    }

    /// The LOU-assigned entity identifier: characters 6-17.
    pub fn entity(&self) -> (r: String)
        ensures
            r@ == self@.subrange(6, 18),
    {
        proof {
            use_type_invariant(self);
        }
        self.lei.as_str().substring_char(6, 18).to_owned()
    }

    /// Constructs a random LEI with a valid checksum (only for testing
    /// purposes; the result does not denote a real registered entity).
    /// Whatever the random source returns, the result is uppercase, carries
    /// the reserved "00" field, and passes the full validation, through
    /// which it is routed once more before being returned.
    pub fn random() -> (r: LEI)
        ensures
            valid_lei(r@),
            r@[4] == '0' && r@[5] == '0',
            forall|i: int| 0 <= i < 20 ==> is_upper_digit36(#[trigger] r@[i]),
            48 <= r@[18] as int <= 57 && 48 <= r@[19] as int <= 57,
            10 * digit36_value(r@[18]) + digit36_value(r@[19]) == 98 - mod97_spec(
                r@.take(18).push('0').push('0'),
            ),
    {
        let s = random_lei_string();
        match LEI::try_from(s.as_str()) {
            Ok(l) => l,
            Err(_) => unreached(),
        }
    }
}

/// Relies on `rand::thread_rng` and `rand::Rng::sample` with the
/// `rand::distributions::Alphanumeric` distribution, which draws one byte
/// uniformly from the ASCII alphanumerics `'0'-'9'`, `'A'-'Z'`, `'a'-'z'`.
#[verifier::external_body]
fn sample_alphanumeric() -> (b: u8)
    ensures
        (48 <= b && b <= 57) || (65 <= b && b <= 90) || (97 <= b && b <= 122),
{
    rand::Rng::sample(&mut rand::thread_rng(), rand::distributions::Alphanumeric)
}

/// Relies on `String::push` from std: appends the given character to the
/// end of the string.
#[verifier::external_body]
pub(crate) fn push_char(s: &mut String, c: char)
    ensures
        final(s)@ == old(s)@.push(c),
{
    s.push(c);
}

/// One random base-36 digit, normalised to uppercase.
fn random_upper_digit36() -> (c: char)
    ensures
        is_upper_digit36(c),
{
    let b = sample_alphanumeric();
    let up: u8 = if b >= 97 {
        b - 32
    } else {
        b
    };
    up as char
}

/// A random string of exactly `len` uppercase base-36 digits.
fn random_upper_field(len: usize) -> (s: String)
    ensures
        s@.len() == len,
        forall|i: int| 0 <= i < len ==> is_upper_digit36(#[trigger] s@[i]),
{
    let mut s = String::new();
    let mut i: usize = 0;
    while i < len
        invariant
            s@.len() == i,
            0 <= i <= len,
            forall|j: int| 0 <= j < i ==> is_upper_digit36(#[trigger] s@[j]),
        decreases len - i,
    {
        let c = random_upper_digit36();
        push_char(&mut s, c);
        i += 1;
    }
    s
}

/// A 20-character string guaranteed to pass full validation: 4 random
/// characters for the LOU prefix, the reserved "00", 12 random characters
/// for the entity field, and the two check digits computed as `98 - r`
/// from the residue `r` of the candidate with a "00" placeholder.
pub(crate) fn random_lei_string() -> (s: String)
    ensures
        valid_lei(s@),
        s@[4] == '0' && s@[5] == '0',
        forall|i: int| 0 <= i < 20 ==> is_upper_digit36(#[trigger] s@[i]),
        48 <= s@[18] as int <= 57 && 48 <= s@[19] as int <= 57,
        10 * digit36_value(s@[18]) + digit36_value(s@[19]) == 98 - mod97_spec(
            s@.take(18).push('0').push('0'),
        ),
{
    let prefix = random_upper_field(4);
    let infix = random_upper_field(12);
    proof {
        reveal_strlit("00");
    }
    let mut base = prefix;
    base.append("00");
    base.append(infix.as_str());
    let ghost base0 = base@;
    proof {
        assert(base0.len() == 18);
        assert forall|i: int| 0 <= i < 18 implies is_upper_digit36(#[trigger] base0[i]) by {
            assert("00"@[0] == '0' && "00"@[1] == '0');
        }
    }
    let mut cand = base.clone();
    cand.append("00");
    proof {
        assert(cand@ =~= base0.push('0').push('0'));
        assert(all_digit36(cand@));
    }
    let m: u32 = match mod_97(cand.as_str()) {
        Ok(m) => m,
        Err(_) => unreached(),
    };
    proof {
        checksum::lemma_mod97_bound(cand@);
    }
    let check: u32 = 98 - m;
    let c1 = digit_char(check / 10);
    let c2 = digit_char(check % 10);
    push_char(&mut base, c1);
    push_char(&mut base, c2);
    proof {
        assert(base@ == base0.push(c1).push(c2));
        checksum::lemma_append_check_digits(base0, c1, c2);
        assert(mod97_spec(base@) == 1);
        assert(base@.len() == 20);
        assert forall|i: int| 0 <= i < 20 implies is_upper_digit36(#[trigger] base@[i]) by {
            if i < 18 {
                assert(base@[i] == base0[i]);
            }
        }
        assert(all_digit36(base@));
        assert(base@[4] == base0[4] && base@[5] == base0[5]);
        assert(base0[4] == '0' && base0[5] == '0');
        assert(base@.take(18) =~= base0);
        assert(base@[18] == c1 && base@[19] == c2);
        vstd::arithmetic::div_mod::lemma_fundamental_div_mod(check as int, 10);
        assert(10 * digit36_value(c1) + digit36_value(c2) == check);
    }
    base
}

/// The decimal digit character for a value 0-9.
pub(crate) fn digit_char(d: u32) -> (c: char)
    requires
        d <= 9,
    ensures
        is_upper_digit36(c),
        digit36_value(c) == d,
        c as int == 48 + d,
{
    (48 + d as u8) as char
}

} // verus!
