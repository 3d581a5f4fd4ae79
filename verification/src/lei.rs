//! The LEI type with an opaque, message-carrying parse error.
//!
//! This variant reports every failure through [`ParseLEIError`], a marker
//! holding one of the fixed reasons "invalid length", "invalid checksum"
//! or "invalid character"; a character outside the base-36 alphabet makes
//! the checksum test fail and is reported as "invalid checksum" by the
//! parse entry points.  The crate root offers the same operations with a
//! structured error instead.

use crate::checksum::{all_digit36, digit36_value, is_upper_digit36, mod97_spec, valid_lei};
use vstd::prelude::*;

verus! {

/// The error emitted when parsing a LEI: carries one fixed reason string.
#[derive(Debug, PartialEq, Eq)]
pub struct ParseLEIError(&'static str);

impl ParseLEIError {
    /// The reason this error carries.
    pub closed spec fn reason(&self) -> Seq<char> {
        self.0@
    }

    /// The display form: "ParseLeiError: " followed by the reason.
    pub fn to_string(&self) -> (r: String)
        ensures
            r@ == "ParseLeiError: "@ + self.reason(),
    {
        String::from_str("ParseLeiError: ").concat(self.0)
    }
}

/// A 20-character Legal Entity Identifier.  The checksum validation
/// happens according to ISO 7064, similarly to IBAN numbers.  Construction
/// through `from_str` is the single validation gate; every value of this
/// type is structurally valid and immutable.
#[derive(Debug, PartialEq, Eq)]
pub struct LEI {
    lei: String,
}

impl Clone for LEI {
    fn clone(&self) -> (r: Self)
        ensures
            r@ == self@,
    {
        proof {
            use_type_invariant(self);
        }
        LEI { lei: self.lei.clone() }
    }
}

impl View for LEI {
    type V = Seq<char>;

    closed spec fn view(&self) -> Seq<char> {
        self.lei@
    }
}

impl LEI {
    /// No partially-valid LEI exists: every value satisfies `valid_lei`.
    #[verifier::type_invariant]
    pub closed spec fn inv(self) -> bool {
        valid_lei(self.lei@)
    }

    /// Parse an arbitrary string: a length other than 20 is "invalid
    /// length"; anything else that is not a structurally valid LEI —
    /// a wrong residue or a character outside the base-36 alphabet —
    /// is "invalid checksum".  On success the caller's exact characters
    /// are preserved.
    pub fn from_str(s: &str) -> (r: Result<LEI, ParseLEIError>)
        ensures
            r is Ok <==> valid_lei(s@),
            r matches Ok(l) ==> l@ == s@,
            s@.len() != 20 ==> (r matches Err(e) && e.reason() == "invalid length"@),
            s@.len() == 20 && !valid_lei(s@) ==> (r matches Err(e) && e.reason()
                == "invalid checksum"@),
    {
        let n = s.unicode_len();
        if n != 20 {
            return Err(ParseLEIError("invalid length"));
        }
        if !validate_checksum(s) {
            return Err(ParseLEIError("invalid checksum"));
        }
        Ok(LEI { lei: s.to_owned() })
    }

    /// Same classification as [`LEI::from_str`].
    pub fn try_from(from: &str) -> (r: Result<LEI, ParseLEIError>)
        ensures
            r is Ok <==> valid_lei(from@),
            r matches Ok(l) ==> l@ == from@,
            from@.len() != 20 ==> (r matches Err(e) && e.reason() == "invalid length"@),
            from@.len() == 20 && !valid_lei(from@) ==> (r matches Err(e) && e.reason()
                == "invalid checksum"@),
    {
        Self::from_str(from)
    }

    /// Constructs a random LEI with a valid checksum (only for testing
    /// purposes).  The candidate is routed through `from_str` once more
    /// before being returned, so the result always parses.
    pub fn random() -> (r: Result<LEI, ParseLEIError>)
        ensures
            r is Ok,
            r matches Ok(l) ==> valid_lei(l@) && l@[4] == '0' && l@[5] == '0' && (forall|i: int|
                0 <= i < 20 ==> is_upper_digit36(#[trigger] l@[i])) && 48 <= l@[18] as int <= 57
                && 48 <= l@[19] as int <= 57 && 10 * digit36_value(l@[18]) + digit36_value(
                l@[19],
            ) == 98 - mod97_spec(l@.take(18).push('0').push('0')),
    {
        let s = crate::random_lei_string();
        match Self::from_str(s.as_str()) {
            Ok(l) => Ok(l),
            Err(_) => unreached(),
        }
    }

    /// The issuing Local Operating Unit: characters 0-3.
    #[must_use]
    pub fn lou(&self) -> (r: String)
        ensures
            r@ == self@.subrange(0, 4),
    {
        proof {
            use_type_invariant(self);
        }
        self.lei.as_str().substring_char(0, 4).to_owned()
    }

    /// The LOU-assigned entity identifier: characters 6-17.
    #[must_use]
    pub fn entity(&self) -> (r: String)
        ensures
            r@ == self@.subrange(6, 18),
    {
        proof {
            use_type_invariant(self);
        }
        self.lei.as_str().substring_char(6, 18).to_owned()
    }

    /// The exact 20-character canonical form held internally.
    pub fn to_string(&self) -> (r: String)
        ensures
            r@ == self@,
    {
        self.lei.clone()
    }
}

/// A string passes the checksum exactly when every character is a base-36
/// digit and the MOD 97-10 residue over the whole string equals 1.
pub fn validate_checksum(address: &str) -> (r: bool)
    ensures
        r == (all_digit36(address@) && mod97_spec(address@) == 1),
{
    match mod_97(address) {
        Ok(m) => m == 1,
        Err(_) => false,
    }
}

/// ISO 7064 MOD 97-10 residue of `address`; a character outside the
/// base-36 alphabet is reported as "invalid character".
pub fn mod_97(address: &str) -> (r: Result<u32, ParseLEIError>)
    ensures
        r is Ok <==> all_digit36(address@),
        all_digit36(address@) ==> r == Ok::<u32, ParseLEIError>(mod97_spec(address@) as u32),
        r matches Err(e) ==> e.reason() == "invalid character"@,
{
    match crate::mod_97(address) {
        Ok(m) => Ok(m),
        Err(_) => Err(ParseLEIError("invalid character")),
    }
}

} // verus!
