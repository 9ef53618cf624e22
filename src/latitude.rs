//! A latitude in whole degrees, read from a form value and held within
//! [-90, 90].

use vstd::prelude::*;
use crate::error::{ValidationError, not_a_number, out_of_range};
use crate::external::{url_decode, url_decoded};
use crate::number::{all_digits, digit_value, digits_value, integer_of, parse_clamped, sign_len};

verus! {

pub struct Latitude(isize);

impl View for Latitude {
    type V = int;

    closed spec fn view(&self) -> int {
        self.0 as int
    }
}

/// What reading the (already decoded) token `s` as a latitude gives: its
/// degrees, or the message of the failure.
pub open spec fn latitude_of(s: Seq<char>) -> Result<int, Seq<char>> {
    match integer_of(s) {
        None => Err(not_a_number()),
        Some(n) => if -90 <= n && n <= 90 {
            Ok(n)
        } else {
            Err(out_of_range())
        },
    }
}

/// The outcome of a latitude parse, as degrees or a message.
pub open spec fn latitude_result_view(r: Result<Latitude, ValidationError>) -> Result<int, Seq<char>> {
    match r {
        Ok(l) => Ok(l@),
        Err(e) => Err(e.reason@),
    }
}

impl Latitude {
    #[verifier::type_invariant]
    spec fn in_range(&self) -> bool {
        -90 <= self.0 && self.0 <= 90
    }

    /// The degrees held.
    pub fn degrees(&self) -> (r: isize)
        ensures
            r as int == self@,
            -90 <= r <= 90,
    {
        proof {
            use_type_invariant(self);
        }
        self.0
    }

    /// Reads a decoded token: one with other characters than a sign and
    /// digits is not a number; an integer outside [-90, 90], however long,
    /// is out of range.
    pub fn from_decoded(s: &str) -> (r: Result<Latitude, ValidationError>)
        ensures
            latitude_result_view(r) == latitude_of(s@),
    {
        match parse_clamped(s, 91) {
            None => Err(ValidationError::new("value is not a number.")),
            Some(n) => if n >= -90 && n <= 90 {
                Ok(Latitude(n))
            } else {
                Err(ValidationError::new("must be between -90 and 90."))
            },
        }
    }

    /// Reads a raw form value: URL-decodes it, then reads the result as
    /// `from_decoded` does. A value that does not decode is not a number.
    pub fn from_form_value(raw: &str) -> (r: Result<Latitude, ValidationError>)
        ensures
            latitude_result_view(r) == match url_decoded(raw@) {
                Some(d) => latitude_of(d),
                None => Err(not_a_number()),
            },
    {
        match url_decode(raw) {
            Ok(d) => Latitude::from_decoded(d.as_str()),
            Err(_) => Err(ValidationError::new("value is not a number.")),
        }
    }
}

/// The decimal digits of `m`, most significant first, without leading zeros.
pub open spec fn digits_text(m: nat) -> Seq<char>
    decreases m,
{
    let d = seq!['0', '1', '2', '3', '4', '5', '6', '7', '8', '9'];
    if m < 10 {
        seq![d[m as int]]
    } else {
        digits_text(m / 10).push(d[(m % 10) as int])
    }
}

/// How an integer is written in decimal: a `-` for negatives, then its digits.
pub open spec fn decimal_text(n: int) -> Seq<char> {
    if n < 0 {
        seq!['-'] + digits_text((-n) as nat)
    } else {
        digits_text(n as nat)
    }
}

proof fn lemma_digits_text(m: nat)
    ensures
        digits_text(m).len() > 0,
        all_digits(digits_text(m)),
        digits_value(digits_text(m)) == m,
    decreases m,
{
    let d = seq!['0', '1', '2', '3', '4', '5', '6', '7', '8', '9'];
    assert(digit_value('0') == 0 && digit_value('1') == 1 && digit_value('2') == 2 && digit_value('3') == 3
        && digit_value('4') == 4 && digit_value('5') == 5 && digit_value('6') == 6 && digit_value('7') == 7
        && digit_value('8') == 8 && digit_value('9') == 9);
    if m < 10 {
        let t = digits_text(m);
        assert(t.drop_last() =~= Seq::<char>::empty());
        assert(digits_value(t) == 10 * digits_value(t.drop_last()) + digit_value(t.last()));
    } else {
        lemma_digits_text(m / 10);
        let t = digits_text(m);
        let p = digits_text(m / 10);
        assert(t.drop_last() =~= p);
        assert(t.last() == d[(m % 10) as int]);
        assert(digits_value(t) == 10 * digits_value(p) + digit_value(t.last()));
        assert forall|i: int| 0 <= i < t.len() implies crate::number::is_digit(#[trigger] t[i]) by {
            if i < p.len() {
                assert(t[i] == p[i]);
            }
        }
    }
}

proof fn lemma_integer_of_decimal_text(n: int)
    ensures
        integer_of(decimal_text(n)) == Some(n),
{
    let s = decimal_text(n);
    if n < 0 {
        lemma_digits_text((-n) as nat);
        assert(sign_len(s) == 1);
        assert(s.skip(1) =~= digits_text((-n) as nat));
    } else {
        lemma_digits_text(n as nat);
        assert(crate::number::is_digit(s[0]));
        assert(sign_len(s) == 0);
        assert(s.skip(0) =~= s);
    }
}

/// Every whole number of degrees in [-90, 90], written in decimal, reads
/// back as itself.
pub proof fn lemma_in_range_reads_back(n: int)
    requires
        -90 <= n <= 90,
    ensures
        latitude_of(decimal_text(n)) == Ok::<int, Seq<char>>(n),
{
    lemma_integer_of_decimal_text(n);
}

/// Every whole number outside [-90, 90], written in decimal, is refused as
/// out of range, not as a non-number.
pub proof fn lemma_out_of_range_refused(n: int)
    requires
        n < -90 || n > 90,
    ensures
        latitude_of(decimal_text(n)) == Err::<int, Seq<char>>(out_of_range()),
        out_of_range() != not_a_number(),
{
    lemma_integer_of_decimal_text(n);
    reveal_strlit("must be between -90 and 90.");
    reveal_strlit("value is not a number.");
    assert(out_of_range()[0] != not_a_number()[0]);
}

/// A token that is not a sign followed by digits is refused as a non-number.
pub proof fn lemma_non_numeric_refused(s: Seq<char>)
    requires
        integer_of(s) is None,
    ensures
        latitude_of(s) == Err::<int, Seq<char>>(not_a_number()),
{
}

} // verus!
