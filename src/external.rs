//! The calls this library makes into outside crates, each with the contract
//! the library relies on.

use vstd::prelude::*;

verus! {

#[verifier::external_type_specification]
#[verifier::external_body]
pub struct ExUtf8Error(core::str::Utf8Error);

#[verifier::external_type_specification]
#[verifier::external_body]
pub struct ExJsonError(serde_json::Error);

/// What URL-decoding a form value gives: `None` where the decoded bytes are
/// not UTF-8.
pub uninterp spec fn url_decoded(s: Seq<char>) -> Option<Seq<char>>;

/// Relies on rocket's `RawStr::url_decode`: `+` becomes a space and percent
/// escapes are decoded; it fails when the decoded bytes are not UTF-8.
#[verifier::external_body]
pub(crate) fn url_decode(raw: &str) -> (r: Result<String, core::str::Utf8Error>)
    ensures
        match r {
            Ok(d) => url_decoded(raw@) == Some(d@),
            Err(_) => url_decoded(raw@) is None,
        },
{
    match rocket::http::RawStr::new(raw).url_decode() {
        Ok(d) => Ok(d.into_owned()),
        Err(e) => Err(e),
    }
}

/// A lowercase hexadecimal digit.
pub open spec fn hex_digit(d: int) -> char {
    seq!['0', '1', '2', '3', '4', '5', '6', '7', '8', '9', 'a', 'b', 'c', 'd', 'e', 'f'][d]
}

/// How one character appears inside a JSON string: `"` and `\` after a
/// backslash, the five common control characters as `\b \t \n \f \r`,
/// other characters below U+0020 as `\u00hh`, everything else as itself.
pub open spec fn json_escape(c: char) -> Seq<char> {
    let u = (c as u32) as int;
    if c == '"' {
        seq!['\\', '"']
    } else if c == '\\' {
        seq!['\\', '\\']
    } else if u == 8 {
        seq!['\\', 'b']
    } else if u == 9 {
        seq!['\\', 't']
    } else if u == 10 {
        seq!['\\', 'n']
    } else if u == 12 {
        seq!['\\', 'f']
    } else if u == 13 {
        seq!['\\', 'r']
    } else if u < 32 {
        seq!['\\', 'u', '0', '0', hex_digit(u / 16), hex_digit(u % 16)]
    } else {
        seq![c]
    }
}

/// The characters of `s`, each escaped for a JSON string.
pub open spec fn json_escaped(s: Seq<char>) -> Seq<char>
    decreases s.len(),
{
    if s.len() == 0 {
        Seq::empty()
    } else {
        json_escaped(s.drop_last()) + json_escape(s.last())
    }
}

/// The JSON string literal that encodes `s`: its escaped characters
/// between double quotes.
pub open spec fn json_string(s: Seq<char>) -> Seq<char> {
    seq!['"'] + json_escaped(s) + seq!['"']
}

/// A string with no quote, backslash or control character is put between
/// quotes as it stands.
pub proof fn lemma_plain_text_unescaped(s: Seq<char>)
    requires
        forall|i: int| 0 <= i < s.len() ==> #[trigger] s[i] != '"' && s[i] != '\\' && (s[i] as u32) >= 32,
    ensures
        json_escaped(s) == s,
        json_string(s) == seq!['"'] + s + seq!['"'],
    decreases s.len(),
{
    if s.len() > 0 {
        let t = s.drop_last();
        assert forall|i: int| 0 <= i < t.len() implies #[trigger] t[i] != '"' && t[i] != '\\' && (t[i] as u32)
            >= 32 by {
            assert(t[i] == s[i]);
        }
        lemma_plain_text_unescaped(t);
        assert(json_escape(s.last()) =~= seq![s.last()]);
        assert(json_escaped(s) =~= s);
    } else {
        assert(json_escaped(s) =~= s);
    }
}

/// Relies on `serde_json::to_string` on a `str`: it writes the escaped
/// string between quotes into a `Vec`, which cannot fail.
#[verifier::external_body]
pub(crate) fn to_json_string(s: &str) -> (r: Result<String, serde_json::Error>)
    ensures
        r is Ok,
        r matches Ok(j) ==> j@ == json_string(s@),
{
    serde_json::to_string(s)
}

} // verus!
