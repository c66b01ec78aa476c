//! Search-URL construction: the user's free-text query is percent-encoded
//! and appended to the fixed search-engine endpoint. The encoding itself
//! is done by an outside crate; its exact byte-level behaviour is stated
//! here and everything around it is proved against that statement.

use vstd::prelude::*;

verus! {

use crate::text::spec_digit_char;
use vstd::string::{StringExecFns, StringSliceAdditionalSpecFns};
use vstd::utf8::encode_utf8;

/// A byte the encoder passes through unchanged: ASCII alphanumeric or
/// `-`, `.`, `_`, `~`.
pub open spec fn spec_unreserved_byte(b: u8) -> bool {
    (48 <= b && b <= 57) || (65 <= b && b <= 90) || (97 <= b && b <= 122) || b == 45 || b == 46
        || b == 95 || b == 126
}

/// The uppercase hex digit for a value below sixteen.
pub open spec fn spec_hex_char(d: u8) -> char {
    if d < 10 {
        spec_digit_char(d as int)
    } else if d == 10 {
        'A'
    } else if d == 11 {
        'B'
    } else if d == 12 {
        'C'
    } else if d == 13 {
        'D'
    } else if d == 14 {
        'E'
    } else {
        'F'
    }
}

/// What one byte contributes to the encoding: itself when unreserved,
/// else `%` and its two uppercase hex digits.
pub open spec fn spec_encoded_byte(b: u8) -> Seq<char> {
    if spec_unreserved_byte(b) {
        seq![b as char]
    } else {
        seq!['%', spec_hex_char(b >> 4), spec_hex_char(b & 15)]
    }
}

/// The percent-encoding of a byte sequence, byte by byte.
pub open spec fn spec_percent_encoded(bs: Seq<u8>) -> Seq<char>
    decreases bs.len(),
{
    if bs.len() == 0 {
        Seq::empty()
    } else {
        spec_encoded_byte(bs[0]) + spec_percent_encoded(bs.drop_first())
    }
}

/// Relies on urlencoding::encode: it percent-encodes every byte of the
/// UTF-8 input except ASCII alphanumerics and `-`, `.`, `_`, `~`, each
/// encoded byte becoming `%` and two uppercase hex digits.
#[verifier::external_body]
fn url_encode(s: &str) -> (r: String)
    ensures
        r@ == spec_percent_encoded(s.spec_bytes()),
{
    urlencoding::encode(s).into_owned()
}

/// The fixed search endpoint followed by the percent-encoded query.
pub open spec fn spec_search_url(q: Seq<char>) -> Seq<char> {
    "https://search.brave.com/search?q="@ + spec_percent_encoded(encode_utf8(q))
}

/// Build the search-engine URL for a free-text query.
pub fn build_search_url(query: &str) -> (r: String)
    ensures
        r@ == spec_search_url(query@),
{
    let mut out = "https://search.brave.com/search?q=".to_owned();
    let encoded = url_encode(query);
    out.append(encoded.as_str());
    out
}

/// An ASCII character that may stand raw in a URL query: unreserved, by
/// the encoder's rule.
pub open spec fn spec_unreserved_char(c: char) -> bool {
    ('0' <= c && c <= '9') || ('A' <= c && c <= 'Z') || ('a' <= c && c <= 'z') || c == '-'
        || c == '.' || c == '_' || c == '~'
}

/// The encoded query holds no raw reserved character: every character of
/// a percent-encoding is either unreserved or the escape `%` itself, so
/// spaces, `+`, `&`, `=` and the like can never pass through unencoded.
pub proof fn lemma_percent_encoding_masks_reserved(bs: Seq<u8>)
    ensures
        forall|i: int|
            0 <= i < spec_percent_encoded(bs).len() ==> (spec_unreserved_char(
                #[trigger] spec_percent_encoded(bs)[i],
            ) || spec_percent_encoded(bs)[i] == '%'),
    decreases bs.len(),
{
    if bs.len() > 0 {
        lemma_percent_encoding_masks_reserved(bs.drop_first());
        let b = bs[0];
        let head = spec_encoded_byte(b);
        assert forall|i: int| 0 <= i < head.len() implies (spec_unreserved_char(head[i])
            || head[i] == '%') by {
            if spec_unreserved_byte(b) {
                assert(head[i] == b as char);
                assert(spec_unreserved_char(b as char));
            } else {
                if i == 1 {
                    assert(b >> 4 < 16) by (bit_vector);
                    assert(spec_unreserved_char(spec_hex_char(b >> 4)));
                } else if i == 2 {
                    assert(b & 15 < 16) by (bit_vector);
                    assert(spec_unreserved_char(spec_hex_char(b & 15)));
                }
            }
        }
        assert forall|i: int| 0 <= i < spec_percent_encoded(bs).len() implies (
        spec_unreserved_char(#[trigger] spec_percent_encoded(bs)[i]) || spec_percent_encoded(
            bs,
        )[i] == '%') by {
            if i < head.len() {
                assert(spec_percent_encoded(bs)[i] == head[i]);
            } else {
                assert(spec_percent_encoded(bs)[i] == spec_percent_encoded(bs.drop_first())[i
                    - head.len()]);
            }
        }
    }
}

/// The prompt label for the search entry: `Search` and the display name,
/// with the incognito marker when private.
pub fn search_prompt_label(display_name: &str, incognito: bool) -> (r: String)
    ensures
        !incognito ==> r@ == "Search "@ + display_name@,
        incognito ==> r@ == "Search "@ + display_name@ + " (Incognito)"@,
{
    let mut out = "Search ".to_owned();
    out.append(display_name);
    if incognito {
        out.append(" (Incognito)");
    }
    out
}

} // verus!
