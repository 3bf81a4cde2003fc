//! The calls that this library makes into code it does not verify: URL parsing
//! from the `url` crate and Unicode case mapping from std. Their contracts are
//! believed, not proved.

use vstd::prelude::*;

verus! {

/// What `url::Url::parse` makes of an input: the scheme of the parsed URL, or the
/// text of the parse error.
pub uninterp spec fn url_scheme_result(input: Seq<char>) -> Result<Seq<char>, Seq<char>>;

/// The lowercase mapping of std's `str::to_lowercase`.
pub uninterp spec fn lowercase(s: Seq<char>) -> Seq<char>;

/// Whether every character of `s` is ASCII.
pub open spec fn is_ascii_text(s: Seq<char>) -> bool {
    forall|i: int| 0 <= i < s.len() ==> (#[trigger] s[i] as u32) < 128
}

/// `s` with the ASCII capitals `A` to `Z` mapped to `a` to `z`, every other
/// character kept.
pub open spec fn ascii_lowercase(s: Seq<char>) -> Seq<char> {
    s.map_values(
        |c: char|
            if 65 <= (c as u32) <= 90 {
                ((c as u32) + 32) as char
            } else {
                c
            },
    )
}

/// A result of texts, by the characters of each side.
pub open spec fn text_result(r: Result<String, String>) -> Result<Seq<char>, Seq<char>> {
    match r {
        Ok(s) => Ok(s@),
        Err(e) => Err(e@),
    }
}

/// Calls `url::Url::parse` on `input`. On success it hands back `Url::scheme` of
/// the parsed URL; on failure, the `Display` text of the `url::ParseError`.
/// Claimed: the outcome is [`url_scheme_result`] of the input's characters, so
/// the same input always gives the same outcome. Nothing is claimed of which
/// inputs parse or what the scheme or message is.
#[verifier::external_body]
pub(crate) fn parse_url_scheme(input: &str) -> (r: Result<String, String>)
    ensures
        text_result(r) == url_scheme_result(input@),
{
    match url::Url::parse(input) {
        Ok(parsed) => Ok(parsed.scheme().to_string()),
        Err(e) => Err(e.to_string()),
    }
}

/// Calls std's `str::to_lowercase`. Claimed: the result is [`lowercase`] of the
/// input's characters, and on ASCII text it maps `A` to `Z` to `a` to `z` and
/// keeps every other character (the Unicode lowercase mapping of ASCII). Nothing
/// is claimed of the mapping of other characters.
#[verifier::external_body]
pub(crate) fn to_lowercase(s: &str) -> (r: String)
    ensures
        r@ == lowercase(s@),
        is_ascii_text(s@) ==> r@ == ascii_lowercase(s@),
{
    s.to_lowercase()
}

} // verus!
