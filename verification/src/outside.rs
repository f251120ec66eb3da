//! The calls into other crates and into the parts of std that vstd does not
//! describe. Each item here states what the called code guarantees; nothing
//! here is proved.
use rand::Rng;
use vstd::prelude::*;

verus! {

/// An ASCII letter or digit.
pub open spec fn is_alnum(c: char) -> bool {
    ('0' <= c && c <= '9') || ('a' <= c && c <= 'z') || ('A' <= c && c <= 'Z')
}

/// Draws `len` characters from `rand::distributions::Alphanumeric` with the
/// thread-local generator of `rand`. The sampler picks one byte of the
/// 62-character table `A-Z a-z 0-9`, so every outcome is `len` ASCII letters
/// or digits; which ones is left open.
#[verifier::external_body]
pub(crate) fn rand_str(len: usize) -> (r: String)
    ensures
        r@.len() == len,
        forall|i: int| 0 <= i < len ==> is_alnum(#[trigger] r@[i]),
{
    rand::thread_rng().sample_iter(rand::distributions::Alphanumeric).take(len).map(char::from).collect()
}

/// What `regex::Regex::captures` reports for `text` under `pattern`, group by
/// group (group 0 is the whole match), or `None` when nothing matches. A
/// pattern that `regex::Regex::new` refuses also gives `None`.
pub uninterp spec fn regex_captures_of(pattern: Seq<char>, text: Seq<char>) -> Option<Seq<Option<Seq<char>>>>;

/// What `regex::Regex::is_match` answers for `text` under `pattern`; `false`
/// for a pattern that `regex::Regex::new` refuses.
pub uninterp spec fn regex_match_of(pattern: Seq<char>, text: Seq<char>) -> bool;

/// The text of each capture group.
pub open spec fn groups_view(g: Seq<Option<String>>) -> Seq<Option<Seq<char>>> {
    g.map_values(|x: Option<String>| match x {
        Some(s) => Some(s@),
        None => None,
    })
}

/// The capture groups of `text` as a vector of the group texts.
pub open spec fn captures_view(r: Option<Vec<Option<String>>>) -> Option<Seq<Option<Seq<char>>>> {
    match r {
        Some(g) => Some(groups_view(g@)),
        None => None,
    }
}

/// Compiles `pattern` with `regex::Regex::new` and calls `captures` on `text`.
/// The contract only ties the result to the named outcome of those two calls;
/// what a pattern matches is not stated here.
#[verifier::external_body]
pub(crate) fn regex_captures(pattern: &str, text: &str) -> (r: Option<Vec<Option<String>>>)
    ensures
        captures_view(r) == regex_captures_of(pattern@, text@),
{
    let re = match regex::Regex::new(pattern) {
        Ok(re) => re,
        Err(_) => return None,
    };
    let caps = re.captures(text)?;
    let mut groups = Vec::new();
    for m in caps.iter() {
        groups.push(match m {
            Some(m) => Some(m.as_str().to_string()),
            None => None,
        });
    }
    Some(groups)
}

/// Compiles `pattern` with `regex::Regex::new` and calls `is_match` on `text`.
/// The contract only ties the answer to the named outcome of those calls.
#[verifier::external_body]
pub(crate) fn regex_is_match(pattern: &str, text: &str) -> (r: bool)
    ensures
        r == regex_match_of(pattern@, text@),
{
    match regex::Regex::new(pattern) {
        Ok(re) => re.is_match(text),
        Err(_) => false,
    }
}

/// Whether `char::is_numeric` holds: the character's Unicode general category
/// is one of the number categories. The table itself is not stated.
pub uninterp spec fn char_numeric(c: char) -> bool;

/// Calls `char::is_numeric`. Its documentation fixes the ASCII range: the
/// digits `0` to `9` are numeric and no other ASCII character is.
#[verifier::external_body]
pub(crate) fn char_is_numeric(c: char) -> (b: bool)
    ensures
        b == char_numeric(c),
        c <= '\u{7f}' ==> (b <==> ('0' <= c && c <= '9')),
{
    c.is_numeric()
}

/// Whether `char::is_whitespace` holds: the character has the Unicode
/// `White_Space` property. The table itself is not stated.
pub uninterp spec fn char_whitespace(c: char) -> bool;

/// Calls `char::is_whitespace`.
#[verifier::external_body]
pub(crate) fn char_is_whitespace(c: char) -> (b: bool)
    ensures
        b == char_whitespace(c),
{
    c.is_whitespace()
}

/// Calls `String::push`, which appends one character.
#[verifier::external_body]
pub(crate) fn push_char(s: &mut String, c: char)
    ensures
        final(s)@ == old(s)@.push(c),
{
    s.push(c)
}

} // verus!
