//! Removal of thinking blocks and template leaks from model output before it is
//! stored: complete `<think>`/`<thinking>`/`<thought>` blocks, an unclosed block at
//! the start, a leading `<channel|>` / `<|channel|>` marker and malformed opening
//! tags; then trailing whitespace.

use vstd::prelude::*;

use crate::text::{chars_of, string_from, trim_end, trim_end_chars};

verus! {

/// What `regex::Regex::replace_all` makes of `text` with the pattern `pattern` and the
/// replacement `rep` (a valid pattern).
pub uninterp spec fn regex_replace_all(pattern: Seq<char>, text: Seq<char>, rep: Seq<char>) -> Seq<char>;

/// What `regex::Regex::replace` (first match only) makes of `text`.
pub uninterp spec fn regex_replace_first(pattern: Seq<char>, text: Seq<char>, rep: Seq<char>) -> Seq<char>;

/// Whether `pattern` is a valid regular expression for the `regex` crate.
pub uninterp spec fn regex_valid(pattern: Seq<char>) -> bool;

/// `text` with every match of `pattern` replaced by `rep` (`regex` crate: `Regex::new`
/// then `replace_all`); `None` exactly when the pattern is invalid.
#[verifier::external_body]
fn replace_all(pattern: &str, text: &str, rep: &str) -> (r: Option<String>)
    ensures
        r is Some <==> regex_valid(pattern@),
        r matches Some(s) ==> s@ == regex_replace_all(pattern@, text@, rep@),
{
    match regex::Regex::new(pattern) {
        Ok(re) => Some(re.replace_all(text, rep).into_owned()),
        Err(_) => None,
    }
}

/// `text` with the first match of `pattern` replaced by `rep` (`regex` crate:
/// `Regex::new` then `replace`); `None` exactly when the pattern is invalid.
#[verifier::external_body]
fn replace_first(pattern: &str, text: &str, rep: &str) -> (r: Option<String>)
    ensures
        r is Some <==> regex_valid(pattern@),
        r matches Some(s) ==> s@ == regex_replace_first(pattern@, text@, rep@),
{
    match regex::Regex::new(pattern) {
        Ok(re) => Some(re.replace(text, rep).into_owned()),
        Err(_) => None,
    }
}

/// Complete thinking blocks.
pub const WELL_FORMED: &'static str = "(?s)<(think|thinking|thought)>.*?</(think|thinking|thought)>";
/// An unclosed thinking block at the start, to the end.
pub const UNCLOSED_PREFIX: &'static str = "(?s)^\\s*<(think|thinking|thought)>.*$";
/// A leading channel marker.
pub const CHANNEL_MARKER: &'static str = "^\\s*<\\|?channel\\|>\\s*";
/// An opening tag without `>` (the following character, if any, is kept).
pub const MALFORMED_OPEN: &'static str = "<(think|thinking|thought)([^A-Za-z0-9_\\-:>/]|$)";

/// One replacement of every match, skipped for an invalid pattern.
pub open spec fn all_step(pattern: Seq<char>, text: Seq<char>, rep: Seq<char>) -> Seq<char> {
    if regex_valid(pattern) { regex_replace_all(pattern, text, rep) } else { text }
}

/// One replacement of the first match, skipped for an invalid pattern.
pub open spec fn first_step(pattern: Seq<char>, text: Seq<char>, rep: Seq<char>) -> Seq<char> {
    if regex_valid(pattern) { regex_replace_first(pattern, text, rep) } else { text }
}

/// `strip_think` of `text`: the four replacements in order, then trailing whitespace.
pub open spec fn strip_think_spec(text: Seq<char>) -> Seq<char> {
    let a = all_step(WELL_FORMED@, text, ""@);
    let b = first_step(UNCLOSED_PREFIX@, a, ""@);
    let c = first_step(CHANNEL_MARKER@, b, ""@);
    let d = all_step(MALFORMED_OPEN@, c, "$2"@);
    trim_end(d)
}

fn apply(r: Option<String>, text: String) -> (o: String)
    ensures
        o@ == match r { Some(s) => s@, None => text@ },
{
    match r {
        Some(s) => s,
        None => text,
    }
}

/// The last step of [`strip_think`], on the text the four replacements left:
/// trailing whitespace removed.
pub fn finish_strip(replaced: &str) -> (r: String)
    ensures
        r@ == trim_end(replaced@),
{
    let cs = chars_of(replaced);
    string_from(&trim_end_chars(&cs))
}

/// Removes thinking blocks and template leaks, then trailing whitespace.
pub fn strip_think(text: &str) -> (r: String)
    ensures
        r@ == strip_think_spec(text@),
{
    let a = apply(replace_all(WELL_FORMED, text, ""), text.to_owned());
    let b = apply(replace_first(UNCLOSED_PREFIX, a.as_str(), ""), a);
    let c = apply(replace_first(CHANNEL_MARKER, b.as_str(), ""), b);
    let d = apply(replace_all(MALFORMED_OPEN, c.as_str(), "$2"), c);
    finish_strip(d.as_str())
}

} // verus!

verus! {

/// What trailing-whitespace removal leaves ends in a non-space character, if
/// anything is left.
proof fn lemma_trim_end_ends(s: Seq<char>)
    ensures
        trim_end(s).len() == 0 || !crate::text::is_ws(trim_end(s).last()),
    decreases s.len(),
{
    if s.len() > 0 && crate::text::is_ws(s.last()) {
        lemma_trim_end_ends(s.drop_last());
    }
}

/// Cleaned model output never ends in whitespace.
pub proof fn law_stripped_output_is_trimmed(text: Seq<char>)
    ensures
        strip_think_spec(text).len() == 0 || !crate::text::is_ws(strip_think_spec(text).last()),
{
    let a = all_step(WELL_FORMED@, text, ""@);
    let b = first_step(UNCLOSED_PREFIX@, a, ""@);
    let c = first_step(CHANNEL_MARKER@, b, ""@);
    let d = all_step(MALFORMED_OPEN@, c, "$2"@);
    lemma_trim_end_ends(d);
}

} // verus!
