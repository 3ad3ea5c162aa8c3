//! Shared matching primitives: case-insensitive term lists read from JSON
//! configuration, and regular-expression search.
use vstd::prelude::*;
use crate::json::JsonValue;
use crate::text::{chars_of, chars_contains, lower, seq_contains, to_lower};

verus! {

// ───────────────────────── Term lists ─────────────────────────

/// Some element of `items` is a string.
pub open spec fn has_term(items: Seq<JsonValue>) -> bool {
    exists|k: int| 0 <= k < items.len() && #[trigger] items[k] is Str
}

/// Some string element of `items`, lowercased, occurs in `text_lc`.
pub open spec fn any_term_in(items: Seq<JsonValue>, text_lc: Seq<char>) -> bool {
    exists|k: int|
        0 <= k < items.len() && (#[trigger] items[k] matches JsonValue::Str(t) && seq_contains(
            text_lc,
            lower(t@),
        ))
}

/// Every string element of `items`, lowercased, occurs in `text_lc`.
pub open spec fn all_terms_in(items: Seq<JsonValue>, text_lc: Seq<char>) -> bool {
    forall|k: int|
        0 <= k < items.len() ==> (#[trigger] items[k] matches JsonValue::Str(t) ==> seq_contains(
            text_lc,
            lower(t@),
        ))
}

/// The outcome of scanning a term list against a lowercased text.
pub struct TermScan {
    /// Some element is a string.
    pub has_term: bool,
    /// Some string element occurs in the text.
    pub any: bool,
    /// Every string element occurs in the text.
    pub all: bool,
}

/// Scans the string elements of `items` against the lowercased text `text_lc`.
pub fn scan_terms(items: &Vec<JsonValue>, text_lc: &Vec<char>) -> (r: TermScan)
    ensures
        r.has_term == has_term(items@),
        r.any == any_term_in(items@, text_lc@),
        r.all == all_terms_in(items@, text_lc@),
{
    let mut has = false;
    let mut any = false;
    let mut all = true;
    let mut i: usize = 0;
    while i < items.len()
        invariant
            i <= items.len(),
            has == (exists|k: int| 0 <= k < i && #[trigger] items@[k] is Str),
            any == (exists|k: int|
                0 <= k < i && (#[trigger] items@[k] matches JsonValue::Str(t) && seq_contains(
                    text_lc@,
                    lower(t@),
                ))),
            all == (forall|k: int|
                0 <= k < i ==> (#[trigger] items@[k] matches JsonValue::Str(t) ==> seq_contains(
                    text_lc@,
                    lower(t@),
                ))),
        decreases items.len() - i,
    {
        match &items[i] {
            JsonValue::Str(t) => {
                let t_lc = to_lower(t.as_str());
                let t_chars = chars_of(t_lc.as_str());
                let found = chars_contains(text_lc, &t_chars);
                has = true;
                if found {
                    any = true;
                } else {
                    all = false;
                }
            },
            _ => {},
        }
        i = i + 1;
    }
    TermScan { has_term: has, any, all }
}

// ───────────────────────── Regular expressions ─────────────────────────

/// Whether `regex_lite::Regex::new` accepts `pattern`.
pub uninterp spec fn regex_compiles(pattern: Seq<char>) -> bool;

/// Whether the regex compiled from `pattern` matches somewhere in `text`
/// (`regex_lite::Regex::is_match`).
pub uninterp spec fn regex_matches(pattern: Seq<char>, text: Seq<char>) -> bool;

/// Declares `regex_lite::Regex` for use in fields.
#[verifier::external_type_specification]
#[verifier::external_body]
pub struct ExRegex(regex_lite::Regex);

/// A compiled regular expression together with the pattern it was built from.
/// Only `compile_regex` builds one, so `re` is always the compilation of `pattern`.
pub struct CompiledRegex {
    pattern: String,
    re: regex_lite::Regex,
}

impl View for CompiledRegex {
    type V = Seq<char>;

    closed spec fn view(&self) -> Seq<char> {
        self.pattern@
    }
}

/// `regex_lite::Regex::new`: succeeds exactly when `regex_compiles(pattern)`
/// (the pattern is valid and within the default size limit), and the result
/// remembers its pattern.
#[verifier::external_body]
fn compile_regex(pattern: &str) -> (r: Option<CompiledRegex>)
    ensures
        r is Some <==> regex_compiles(pattern@),
        r matches Some(c) ==> c@ == pattern@,
{
    match regex_lite::Regex::new(pattern) {
        Ok(re) => Some(CompiledRegex { pattern: pattern.to_string(), re }),
        Err(_) => None,
    }
}

/// `regex_lite::Regex::is_match`: whether the regex matches anywhere in
/// `text`, named `regex_matches` of the pattern and the text.
#[verifier::external_body]
fn regex_is_match(re: &CompiledRegex, text: &str) -> (b: bool)
    ensures
        b == regex_matches(re@, text@),
{
    re.re.is_match(text)
}

/// Compiles `pattern` and tests it against `text`: `None` when the pattern
/// does not compile, otherwise whether it matches.
pub fn regex_search(pattern: &str, text: &str) -> (r: Option<bool>)
    ensures
        r is None <==> !regex_compiles(pattern@),
        r matches Some(b) ==> b == regex_matches(pattern@, text@),
{
    match compile_regex(pattern) {
        Some(re) => Some(regex_is_match(&re, text)),
        None => None,
    }
}

} // verus!
