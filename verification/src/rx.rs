//! The boundary to the regex engine. A compiled `fancy_regex::Regex` is
//! opaque here; what a search returns is named by `captured`, and one trusted
//! wrapper performs the search. Everything downstream is verified against
//! that name.

use vstd::prelude::*;

verus! {

#[verifier::external_type_specification]
#[verifier::external_body]
pub struct ExRegex(fancy_regex::Regex);

/// The text of capture group `group` of the first match of `re` on `line`:
/// `None` when the regex does not match, when the group does not exist or
/// did not participate, or when the search errors. For a fixed compiled
/// regex this is a function of the line alone.
pub uninterp spec fn captured(re: fancy_regex::Regex, line: Seq<char>, group: nat) -> Option<
    Seq<char>,
>;

/// Whether `re` finds a match somewhere in `line`: every match has a capture
/// group 0, the whole match.
pub open spec fn spec_matches(re: fancy_regex::Regex, line: Seq<char>) -> bool {
    captured(re, line, 0) is Some
}

/// Relies on `fancy_regex::Regex::captures`, called in search mode: it
/// deterministically returns the first match's capture groups, `Ok(None)`
/// when nothing matches, and `Err` only on engine limits; an `Err` and an
/// absent group are both treated as "no capture" here, as the extraction
/// rules ask.
#[verifier::external_body]
pub(crate) fn capture_group(re: &fancy_regex::Regex, line: &str, group: usize) -> (r: Option<
    String,
>)
    ensures
        r is Some <==> captured(*re, line@, group as nat) is Some,
        r matches Some(s) ==> Some(s@) == captured(*re, line@, group as nat),
{
    match re.captures(line) {
        Ok(Some(caps)) => caps.get(group).map(|m| m.as_str().to_string()),
        _ => None,
    }
}

/// What compiling a pattern yields: `None` exactly on an invalid pattern.
/// Compilation (with default options) is a function of the pattern text.
pub uninterp spec fn compiled_regex(pattern: Seq<char>) -> Option<fancy_regex::Regex>;

/// Relies on `fancy_regex::Regex::new`: it deterministically compiles a
/// pattern with default options, returning `Err` exactly on an invalid one.
#[verifier::external_body]
pub(crate) fn compile_regex(pattern: &str) -> (r: Option<fancy_regex::Regex>)
    ensures
        r is Some <==> compiled_regex(pattern@) is Some,
        r matches Some(re) ==> Some(re) == compiled_regex(pattern@),
{
    fancy_regex::Regex::new(pattern).ok()
}

} // verus!
