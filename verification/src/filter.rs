//! The line-filter stage: a line is kept when the include set is empty or
//! some include regex matches, and no exclude regex matches.

use vstd::prelude::*;

use crate::rx::{capture_group, spec_matches};

verus! {

/// Whether the include set lets `line` through: an empty set includes every
/// line; otherwise some regex must match.
pub open spec fn spec_included(line: Seq<char>, includes: Seq<fancy_regex::Regex>) -> bool {
    includes.len() == 0 || exists|i: int|
        0 <= i < includes.len() && spec_matches(#[trigger] includes[i], line)
}

/// Whether the exclude set drops `line`: some regex matches.
pub open spec fn spec_ignored(line: Seq<char>, excludes: Seq<fancy_regex::Regex>) -> bool {
    exists|i: int| 0 <= i < excludes.len() && spec_matches(#[trigger] excludes[i], line)
}

/// Whether `line` survives both predicates.
pub open spec fn line_kept(
    line: Seq<char>,
    includes: Seq<fancy_regex::Regex>,
    excludes: Seq<fancy_regex::Regex>,
) -> bool {
    spec_included(line, includes) && !spec_ignored(line, excludes)
}

/// The views of a list of lines.
pub open spec fn lines_view(lines: Seq<String>) -> Seq<Seq<char>> {
    lines.map_values(|s: String| s@)
}

/// The subsequence of `lines` that survives the predicates, in order.
pub open spec fn kept_lines(
    lines: Seq<Seq<char>>,
    includes: Seq<fancy_regex::Regex>,
    excludes: Seq<fancy_regex::Regex>,
) -> Seq<Seq<char>> {
    lines.filter(|l: Seq<char>| line_kept(l, includes, excludes))
}

/// Appending one line extends the kept subsequence exactly when the line is
/// kept.
pub proof fn lemma_kept_push(
    lines: Seq<Seq<char>>,
    l: Seq<char>,
    includes: Seq<fancy_regex::Regex>,
    excludes: Seq<fancy_regex::Regex>,
)
    ensures
        kept_lines(lines.push(l), includes, excludes) == (if line_kept(l, includes, excludes) {
            kept_lines(lines, includes, excludes).push(l)
        } else {
            kept_lines(lines, includes, excludes)
        }),
{
    reveal(Seq::<_>::filter);
    assert(lines.push(l).drop_last() =~= lines);
    assert(lines.push(l).last() == l);
}

/// Every line of the kept subsequence satisfies the predicates.
pub proof fn lemma_kept_elems(
    lines: Seq<Seq<char>>,
    includes: Seq<fancy_regex::Regex>,
    excludes: Seq<fancy_regex::Regex>,
)
    ensures
        forall|i: int|
            0 <= i < kept_lines(lines, includes, excludes).len() ==> line_kept(
                #[trigger] kept_lines(lines, includes, excludes)[i],
                includes,
                excludes,
            ),
    decreases lines.len(),
{
    reveal(Seq::<_>::filter);
    if lines.len() > 0 {
        lemma_kept_elems(lines.drop_last(), includes, excludes);
    }
}

/// Filtering lines that all pass leaves them untouched.
pub proof fn lemma_kept_all(
    lines: Seq<Seq<char>>,
    includes: Seq<fancy_regex::Regex>,
    excludes: Seq<fancy_regex::Regex>,
)
    requires
        forall|i: int|
            0 <= i < lines.len() ==> line_kept(#[trigger] lines[i], includes, excludes),
    ensures
        kept_lines(lines, includes, excludes) == lines,
    decreases lines.len(),
{
    reveal(Seq::<_>::filter);
    if lines.len() == 0 {
        assert(kept_lines(lines, includes, excludes) =~= lines);
    } else {
        assert(forall|i: int|
            0 <= i < lines.drop_last().len() ==> line_kept(
                #[trigger] lines.drop_last()[i],
                includes,
                excludes,
            ));
        lemma_kept_all(lines.drop_last(), includes, excludes);
        assert(line_kept(lines.last(), includes, excludes));
        assert(kept_lines(lines, includes, excludes) =~= lines);
    }
}

/// With no include and no exclude regexes, filtering is the identity on the
/// line sequence.
pub proof fn lemma_filter_identity(lines: Seq<Seq<char>>)
    ensures
        kept_lines(
            lines,
            Seq::<fancy_regex::Regex>::empty(),
            Seq::<fancy_regex::Regex>::empty(),
        ) == lines,
{
    assert(forall|i: int|
        0 <= i < lines.len() ==> line_kept(
            #[trigger] lines[i],
            Seq::<fancy_regex::Regex>::empty(),
            Seq::<fancy_regex::Regex>::empty(),
        ));
    lemma_kept_all(lines, Seq::empty(), Seq::empty());
}

/// Filtering is idempotent: running the same include and exclude sets over
/// an already filtered sequence changes nothing.
pub proof fn lemma_filter_idempotent(
    lines: Seq<Seq<char>>,
    includes: Seq<fancy_regex::Regex>,
    excludes: Seq<fancy_regex::Regex>,
)
    ensures
        kept_lines(kept_lines(lines, includes, excludes), includes, excludes) == kept_lines(
            lines,
            includes,
            excludes,
        ),
{
    lemma_kept_elems(lines, includes, excludes);
    lemma_kept_all(kept_lines(lines, includes, excludes), includes, excludes);
}

/// Whether `re` finds a match somewhere in `line`.
pub fn regex_matches(re: &fancy_regex::Regex, line: &str) -> (r: bool)
    ensures
        r == spec_matches(*re, line@),
{
    capture_group(re, line, 0).is_some()
}

/// Whether some regex in `includes` matches, or the set is empty.
pub fn is_included(line: &str, includes: &Vec<fancy_regex::Regex>) -> (r: bool)
    ensures
        r == spec_included(line@, includes@),
{
    let mut i: usize = 0;
    while i < includes.len()
        invariant
            0 <= i <= includes@.len(),
            forall|j: int| 0 <= j < i ==> !spec_matches(#[trigger] includes@[j], line@),
        decreases includes@.len() - i,
    {
        if regex_matches(&includes[i], line) {
            return true;
        }
        i += 1;
    }
    includes.len() == 0
}

/// Whether some regex in `ignores` matches.
pub fn is_ignored(line: &str, ignores: &Vec<fancy_regex::Regex>) -> (r: bool)
    ensures
        r == spec_ignored(line@, ignores@),
{
    let mut i: usize = 0;
    while i < ignores.len()
        invariant
            0 <= i <= ignores@.len(),
            forall|j: int| 0 <= j < i ==> !spec_matches(#[trigger] ignores@[j], line@),
        decreases ignores@.len() - i,
    {
        if regex_matches(&ignores[i], line) {
            return true;
        }
        i += 1;
    }
    false
}

} // verus!
