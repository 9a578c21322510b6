//! Line-oriented text extraction: filter lines with include/exclude regex
//! sets and extract named numeric columns into a column-oriented table.
//!
//! The two entry points compose the stages over a sequence of lines read by
//! the caller: `extract_data` builds a `DataTable` of one named column per
//! data regex, `filter` returns the surviving lines.

use vstd::prelude::*;

pub mod builder;
pub mod errors;
pub mod filter;
pub mod rx;
pub mod table;
pub mod util;
pub mod value;
pub mod zip;

use crate::builder::DataTableBuilder;
use crate::errors::{DataTableError, ExtractionError};
use crate::filter::{is_ignored, is_included, kept_lines, lines_view};
use crate::rx::{capture_group, captured};
use crate::table::DataTable;
use crate::util::{first_index_of, has_duplicate, names_view};
use crate::value::{parse_value, spec_parse, Value};

verus! {

/// A display name paired with a compiled data-extraction regex.
pub struct NamedRegex {
    pub name: String,
    pub regex: fancy_regex::Regex,
}

impl NamedRegex {
    /// Compiles `regex` and pairs it with `name`; `None` exactly on an
    /// invalid pattern.
    pub fn new_from_string(name: &str, regex: &str) -> (r: Option<Self>)
        ensures
            r is Some <==> crate::rx::compiled_regex(regex@) is Some,
            r matches Some(nr) ==> nr.name@ == name@ && Some(nr.regex)
                == crate::rx::compiled_regex(regex@),
    {
        match crate::rx::compile_regex(regex) {
            Some(re) => Some(NamedRegex { name: String::from_str(name), regex: re }),
            None => None,
        }
    }
}

/// The capture index the `group` flag selects: the whole match, or the first
/// explicit group.
pub open spec fn match_group(group: bool) -> nat {
    if group {
        1
    } else {
        0
    }
}

/// The value one data regex extracts from one line: the parsed capture, and
/// the not-a-number sentinel when the regex does not match, the requested
/// group is absent, or the capture does not parse.
pub open spec fn spec_extract(re: fancy_regex::Regex, line: Seq<char>, group: bool) -> Value {
    match captured(re, line, match_group(group)) {
        Some(token) => match spec_parse(token) {
            Some(v) => v,
            None => Value::Nan,
        },
        None => Value::Nan,
    }
}

/// The names of a list of data regexes, in order.
pub open spec fn regex_names(rs: Seq<NamedRegex>) -> Seq<Seq<char>> {
    rs.map_values(|r: NamedRegex| r.name@)
}

/// Column `c` of the extraction: the value of regex `c` on every line.
pub open spec fn column_values(
    rs: Seq<NamedRegex>,
    c: int,
    lines: Seq<Seq<char>>,
    group: bool,
) -> Seq<Value> {
    lines.map_values(|l: Seq<char>| spec_extract(rs[c].regex, l, group))
}

/// One more line appends one more value to every column.
pub proof fn lemma_column_push(
    rs: Seq<NamedRegex>,
    c: int,
    lines: Seq<Seq<char>>,
    l: Seq<char>,
    group: bool,
)
    ensures
        column_values(rs, c, lines.push(l), group) == column_values(rs, c, lines, group).push(
            spec_extract(rs[c].regex, l, group),
        ),
{
    assert(column_values(rs, c, lines.push(l), group) =~= column_values(rs, c, lines, group).push(
        spec_extract(rs[c].regex, l, group),
    ));
}

/// The number a single regex extracts from a line.
pub fn get_number(line: &str, rgx: &fancy_regex::Regex, group: bool) -> (r: Value)
    ensures
        r == spec_extract(*rgx, line@, group),
{
    let match_index: usize = if group {
        1
    } else {
        0
    };
    match capture_group(rgx, line, match_index) {
        Some(token) => match parse_value(token.as_str()) {
            Some(v) => v,
            None => Value::Nan,
        },
        None => Value::Nan,
    }
}

/// The `(name, value)` pairs all data regexes extract from a line, in order.
pub fn get_numbers(line: &str, rgxs: &Vec<NamedRegex>, group: bool) -> (r: Vec<(String, Value)>)
    ensures
        r@.len() == rgxs@.len(),
        forall|i: int|
            0 <= i < rgxs@.len() ==> (#[trigger] r@[i]).0@ == rgxs@[i].name@ && r@[i].1
                == spec_extract(rgxs@[i].regex, line@, group),
{
    let mut out: Vec<(String, Value)> = Vec::new();
    let mut i: usize = 0;
    while i < rgxs.len()
        invariant
            0 <= i <= rgxs@.len(),
            out@.len() == i,
            forall|j: int|
                0 <= j < i ==> (#[trigger] out@[j]).0@ == rgxs@[j].name@ && out@[j].1
                    == spec_extract(rgxs@[j].regex, line@, group),
        decreases rgxs@.len() - i,
    {
        let rgx = &rgxs[i];
        out.push((rgx.name.clone(), get_number(line, &rgx.regex, group)));
        i += 1;
    }
    out
}

/// Everything `extract_data` promises, over the views of its arguments: the
/// table's columns are named after the regexes in order and hold the value
/// each regex extracts from each kept line; the base column is the named one
/// or the auto sequence; and each failure comes exactly from its cause — a
/// repeated regex name, no regexes at all, or an unknown base name.
pub open spec fn extract_outcome(
    r: Result<DataTable, ExtractionError>,
    lines: Seq<Seq<char>>,
    rs: Seq<NamedRegex>,
    includes: Seq<fancy_regex::Regex>,
    excludes: Seq<fancy_regex::Regex>,
    base_name: Option<Seq<char>>,
    group: bool,
) -> bool {
    let names = regex_names(rs);
    let kept = kept_lines(lines, includes, excludes);
    match r {
        Ok(t) => {
            &&& !has_duplicate(names)
            &&& rs.len() > 0
            &&& (base_name matches Some(n) ==> first_index_of(names, n) is Some)
            &&& t.wf()
            &&& t.col_count() == rs.len()
            &&& t.names() == names
            &&& t.row_count() == kept.len()
            &&& forall|c: int|
                0 <= c < rs.len() ==> #[trigger] t.col(c) == column_values(rs, c, kept, group)
            &&& t.base_index() == (match base_name {
                Some(n) => first_index_of(names, n),
                None => None::<int>,
            })
        },
        Err(e) => {
            if has_duplicate(names) {
                e == ExtractionError::TableFailure(DataTableError::DuplicateName)
            } else if rs.len() == 0 {
                e == ExtractionError::TableFailure(DataTableError::InconsistentBuilderData)
            } else if base_name matches Some(n) && first_index_of(names, n) is None {
                e == ExtractionError::TableFailure(DataTableError::InvalidBaseName)
            } else {
                false
            }
        },
    }
}

/// Extracts a table from `lines`: lines pass the include/exclude filter,
/// each data regex contributes one named column, and `base_data_name`, when
/// given, selects the base column.
pub fn extract_data(
    lines: &Vec<String>,
    data_regex: &Vec<NamedRegex>,
    included_lines: &Vec<fancy_regex::Regex>,
    excluded_lines: &Vec<fancy_regex::Regex>,
    base_data_name: Option<&str>,
    group: bool,
) -> (r: Result<DataTable, ExtractionError>)
    ensures
        extract_outcome(
            r,
            lines_view(lines@),
            data_regex@,
            included_lines@,
            excluded_lines@,
            match base_data_name {
                Some(n) => Some(n@),
                None => None,
            },
            group,
        ),
{
    let ghost rs = data_regex@;
    let ghost incs = included_lines@;
    let ghost excs = excluded_lines@;
    let mut names: Vec<String> = Vec::new();
    let mut i: usize = 0;
    while i < data_regex.len()
        invariant
            0 <= i <= rs.len(),
            rs == data_regex@,
            names@.len() == i,
            forall|j: int| 0 <= j < i ==> (#[trigger] names@[j])@ == rs[j].name@,
        decreases rs.len() - i,
    {
        names.push(data_regex[i].name.clone());
        i += 1;
    }
    proof {
        assert(names_view(names@) =~= regex_names(rs));
    }
    let mut builder = match DataTableBuilder::new(&names) {
        Ok(b) => b,
        Err(e) => {
            return Err(ExtractionError::TableFailure(e));
        },
    };
    let mut i: usize = 0;
    while i < lines.len()
        invariant
            0 <= i <= lines@.len(),
            rs == data_regex@,
            incs == included_lines@,
            excs == excluded_lines@,
            builder.wf(),
            !has_duplicate(regex_names(rs)),
            builder.names() == regex_names(rs),
            builder.bufs().len() == rs.len(),
            forall|c: int|
                0 <= c < rs.len() ==> #[trigger] builder.bufs()[c] == column_values(
                    rs,
                    c,
                    kept_lines(lines_view(lines@).take(i as int), incs, excs),
                    group,
                ),
        decreases lines@.len() - i,
    {
        let line = &lines[i];
        let ghost prefix = kept_lines(lines_view(lines@).take(i as int), incs, excs);
        let keep = is_included(line.as_str(), included_lines) && !is_ignored(
            line.as_str(),
            excluded_lines,
        );
        if keep {
            let pairs = get_numbers(line.as_str(), data_regex, group);
            let ghost pre = builder;
            let mut j: usize = 0;
            while j < pairs.len()
                invariant
                    0 <= j <= rs.len(),
                    pairs@.len() == rs.len(),
                    rs == data_regex@,
                    !has_duplicate(regex_names(rs)),
                    forall|k: int|
                        0 <= k < rs.len() ==> (#[trigger] pairs@[k]).0@ == rs[k].name@
                            && pairs@[k].1 == spec_extract(rs[k].regex, line@, group),
                    builder.wf(),
                    builder.names() == regex_names(rs),
                    builder.bufs().len() == rs.len(),
                    pre.bufs().len() == rs.len(),
                    forall|c: int|
                        0 <= c < j ==> #[trigger] builder.bufs()[c] == pre.bufs()[c].push(
                            spec_extract(rs[c].regex, line@, group),
                        ),
                    forall|c: int|
                        j <= c < rs.len() ==> #[trigger] builder.bufs()[c] == pre.bufs()[c],
                decreases rs.len() - j,
            {
                proof {
                    let gnames = regex_names(rs);
                    let n = pairs@[j as int].0@;
                    assert(gnames[j as int] == rs[j as int].name@);
                    assert(n == rs[j as int].name@);
                    assert(n == gnames[j as int]);
                    crate::util::lemma_first_index_of(gnames, n);
                    match first_index_of(gnames, n) {
                        Some(k) => {
                            if k < j {
                                assert(gnames[k] == gnames[j as int]);
                                assert(0 <= k < j < gnames.len());
                                assert(has_duplicate(gnames));
                                assert(false);
                            } else if k > j {
                                assert(gnames[j as int] != n);
                                assert(false);
                            }
                        },
                        None => {
                            assert(gnames[j as int] != n);
                            assert(false);
                        },
                    }
                    assert(first_index_of(gnames, n) == Some(j as int));
                }
                let pair = &pairs[j];
                match builder.add_value(pair.0.as_str(), pair.1) {
                    Ok(()) => {},
                    Err(e) => {
                        proof {
                            assert(false);
                        }
                        return Err(ExtractionError::TableFailure(e));
                    },
                }
                j += 1;
            }
            proof {
                crate::filter::lemma_kept_push(
                    lines_view(lines@).take(i as int),
                    line@,
                    incs,
                    excs,
                );
                assert(lines_view(lines@).take(i + 1) =~= lines_view(lines@).take(i as int).push(
                    line@,
                ));
                assert forall|c: int| 0 <= c < rs.len() implies #[trigger] builder.bufs()[c]
                    == column_values(
                    rs,
                    c,
                    kept_lines(lines_view(lines@).take(i + 1), incs, excs),
                    group,
                ) by {
                    lemma_column_push(rs, c, prefix, line@, group);
                }
            }
        } else {
            proof {
                crate::filter::lemma_kept_push(
                    lines_view(lines@).take(i as int),
                    line@,
                    incs,
                    excs,
                );
                assert(lines_view(lines@).take(i + 1) =~= lines_view(lines@).take(i as int).push(
                    line@,
                ));
            }
        }
        i += 1;
    }
    proof {
        assert(lines_view(lines@).take(lines@.len() as int) =~= lines_view(lines@));
    }
    let ghost kept = kept_lines(lines_view(lines@), incs, excs);
    match builder.build(base_data_name) {
        Ok(t) => {
            proof {
                if rs.len() > 0 {
                    assert(builder.bufs()[0] == column_values(rs, 0, kept, group));
                    assert(builder.bufs()[0].len() == kept.len());
                }
            }
            Ok(t)
        },
        Err(e) => {
            proof {
                if rs.len() > 0 {
                    assert(forall|c: int|
                        0 <= c < rs.len() ==> (#[trigger] builder.bufs()[c]).len() == kept.len());
                    assert(crate::builder::uniform_len(builder.bufs()));
                }
            }
            Err(ExtractionError::TableFailure(e))
        },
    }
}

/// Filters `lines`, returning exactly the kept lines in input order.
pub fn filter(
    lines: &Vec<String>,
    included_lines: &Vec<fancy_regex::Regex>,
    excluded_lines: &Vec<fancy_regex::Regex>,
) -> (r: Result<Vec<String>, ExtractionError>)
    ensures
        r matches Ok(out) && lines_view(out@) == kept_lines(
            lines_view(lines@),
            included_lines@,
            excluded_lines@,
        ),
{
    let ghost incs = included_lines@;
    let ghost excs = excluded_lines@;
    let mut out: Vec<String> = Vec::new();
    let mut i: usize = 0;
    while i < lines.len()
        invariant
            0 <= i <= lines@.len(),
            incs == included_lines@,
            excs == excluded_lines@,
            lines_view(out@) == kept_lines(lines_view(lines@).take(i as int), incs, excs),
        decreases lines@.len() - i,
    {
        let line = &lines[i];
        let keep = is_included(line.as_str(), included_lines) && !is_ignored(
            line.as_str(),
            excluded_lines,
        );
        proof {
            crate::filter::lemma_kept_push(lines_view(lines@).take(i as int), line@, incs, excs);
            assert(lines_view(lines@).take(i + 1) =~= lines_view(lines@).take(i as int).push(
                line@,
            ));
        }
        if keep {
            let ghost before = out@;
            out.push(line.clone());
            proof {
                assert(lines_view(out@) =~= lines_view(before).push(line@));
            }
        }
        i += 1;
    }
    proof {
        assert(lines_view(lines@).take(lines@.len() as int) =~= lines_view(lines@));
    }
    Ok(out)
}

} // verus!
