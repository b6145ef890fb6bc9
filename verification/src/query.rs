//! The query filter: an optional regular expression applied to the resolved
//! value's text. Without an expression the text passes through unchanged.
//! With one, the expression is first inspected for the sed-style shape
//! `/search/replace/` and the two parts are reported when it has it — no
//! substitution is performed, the shape is only reported — and the expression
//! is then compiled and run over the text, each match becoming one line.
//! An expression that does not compile is the one failure.

use vstd::prelude::*;
use vstd::string::StringExecFns;

verus! {

/// Whether the regex engine accepts `expr` as a regular expression.
pub uninterp spec fn regex_compiles(expr: Seq<char>) -> bool;

/// The successive non-overlapping substrings of `text` that the regular
/// expression `expr` matches, leftmost first. Meaningful only for an `expr`
/// that compiles.
pub uninterp spec fn regex_matches(expr: Seq<char>, text: Seq<char>) -> Seq<Seq<char>>;

/// What the fixed pattern `/(.*)/(.*)/` captures from `expr`: the search and
/// replace parts of a sed-style expression, or nothing when `expr` does not
/// have that shape.
pub uninterp spec fn sed_parts(expr: Seq<char>) -> Option<(Seq<char>, Seq<char>)>;

/// The failure the query filter can report.
#[derive(Debug, PartialEq, Eq, Structural)]
pub enum QueryError {
    /// The expression is not a valid regular expression.
    RegexCompile,
}

/// Relies on `regex::Regex::new` with the fixed, valid pattern `/(.*)/(.*)/`
/// and on `regex::Regex::captures`: the leftmost match's two groups, both of
/// which participate whenever the pattern matches at all.
#[verifier::external_body]
fn sed_captures(expr: &str) -> (r: Option<(String, String)>)
    ensures
        match r {
            Some(p) => sed_parts(expr@) == Some((p.0@, p.1@)),
            None => sed_parts(expr@) is None,
        },
{
    let re = regex::Regex::new("/(.*)/(.*)/").unwrap();
    re.captures(expr).map(|c| (
        c.get(1).unwrap().as_str().to_string(),
        c.get(2).unwrap().as_str().to_string(),
    ))
}

/// Relies on `regex::Regex::new`, which accepts exactly the valid regular
/// expressions, and on `regex::Regex::find_iter`, which yields the successive
/// non-overlapping matches in the haystack, leftmost first.
#[verifier::external_body]
fn compile_and_find(expr: &str, text: &str) -> (r: Option<Vec<String>>)
    ensures
        match r {
            Some(ms) => regex_compiles(expr@) && ms.deep_view() == regex_matches(
                expr@,
                text@,
            ),
            None => !regex_compiles(expr@),
        },
{
    let re = match regex::Regex::new(expr) {
        Ok(re) => re,
        Err(_) => return None,
    };
    Some(re.find_iter(text).map(|m| m.as_str().to_string()).collect())
}

/// The report line for a sed-style expression: its two parts, separated by a
/// comma and a space.
pub open spec fn spec_sed_line(a: Seq<char>, b: Seq<char>) -> Seq<char> {
    a + ", "@ + b
}

/// Every line the filter prints for `text` under `expr`: the sed report when
/// `expr` has the sed shape, then `text` itself, then each match of `expr` in
/// `text`. Meaningful only for an `expr` that compiles.
pub open spec fn spec_query_lines(text: Seq<char>, expr: Seq<char>) -> Seq<Seq<char>> {
    let head = match sed_parts(expr) {
        Option::Some(p) => seq![spec_sed_line(p.0, p.1)],
        Option::None => Seq::empty(),
    };
    head + seq![text] + regex_matches(expr, text)
}

/// Applies the optional expression to the text: the text alone when there is
/// no expression, the full report of `spec_query_lines` when the expression
/// compiles, and the compile failure — with no output at all — when it does
/// not.
pub fn apply(text: &str, expr: Option<&str>) -> (r: Result<Vec<String>, QueryError>)
    ensures
        match expr {
            Some(e) => {
                &&& r is Ok <==> regex_compiles(e@)
                &&& (r matches Ok(lines) ==> lines.deep_view() == spec_query_lines(text@, e@))
                &&& (r is Err ==> r == Err::<Vec<String>, QueryError>(QueryError::RegexCompile))
            },
            None => r matches Ok(lines) && lines.deep_view() == seq![text@],
        },
{
    match expr {
        Option::None => {
            let mut lines: Vec<String> = Vec::new();
            lines.push(text.to_owned());
            proof {
                assert(lines.deep_view() =~= seq![text@]);
            }
            Ok(lines)
        },
        Option::Some(e) => {
            let found = compile_and_find(e, text);
            match found {
                Option::None => Err(QueryError::RegexCompile),
                Option::Some(ms) => {
                    let ghost head = match sed_parts(e@) {
                        Option::Some(p) => seq![spec_sed_line(p.0, p.1)],
                        Option::None => Seq::<Seq<char>>::empty(),
                    };
                    let mut lines: Vec<String> = Vec::new();
                    match sed_captures(e) {
                        Option::Some(p) => {
                            let mut line = p.0;
                            line.append(", ");
                            line.append(p.1.as_str());
                            lines.push(line);
                        },
                        Option::None => {},
                    }
                    proof {
                        assert(lines.deep_view() =~= head);
                    }
                    lines.push(text.to_owned());
                    proof {
                        assert(lines.deep_view() =~= head + seq![text@]);
                    }
                    let count = ms.len();
                    let mut idx: usize = 0;
                    while idx < count
                        invariant
                            count == ms.len(),
                            0 <= idx <= count,
                            lines.deep_view() == head + seq![text@] + ms.deep_view().take(
                                idx as int,
                            ),
                        decreases count - idx,
                    {
                        let ghost before = lines.deep_view();
                        lines.push(ms[idx].clone());
                        proof {
                            assert(lines.deep_view() =~= before.push(ms@[idx as int]@));
                            assert(ms.deep_view().take(idx as int + 1) =~= ms.deep_view().take(
                                idx as int,
                            ).push(ms@[idx as int]@));
                            assert(lines.deep_view() =~= head + seq![text@]
                                + ms.deep_view().take(idx as int + 1));
                        }
                        idx = idx + 1;
                    }
                    proof {
                        assert(ms.deep_view().take(count as int) =~= ms.deep_view());
                        assert(lines.deep_view() =~= spec_query_lines(text@, e@));
                    }
                    Ok(lines)
                },
            }
        },
    }
}

} // verus!
