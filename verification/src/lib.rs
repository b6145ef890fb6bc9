//! A small library for querying TOML documents: parse a document into a
//! key/value tree, resolve a dot-separated key path within it, and filter or
//! report on the resolved value's text through an optional regular
//! expression.

pub mod document;
pub mod parse;
pub mod query;
pub mod resolve;
pub mod text;

use vstd::prelude::*;

use crate::document::Doc;
use crate::query::QueryError;
use crate::query::apply;
use crate::query::regex_compiles;
use crate::query::spec_query_lines;
use crate::resolve::resolve;
use crate::resolve::spec_resolve;
use crate::resolve::spec_segments;
use crate::text::spec_trim_quotes;
use crate::text::trim_quotes;

verus! {

/// What one query against a document comes to.
#[derive(Debug)]
pub enum Outcome {
    /// The path resolved; these lines go to standard output, in order.
    Found(Vec<String>),
    /// Some segment of the path is absent from the document.
    NotFound,
}

/// Runs one whole query: resolves `path` within `doc`, strips the surrounding
/// quotes off the value's text, and applies the optional expression to what
/// is left. The only failure is an expression that does not compile; a path
/// that does not resolve is an outcome, not a failure.
pub fn run_query(doc: &Doc, path: &str, expr: Option<&str>) -> (r: Result<Outcome, QueryError>)
    ensures
        ({
            let res = spec_resolve(*doc, spec_segments(path@));
            match res {
                Option::None => r == Ok::<Outcome, QueryError>(Outcome::NotFound),
                Option::Some(v) => {
                    let t = spec_trim_quotes(v.text@);
                    match expr {
                        Some(e) => {
                            &&& r is Ok <==> regex_compiles(e@)
                            &&& (r matches Ok(o) ==> o matches Outcome::Found(lines)
                                && lines.deep_view() == spec_query_lines(t, e@))
                            &&& (r is Err ==> r == Err::<Outcome, QueryError>(
                                QueryError::RegexCompile,
                            ))
                        },
                        None => r matches Ok(Outcome::Found(lines)) && lines.deep_view() == seq![t],
                    }
                },
            }
        }),
{
    match resolve(doc, path) {
        Option::None => Ok(Outcome::NotFound),
        Option::Some(v) => {
            let trimmed = trim_quotes(v.text.as_str());
            match apply(trimmed.as_str(), expr) {
                Ok(lines) => Ok(Outcome::Found(lines)),
                Err(e) => Err(e),
            }
        },
    }
}

/// The process exit code an outcome calls for: success when the path
/// resolved, whatever the match count was, and the not-found code otherwise.
pub fn exit_code(r: &Outcome) -> (c: i32)
    ensures
        match r {
            Outcome::Found(_) => c == 0,
            Outcome::NotFound => c == -1,
        },
{
    match r {
        Outcome::Found(_) => 0,
        Outcome::NotFound => -1,
    }
}

} // verus!
