//! Turning TOML text into the document tree. The parsing itself is the toml
//! crate's work; this module converts its value into [`Doc`] — each table's
//! entries as plain key/value pairs, every node carrying the text the crate
//! renders it as — so that everything after the parse is verified.

use vstd::prelude::*;

use crate::document::Doc;

verus! {

/// Whether `text` is a well-formed TOML document.
pub uninterp spec fn toml_parses(text: Seq<char>) -> bool;

/// The document tree that parsing `text` yields: a function of the text
/// alone, since the parser and the renderer are deterministic and the table
/// entries come out in the crate's fixed (sorted) key order.
pub uninterp spec fn toml_doc_of(text: Seq<char>) -> Doc;

#[verifier::external_type_specification]
#[verifier::external_body]
pub struct ExTomlValue(toml::Value);

/// Relies on the toml crate's `Value`: a table's entries are its key/value
/// pairs in iteration order, and `Display` renders any value as TOML text.
/// Every non-table value becomes a leaf carrying only that text.
#[verifier::external_body]
fn doc_of_value(v: &toml::Value) -> Doc {
    let text = v.to_string();
    match v {
        toml::Value::Table(m) => {
            let mut entries: Vec<(String, Doc)> = Vec::new();
            for (k, child) in m.iter() {
                entries.push((k.clone(), doc_of_value(child)));
            }
            Doc { text, entries: Some(entries) }
        },
        _ => Doc { text, entries: None },
    }
}

/// Relies on `toml::from_str`, which accepts exactly the well-formed TOML
/// documents and is deterministic, and on `doc_of_value` for the tree; a
/// failure carries the parser's diagnostic.
#[verifier::external_body]
fn parse_value(text: &str) -> (r: Result<Doc, String>)
    ensures
        r is Ok <==> toml_parses(text@),
        r is Ok ==> r->Ok_0 == toml_doc_of(text@),
{
    match toml::from_str::<toml::Value>(text) {
        Ok(v) => Ok(doc_of_value(&v)),
        Err(e) => Err(e.to_string()),
    }
}

/// Parses a TOML document into its tree, or returns the parser's diagnostic
/// when the text is malformed.
pub fn parse_document(text: &str) -> (r: Result<Doc, String>)
    ensures
        r is Ok <==> toml_parses(text@),
        r is Ok ==> r->Ok_0 == toml_doc_of(text@),
{
    parse_value(text)
}

} // verus!
