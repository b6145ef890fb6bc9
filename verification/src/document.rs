//! The document tree that path resolution walks.
//!
//! A node holds the textual rendering of the value it stands for, and, when
//! the value is a table, the table's entries in order. Every other kind of
//! value (string, integer, float, boolean, datetime, array) is a leaf: a key
//! lookup inside it finds nothing, and only its text matters downstream.

use vstd::prelude::*;

verus! {

/// One node of a parsed TOML document.
#[derive(Debug)]
pub struct Doc {
    /// The value's textual rendering, as the parser produced it.
    pub text: String,
    /// `Some(entries)` when the value is a table, `None` otherwise.
    pub entries: Option<Vec<(String, Doc)>>,
}

/// The value the first entry with the given key holds, searched left to right.
pub open spec fn lookup_in(es: Seq<(String, Doc)>, key: Seq<char>) -> Option<Doc>
    decreases es.len(),
{
    if es.len() == 0 {
        None
    } else if es[0].0@ == key {
        Some(es[0].1)
    } else {
        lookup_in(es.drop_first(), key)
    }
}

/// Looking a key up in a node: only a table can hold it.
pub open spec fn spec_lookup(d: Doc, key: Seq<char>) -> Option<Doc> {
    match d.entries {
        Option::Some(es) => lookup_in(es@, key),
        Option::None => None,
    }
}

proof fn lemma_lookup_in_skip(es: Seq<(String, Doc)>, key: Seq<char>, i: int)
    requires
        0 <= i < es.len(),
        es[i].0@ != key,
    ensures
        lookup_in(es.skip(i), key) == lookup_in(es.skip(i + 1), key),
{
    assert(es.skip(i).drop_first() =~= es.skip(i + 1));
    assert(es.skip(i)[0] == es[i]);
}

/// Finds the given key among a node's entries, if the node is a table that
/// holds it.
pub fn lookup<'a>(d: &'a Doc, key: &str) -> (r: Option<&'a Doc>)
    ensures
        match r {
            Some(v) => spec_lookup(*d, key@) == Some(*v),
            None => spec_lookup(*d, key@) is None,
        },
{
    match d.entries {
        Option::None => None,
        Option::Some(ref es) => {
            let n = es.len();
            let mut i: usize = 0;
            proof {
                assert(es@.skip(0) =~= es@);
            }
            while i < n
                invariant
                    n == es.len(),
                    0 <= i <= n,
                    spec_lookup(*d, key@) == lookup_in(es@, key@),
                    lookup_in(es@.skip(i as int), key@) == lookup_in(es@, key@),
                decreases n - i,
            {
                let ghost prev = i as int;
                if string_eq(&es[i].0, key) {
                    proof {
                        assert(es@.skip(prev).len() == n - prev);
                        assert(es@.skip(prev)[0] == es@[prev]);
                        assert(lookup_in(es@.skip(prev), key@) == Some(es@[prev].1));
                    }
                    return Some(&es[i].1);
                }
                proof {
                    lemma_lookup_in_skip(es@, key@, prev);
                }
                i = i + 1;
            }
            proof {
                assert(es@.skip(n as int) =~= Seq::<(String, Doc)>::empty());
            }
            None
        },
    }
}

/// Character-for-character equality of a string and a string slice.
pub fn string_eq(a: &String, b: &str) -> (r: bool)
    ensures
        r <==> a@ == b@,
{
    let an = a.as_str().unicode_len();
    let bn = b.unicode_len();
    if an != bn {
        return false;
    }
    let mut i: usize = 0;
    while i < an
        invariant
            an == a@.len(),
            an == b@.len(),
            0 <= i <= an,
            forall|j: int| 0 <= j < i ==> a@[j] == b@[j],
        decreases an - i,
    {
        if a.as_str().get_char(i) != b.get_char(i) {
            return false;
        }
        i = i + 1;
    }
    proof {
        assert(a@ =~= b@);
    }
    true
}

} // verus!
