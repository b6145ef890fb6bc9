//! Dot-separated path resolution: split a path on `.` and walk the document,
//! one table lookup per segment. An empty path names the root itself; an
//! empty segment (from a leading, trailing or doubled dot) is looked up as a
//! literal empty-string key.

use vstd::prelude::*;
use vstd::string::StrSliceExecFns;

use crate::document::Doc;
use crate::document::lookup;
use crate::document::spec_lookup;

verus! {

/// Index of the first `.` in `s`, or `s.len()` when none occurs.
pub open spec fn first_dot(s: Seq<char>) -> nat
    decreases s.len(),
{
    if s.len() == 0 {
        0
    } else if s[0] == '.' {
        0
    } else {
        1 + first_dot(s.drop_first())
    }
}

/// `first_dot` finds exactly the first dot: `k` is it whenever nothing before
/// `k` is a dot and `k` is a dot or the end.
proof fn lemma_first_dot_at(s: Seq<char>, k: int)
    requires
        0 <= k <= s.len(),
        forall|j: int| 0 <= j < k ==> s[j] != '.',
        k < s.len() ==> s[k] == '.',
    ensures
        first_dot(s) == k,
    decreases s.len(),
{
    if s.len() == 0 {
    } else if s[0] == '.' {
        assert(k == 0);
    } else {
        assert(s[0] != '.');
        assert(k >= 1);
        let t = s.drop_first();
        assert forall|j: int| 0 <= j < k - 1 implies t[j] != '.' by {
            assert(t[j] == s[j + 1]);
        }
        assert(k - 1 < t.len() ==> t[k - 1] == s[k]);
        lemma_first_dot_at(t, k - 1);
    }
}

/// The pieces of `s` between its dots, in order; a path with no dot is one
/// piece, and each dot separates two pieces even when they are empty.
pub open spec fn spec_split(s: Seq<char>) -> Seq<Seq<char>>
    decreases s.len(),
{
    let i = first_dot(s);
    if i < s.len() {
        seq![s.take(i as int)] + spec_split(s.skip(i as int + 1))
    } else {
        seq![s]
    }
}

/// The segments a path denotes: none at all for the empty path, otherwise the
/// path split on `.`.
pub open spec fn spec_segments(path: Seq<char>) -> Seq<Seq<char>> {
    if path.len() == 0 {
        Seq::empty()
    } else {
        spec_split(path)
    }
}

/// Splits a non-empty path into its dot-separated segments.
pub fn split_path(path: &str) -> (segs: Vec<String>)
    ensures
        segs.deep_view() == spec_split(path@),
{
    let n = path.unicode_len();
    let mut segs: Vec<String> = Vec::new();
    let mut start: usize = 0;
    let mut i: usize = 0;
    proof {
        assert(segs.deep_view() =~= Seq::<Seq<char>>::empty());
        assert(path@.skip(0) =~= path@);
    }
    while i < n
        invariant
            n == path@.len(),
            0 <= start <= i <= n,
            forall|j: int| start <= j < i ==> path@[j] != '.',
            segs.deep_view() + spec_split(path@.skip(start as int)) == spec_split(path@),
        decreases n - i,
    {
        if path.get_char(i) == '.' {
            let seg = path.substring_char(start, i).to_owned();
            let ghost prev = segs.deep_view();
            segs.push(seg);
            proof {
                let rest = path@.skip(start as int);
                assert forall|j: int| 0 <= j < i - start implies rest[j] != '.' by {
                    assert(rest[j] == path@[j + start]);
                }
                assert(rest[i - start] == path@[i as int]);
                lemma_first_dot_at(rest, i - start);
                assert(rest.take(i - start) =~= path@.subrange(start as int, i as int));
                assert(rest.skip(i - start + 1) =~= path@.skip(i as int + 1));
                assert(spec_split(rest) == seq![seg@] + spec_split(path@.skip(i as int + 1)));
                assert(segs.deep_view() =~= prev.push(seg@));
                assert(segs.deep_view() + spec_split(path@.skip(i as int + 1)) =~= prev
                    + spec_split(rest));
            }
            start = i + 1;
        }
        i = i + 1;
    }
    let seg = path.substring_char(start, n).to_owned();
    let ghost prev = segs.deep_view();
    segs.push(seg);
    proof {
        let rest = path@.skip(start as int);
        assert forall|j: int| 0 <= j < rest.len() implies rest[j] != '.' by {
            assert(rest[j] == path@[j + start]);
        }
        lemma_first_dot_at(rest, rest.len() as int);
        assert(rest =~= path@.subrange(start as int, n as int));
        assert(spec_split(rest) == seq![seg@]);
        assert(segs.deep_view() =~= prev.push(seg@));
        assert(prev.push(seg@) =~= prev + seq![seg@]);
    }
    segs
}

/// Resolution of a segment list against a node: the node itself for no
/// segments; otherwise a lookup of the first segment, and resolution of the
/// rest under the value found, absent as soon as a lookup finds nothing.
pub open spec fn spec_resolve(d: Doc, segs: Seq<Seq<char>>) -> Option<Doc>
    decreases segs.len(),
{
    if segs.len() == 0 {
        Some(d)
    } else {
        match spec_lookup(d, segs[0]) {
            Option::Some(c) => spec_resolve(c, segs.drop_first()),
            Option::None => None,
        }
    }
}

/// Walks `path` through `doc`, one table lookup per segment, and returns the
/// value every segment leads to; the root itself for the empty path; nothing
/// as soon as a segment is not a key of the table reached so far.
pub fn resolve<'a>(doc: &'a Doc, path: &str) -> (r: Option<&'a Doc>)
    ensures
        match r {
            Some(v) => spec_resolve(*doc, spec_segments(path@)) == Some(*v),
            None => spec_resolve(*doc, spec_segments(path@)) is None,
        },
        path@.len() == 0 ==> r == Some(doc),
{
    if path.unicode_len() == 0 {
        return Some(doc);
    }
    let segs = split_path(path);
    let ghost gsegs = spec_segments(path@);
    let n = segs.len();
    let mut cur: &Doc = doc;
    let mut k: usize = 0;
    proof {
        assert(gsegs.skip(0) =~= gsegs);
    }
    while k < n
        invariant
            n == segs.len(),
            0 <= k <= n,
            path@.len() != 0,
            gsegs == spec_segments(path@),
            segs.deep_view() == gsegs,
            spec_resolve(*doc, gsegs) == spec_resolve(*cur, gsegs.skip(k as int)),
        decreases n - k,
    {
        let ghost pk = k as int;
        proof {
            assert(gsegs.skip(pk)[0] == gsegs[pk]);
            assert(gsegs[pk] == segs@[pk]@);
        }
        match lookup(cur, segs[k].as_str()) {
            Option::Some(c) => {
                proof {
                    assert(gsegs.skip(pk).drop_first() =~= gsegs.skip(pk + 1));
                }
                cur = c;
                k = k + 1;
            },
            Option::None => {
                return None;
            },
        }
    }
    proof {
        assert(gsegs.skip(n as int) =~= Seq::<Seq<char>>::empty());
    }
    Some(cur)
}

/// A chain of existing table keys from `d`, following `segs` in order, that
/// ends at `v`.
pub open spec fn chain(d: Doc, segs: Seq<Seq<char>>, v: Doc) -> bool
    decreases segs.len(),
{
    if segs.len() == 0 {
        v == d
    } else {
        match spec_lookup(d, segs[0]) {
            Option::Some(c) => chain(c, segs.drop_first(), v),
            Option::None => false,
        }
    }
}

/// When a path names a chain of existing table keys that ends in a scalar,
/// resolution returns exactly that scalar.
pub proof fn lemma_chain_resolves(d: Doc, segs: Seq<Seq<char>>, v: Doc)
    requires
        chain(d, segs, v),
        v.entries is None,
    ensures
        spec_resolve(d, segs) == Some(v),
    decreases segs.len(),
{
    if segs.len() == 0 {
    } else {
        let c = spec_lookup(d, segs[0])->Some_0;
        lemma_chain_resolves(c, segs.drop_first(), v);
    }
}

/// When some segment of a path is absent from the table the segments before
/// it reach, resolution finds nothing, whatever the segments after it are.
pub proof fn lemma_absent_segment(d: Doc, segs: Seq<Seq<char>>, mid: Doc, i: int)
    requires
        0 <= i < segs.len(),
        chain(d, segs.take(i), mid),
        spec_lookup(mid, segs[i]) is None,
    ensures
        spec_resolve(d, segs) is None,
    decreases i,
{
    if i == 0 {
        assert(mid == d);
    } else {
        assert(segs.take(i)[0] == segs[0]);
        let c = spec_lookup(d, segs[0])->Some_0;
        assert(segs.take(i).drop_first() =~= segs.drop_first().take(i - 1));
        assert(segs.drop_first()[i - 1] == segs[i]);
        lemma_absent_segment(c, segs.drop_first(), mid, i - 1);
    }
}

} // verus!
