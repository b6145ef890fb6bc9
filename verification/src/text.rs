//! Quote stripping for the resolved value's text: a string scalar renders
//! with its surrounding quote characters, and the printed output drops every
//! leading and trailing quote, as `str::trim_matches('"')` does.

use vstd::prelude::*;
use vstd::string::StrSliceExecFns;

verus! {

/// `s` with every leading and trailing `"` removed.
pub open spec fn spec_trim_quotes(s: Seq<char>) -> Seq<char>
    decreases s.len(),
{
    if s.len() > 0 && s[0] == '"' {
        spec_trim_quotes(s.drop_first())
    } else if s.len() > 0 && s[s.len() - 1] == '"' {
        spec_trim_quotes(s.drop_last())
    } else {
        s
    }
}

/// Strips every leading and trailing quote character from `s`.
pub fn trim_quotes(s: &str) -> (r: String)
    ensures
        r@ == spec_trim_quotes(s@),
{
    let n = s.unicode_len();
    let mut i: usize = 0;
    proof {
        assert(s@.subrange(0, n as int) =~= s@);
    }
    while i < n && s.get_char(i) == '"'
        invariant
            n == s@.len(),
            0 <= i <= n,
            spec_trim_quotes(s@.subrange(i as int, n as int)) == spec_trim_quotes(s@),
        decreases n - i,
    {
        proof {
            let cur = s@.subrange(i as int, n as int);
            assert(cur[0] == s@[i as int]);
            assert(cur.drop_first() =~= s@.subrange(i as int + 1, n as int));
        }
        i = i + 1;
    }
    let mut j: usize = n;
    while j > i && s.get_char(j - 1) == '"'
        invariant
            n == s@.len(),
            0 <= i <= j <= n,
            i < n ==> s@[i as int] != '"',
            i == n ==> j == i,
            spec_trim_quotes(s@.subrange(i as int, j as int)) == spec_trim_quotes(s@),
        decreases j,
    {
        proof {
            let cur = s@.subrange(i as int, j as int);
            assert(cur[0] == s@[i as int]);
            assert(cur[cur.len() - 1] == s@[j - 1]);
            assert(cur.drop_last() =~= s@.subrange(i as int, j as int - 1));
        }
        j = j - 1;
    }
    proof {
        let cur = s@.subrange(i as int, j as int);
        if cur.len() > 0 {
            assert(cur[0] == s@[i as int]);
            assert(cur[cur.len() - 1] == s@[j - 1]);
        }
        assert(spec_trim_quotes(cur) == cur);
    }
    let out = s.substring_char(i, j);
    out.to_owned()
}

/// Stripping the quotes off a quote-wrapped text yields exactly the text,
/// whenever the text itself does not begin or end with a quote.
pub proof fn lemma_trim_wrapped(t: Seq<char>)
    requires
        t.len() == 0 || (t[0] != '"' && t[t.len() - 1] != '"'),
    ensures
        spec_trim_quotes(seq!['"'] + t + seq!['"']) == t,
{
    let w = seq!['"'] + t + seq!['"'];
    let u = t + seq!['"'];
    assert(w.len() == t.len() + 2);
    assert(w[0] == '"');
    assert(w.drop_first() =~= u);
    assert(spec_trim_quotes(w) == spec_trim_quotes(u));
    if t.len() == 0 {
        assert(u[0] == '"');
        assert(u.drop_first() =~= t);
        assert(spec_trim_quotes(u) == spec_trim_quotes(t));
        assert(spec_trim_quotes(t) == t);
    } else {
        assert(u[0] == t[0]);
        assert(u[0] != '"');
        assert(u[u.len() - 1] == '"');
        assert(u.drop_last() =~= t);
        assert(spec_trim_quotes(u) == spec_trim_quotes(t));
        assert(t[0] != '"' && t[t.len() - 1] != '"');
        assert(spec_trim_quotes(t) == t);
    }
}

} // verus!
