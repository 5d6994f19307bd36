//! Shared pieces of the canonical form: the digest sentinel and the
//! rendering of ordered string maps.

use vstd::prelude::*;
use vstd::string::StringExecFns;
use crate::text::{join_comma, quoted, write_quoted};
use crate::maps::pairs_view;

verus! {

/// The sentinel that stands in a digest field while the canonical form
/// is hashed: exactly as wide as an identifier, all zero.
pub open spec fn sentinel() -> Seq<char> {
    "0000000000000000000000000000000000000000000000000000000000000000"@
}

/// Appends the sentinel to `out`.
pub fn write_sentinel(out: &mut String)
    ensures
        final(out)@ == old(out)@ + sentinel(),
{
    proof {
        reveal_strlit("0000000000000000000000000000000000000000000000000000000000000000");
    }
    out.append("0000000000000000000000000000000000000000000000000000000000000000");
}

/// One `"key":"value"` item.
pub open spec fn kv_item(p: (Seq<char>, Seq<char>)) -> Seq<char> {
    quoted(p.0) + seq![':'] + quoted(p.1)
}

/// An ordered map of strings in canonical form, braces included.
pub open spec fn canon_str_map(m: Seq<(Seq<char>, Seq<char>)>) -> Seq<char> {
    seq!['{'] + join_comma(Seq::new(m.len(), |i: int| kv_item(m[i]))) + seq!['}']
}

/// Appends the canonical form of an ordered string map to `out`.
pub fn write_str_map(out: &mut String, m: &Vec<(String, String)>)
    ensures
        final(out)@ == old(out)@ + canon_str_map(pairs_view(m@)),
{
    proof {
        reveal_strlit("{");
        reveal_strlit("}");
        reveal_strlit(",");
        reveal_strlit(":");
    }
    let ghost items = Seq::new(pairs_view(m@).len(), |i: int| kv_item(pairs_view(m@)[i]));
    out.append("{");
    let n = m.len();
    let mut i: usize = 0;
    while i < n
        invariant
            i <= n,
            n == m@.len(),
            items == Seq::new(pairs_view(m@).len(), |k: int| kv_item(pairs_view(m@)[k])),
            items.len() == n,
            out@ == old(out)@ + seq!['{'] + join_comma(items.take(i as int)),
        decreases n - i,
    {
        if i > 0 {
            out.append(",");
        }
        let pair = &m[i];
        write_quoted(out, pair.0.as_str());
        out.append(":");
        write_quoted(out, pair.1.as_str());
        proof {
            reveal_strlit(",");
            reveal_strlit(":");
            assert(pairs_view(m@)[i as int] == (m@[i as int].0@, m@[i as int].1@));
            assert(items[i as int] == kv_item(pairs_view(m@)[i as int]));
            crate::text::lemma_join_comma_step(items, i as int);
            assert(out@ =~= old(out)@ + seq!['{'] + join_comma(items.take(i + 1)));
        }
        i += 1;
    }
    out.append("}");
    proof {
        assert(items.take(n as int) =~= items);
        assert(out@ =~= old(out)@ + canon_str_map(pairs_view(m@)));
    }
}

} // verus!
