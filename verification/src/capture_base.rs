//! The capture base: the ordered, de-duplicated attribute schema core
//! that every overlay annotates, with its self-addressing identifier.

use vstd::prelude::*;
use vstd::string::StringExecFns;
use crate::attribute::{type_tag, type_tag_str, AttributeType};
use crate::canon::{sentinel, write_sentinel};
use crate::digest::{sai_of, sai_for};
use crate::text::{join_comma, quoted, write_quoted};

verus! {

/// A finalized capture base: classification, the attributes' names and
/// types in insertion order, and the identifier of this very content.
pub struct CaptureBase {
    pub classification: Option<String>,
    pub attributes: Vec<(String, AttributeType)>,
    pub digest: String,
}

/// The mathematical content of a capture base, digest aside.
#[verifier::ext_equal]
pub struct CBModel {
    pub classification: Option<Seq<char>>,
    pub attributes: Seq<(Seq<char>, AttributeType)>,
}

/// The view of a name-to-type list.
pub open spec fn cb_attrs_view(s: Seq<(String, AttributeType)>) -> Seq<(Seq<char>, AttributeType)> {
    Seq::new(s.len(), |i: int| (s[i].0@, s[i].1))
}

/// The view of an optional classification.
pub open spec fn class_view(o: Option<String>) -> Option<Seq<char>> {
    match o {
        Some(s) => Some(s@),
        None => None,
    }
}

/// The content of a capture base value.
pub open spec fn cb_content(cb: CaptureBase) -> CBModel {
    CBModel {
        classification: class_view(cb.classification),
        attributes: cb_attrs_view(cb.attributes@),
    }
}

/// One `"name":"Type"` item of the canonical attribute map.
pub open spec fn cb_attr_item(p: (Seq<char>, AttributeType)) -> Seq<char> {
    quoted(p.0) + seq![':'] + quoted(type_tag(p.1))
}

/// The canonical form of a capture base, with the digest field held at
/// the given value. Attributes stand in insertion order.
pub open spec fn cb_canon_with(m: CBModel, d: Seq<char>) -> Seq<char> {
    "{\"attributes\":{"@ + join_comma(Seq::new(m.attributes.len(), |i: int| cb_attr_item(m.attributes[i])))
        + "},\"classification\":"@ + (match m.classification {
        Some(c) => quoted(c),
        None => "null"@,
    }) + ",\"digest\":\""@ + d + "\",\"type\":\"spec/capture_base/1.0\"}"@
}

/// The canonical form fed to the digest engine: the digest field holds
/// the sentinel.
pub open spec fn cb_canon(m: CBModel) -> Seq<char> {
    cb_canon_with(m, sentinel())
}

/// The self-addressing identifier of a capture base content.
pub open spec fn cb_digest(m: CBModel) -> Seq<char> {
    sai_of(cb_canon(m))
}

/// Appends the canonical form of a capture base, with the digest field
/// holding `d`, or the sentinel where `d` is absent.
pub fn write_cb_canon(
    out: &mut String,
    classification: &Option<String>,
    attributes: &Vec<(String, AttributeType)>,
    d: Option<&String>,
)
    ensures
        final(out)@ == old(out)@ + cb_canon_with(
            CBModel {
                classification: class_view(*classification),
                attributes: cb_attrs_view(attributes@),
            },
            match d {
                Some(s) => s@,
                None => sentinel(),
            },
        ),
{
    proof {
        reveal_strlit("{\"attributes\":{");
        reveal_strlit("},\"classification\":");
        reveal_strlit("null");
        reveal_strlit(",\"digest\":\"");
        reveal_strlit("\",\"type\":\"spec/capture_base/1.0\"}");
        reveal_strlit(",");
        reveal_strlit(":");
    }
    let ghost m = cb_attrs_view(attributes@);
    let ghost items = Seq::new(m.len(), |i: int| cb_attr_item(m[i]));
    out.append("{\"attributes\":{");
    let n = attributes.len();
    let mut i: usize = 0;
    while i < n
        invariant
            i <= n,
            n == attributes@.len(),
            m == cb_attrs_view(attributes@),
            items == Seq::new(m.len(), |k: int| cb_attr_item(m[k])),
            items.len() == n,
            out@ == old(out)@ + "{\"attributes\":{"@ + join_comma(items.take(i as int)),
        decreases n - i,
    {
        if i > 0 {
            out.append(",");
        }
        let pair = &attributes[i];
        write_quoted(out, pair.0.as_str());
        out.append(":");
        write_quoted(out, type_tag_str(pair.1));
        proof {
            reveal_strlit(",");
            reveal_strlit(":");
            assert(m[i as int] == (attributes@[i as int].0@, attributes@[i as int].1));
            assert(items[i as int] == cb_attr_item(m[i as int]));
            crate::text::lemma_join_comma_step(items, i as int);
            assert(out@ =~= old(out)@ + "{\"attributes\":{"@ + join_comma(items.take(i + 1)));
        }
        i += 1;
    }
    proof {
        assert(items.take(n as int) =~= items);
    }
    out.append("},\"classification\":");
    match classification {
        Some(c) => write_quoted(out, c.as_str()),
        None => out.append("null"),
    }
    out.append(",\"digest\":\"");
    match d {
        Some(s) => out.append(s.as_str()),
        None => write_sentinel(out),
    }
    out.append("\",\"type\":\"spec/capture_base/1.0\"}");
}

/// Computes the self-addressing identifier of a capture base content.
pub fn cb_digest_for(
    classification: &Option<String>,
    attributes: &Vec<(String, AttributeType)>,
) -> (r: String)
    ensures
        r@ == cb_digest(
            CBModel {
                classification: class_view(*classification),
                attributes: cb_attrs_view(attributes@),
            },
        ),
        r@.len() == 64,
{
    let mut canonical = String::new();
    write_cb_canon(&mut canonical, classification, attributes, None);
    sai_for(canonical.as_str())
}

/// A well-formed capture base: the stored digest is the identifier of
/// the stored content.
pub open spec fn cb_wf(cb: CaptureBase) -> bool {
    cb.digest@ == cb_digest(cb_content(cb))
}

} // verus!
