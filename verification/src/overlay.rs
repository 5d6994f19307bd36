//! The overlay variants: independently digested annotations on a capture
//! base. The variant set is closed and matched exhaustively. Entry
//! overlays keep their attribute map in lexicographic key order; every
//! other overlay preserves insertion order — the asymmetry is part of the
//! canonical form and so of the digests.

use vstd::prelude::*;
use vstd::string::StringExecFns;
use crate::attribute::{
    encoding_tag, encoding_tag_str, conformance_tag, conformance_tag_str, entries_for_lang,
    entries_model, Attribute, attr_model, Conformance, Encoding, Entry,
};
use crate::canon::{canon_str_map, sentinel, write_sentinel, write_str_map};
use crate::digest::{sai_of, sai_for};
use crate::layout::{layout_canon, layout_model, write_layout, Layout, LayoutModel};
use crate::maps::{alist_get, assoc_get, pairs_view};
use crate::text::{join_comma, lex_lt, quoted, str_eq, str_lt, write_quoted, lemma_join_comma_step};

verus! {

// ---------------------------------------------------------------------
// Views and canonical forms of the overlay payload maps.
// ---------------------------------------------------------------------

/// The view of a name-to-encoding list.
pub open spec fn enc_pairs_view(s: Seq<(String, Encoding)>) -> Seq<(Seq<char>, Encoding)> {
    Seq::new(s.len(), |i: int| (s[i].0@, s[i].1))
}

/// The view of a name-to-conformance list.
pub open spec fn conf_pairs_view(s: Seq<(String, Conformance)>) -> Seq<(Seq<char>, Conformance)> {
    Seq::new(s.len(), |i: int| (s[i].0@, s[i].1))
}

/// The view of a name-to-entry-list map.
pub open spec fn nested_view(s: Seq<(String, Vec<(String, String)>)>) -> Seq<
    (Seq<char>, Seq<(Seq<char>, Seq<char>)>),
> {
    Seq::new(s.len(), |i: int| (s[i].0@, pairs_view(s[i].1@)))
}

/// An encoding map in canonical form.
pub open spec fn canon_enc_map(m: Seq<(Seq<char>, Encoding)>) -> Seq<char> {
    seq!['{'] + join_comma(
        Seq::new(m.len(), |i: int| quoted(m[i].0) + seq![':'] + quoted(encoding_tag(m[i].1))),
    ) + seq!['}']
}

/// A conformance map in canonical form.
pub open spec fn canon_conf_map(m: Seq<(Seq<char>, Conformance)>) -> Seq<char> {
    seq!['{'] + join_comma(
        Seq::new(m.len(), |i: int| quoted(m[i].0) + seq![':'] + quoted(conformance_tag(m[i].1))),
    ) + seq!['}']
}

/// A name-to-entry-list map in canonical form.
pub open spec fn canon_nested_map(m: Seq<(Seq<char>, Seq<(Seq<char>, Seq<char>)>)>) -> Seq<char> {
    seq!['{'] + join_comma(
        Seq::new(m.len(), |i: int| quoted(m[i].0) + seq![':'] + canon_str_map(m[i].1)),
    ) + seq!['}']
}

/// Appends the canonical form of an encoding map.
pub fn write_enc_map(out: &mut String, m: &Vec<(String, Encoding)>)
    ensures
        final(out)@ == old(out)@ + canon_enc_map(enc_pairs_view(m@)),
{
    proof {
        reveal_strlit("{");
        reveal_strlit("}");
    }
    let ghost mm = enc_pairs_view(m@);
    let ghost items = Seq::new(mm.len(), |i: int| quoted(mm[i].0) + seq![':'] + quoted(encoding_tag(mm[i].1)));
    out.append("{");
    let n = m.len();
    let mut i: usize = 0;
    while i < n
        invariant
            i <= n,
            n == m@.len(),
            mm == enc_pairs_view(m@),
            items == Seq::new(mm.len(), |k: int| quoted(mm[k].0) + seq![':'] + quoted(encoding_tag(mm[k].1))),
            items.len() == n,
            out@ == old(out)@ + seq!['{'] + join_comma(items.take(i as int)),
        decreases n - i,
    {
        if i > 0 {
            proof {
                reveal_strlit(",");
            }
            out.append(",");
        }
        let pair = &m[i];
        write_quoted(out, pair.0.as_str());
        proof {
            reveal_strlit(":");
        }
        out.append(":");
        write_quoted(out, encoding_tag_str(pair.1));
        proof {
            assert(mm[i as int] == (m@[i as int].0@, m@[i as int].1));
            lemma_join_comma_step(items, i as int);
            assert(out@ =~= old(out)@ + seq!['{'] + join_comma(items.take(i + 1)));
        }
        i += 1;
    }
    proof {
        assert(items.take(n as int) =~= items);
    }
    out.append("}");
}

/// Appends the canonical form of a conformance map.
pub fn write_conf_map(out: &mut String, m: &Vec<(String, Conformance)>)
    ensures
        final(out)@ == old(out)@ + canon_conf_map(conf_pairs_view(m@)),
{
    proof {
        reveal_strlit("{");
        reveal_strlit("}");
    }
    let ghost mm = conf_pairs_view(m@);
    let ghost items = Seq::new(mm.len(), |i: int| quoted(mm[i].0) + seq![':'] + quoted(conformance_tag(mm[i].1)));
    out.append("{");
    let n = m.len();
    let mut i: usize = 0;
    while i < n
        invariant
            i <= n,
            n == m@.len(),
            mm == conf_pairs_view(m@),
            items == Seq::new(mm.len(), |k: int| quoted(mm[k].0) + seq![':'] + quoted(conformance_tag(mm[k].1))),
            items.len() == n,
            out@ == old(out)@ + seq!['{'] + join_comma(items.take(i as int)),
        decreases n - i,
    {
        if i > 0 {
            proof {
                reveal_strlit(",");
            }
            out.append(",");
        }
        let pair = &m[i];
        write_quoted(out, pair.0.as_str());
        proof {
            reveal_strlit(":");
        }
        out.append(":");
        write_quoted(out, conformance_tag_str(pair.1));
        proof {
            assert(mm[i as int] == (m@[i as int].0@, m@[i as int].1));
            lemma_join_comma_step(items, i as int);
            assert(out@ =~= old(out)@ + seq!['{'] + join_comma(items.take(i + 1)));
        }
        i += 1;
    }
    proof {
        assert(items.take(n as int) =~= items);
    }
    out.append("}");
}

/// Appends the canonical form of a name-to-entry-list map.
pub fn write_nested_map(out: &mut String, m: &Vec<(String, Vec<(String, String)>)>)
    ensures
        final(out)@ == old(out)@ + canon_nested_map(nested_view(m@)),
{
    proof {
        reveal_strlit("{");
        reveal_strlit("}");
    }
    let ghost mm = nested_view(m@);
    let ghost items = Seq::new(mm.len(), |i: int| quoted(mm[i].0) + seq![':'] + canon_str_map(mm[i].1));
    out.append("{");
    let n = m.len();
    let mut i: usize = 0;
    while i < n
        invariant
            i <= n,
            n == m@.len(),
            mm == nested_view(m@),
            items == Seq::new(mm.len(), |k: int| quoted(mm[k].0) + seq![':'] + canon_str_map(mm[k].1)),
            items.len() == n,
            out@ == old(out)@ + seq!['{'] + join_comma(items.take(i as int)),
        decreases n - i,
    {
        if i > 0 {
            proof {
                reveal_strlit(",");
            }
            out.append(",");
        }
        let pair = &m[i];
        write_quoted(out, pair.0.as_str());
        proof {
            reveal_strlit(":");
        }
        out.append(":");
        write_str_map(out, &pair.1);
        proof {
            assert(mm[i as int] == (m@[i as int].0@, pairs_view(m@[i as int].1@)));
            lemma_join_comma_step(items, i as int);
            assert(out@ =~= old(out)@ + seq!['{'] + join_comma(items.take(i + 1)));
        }
        i += 1;
    }
    proof {
        assert(items.take(n as int) =~= items);
    }
    out.append("}");
}

// ---------------------------------------------------------------------
// Lexicographic insertion for entry overlays.
// ---------------------------------------------------------------------

/// `lex_lt` is asymmetric, and unequal sequences never relate both ways.
pub proof fn lemma_lex_asym(a: Seq<char>, b: Seq<char>)
    requires
        lex_lt(a, b),
    ensures
        !lex_lt(b, a),
        a != b,
    decreases a.len(),
{
    if b.len() > 0 && a.len() > 0 && a[0] == b[0] {
        lemma_lex_asym(a.drop_first(), b.drop_first());
        assert(a != b) by {
            assert(a.drop_first() != b.drop_first());
        }
    }
}

/// Two sequences relate one way, the other way, or are equal.
pub proof fn lemma_lex_total(a: Seq<char>, b: Seq<char>)
    ensures
        lex_lt(a, b) || lex_lt(b, a) || a == b,
    decreases a.len(),
{
    if a.len() == 0 && b.len() == 0 {
        assert(a =~= b);
    } else if a.len() > 0 && b.len() > 0 {
        if a[0] == b[0] {
            lemma_lex_total(a.drop_first(), b.drop_first());
            if a.drop_first() == b.drop_first() {
                assert(a =~= seq![a[0]] + a.drop_first());
                assert(b =~= seq![b[0]] + b.drop_first());
            }
        }
    }
}

/// No sequence sorts below itself.
pub proof fn lemma_lex_irrefl(a: Seq<char>)
    ensures
        !lex_lt(a, a),
    decreases a.len(),
{
    if a.len() > 0 {
        lemma_lex_irrefl(a.drop_first());
    }
}

/// Inserts the pair at its lexicographic position, or replaces the value
/// under an equal key in place.
pub open spec fn insert_sorted<V>(m: Seq<(Seq<char>, V)>, k: Seq<char>, v: V) -> Seq<
    (Seq<char>, V),
>
    decreases m.len(),
{
    if m.len() == 0 {
        seq![(k, v)]
    } else if lex_lt(k, m[0].0) {
        seq![(k, v)] + m
    } else if k == m[0].0 {
        m.update(0, (k, v))
    } else {
        seq![m[0]] + insert_sorted(m.drop_first(), k, v)
    }
}

/// With every key before `i` below `k`, insertion lands at `i`.
pub proof fn lemma_insert_sorted_at<V>(m: Seq<(Seq<char>, V)>, k: Seq<char>, v: V, i: int)
    requires
        0 <= i <= m.len(),
        forall|j: int| 0 <= j < i ==> lex_lt(m[j].0, k),
    ensures
        i == m.len() ==> insert_sorted(m, k, v) =~= m.push((k, v)),
        i < m.len() && m[i].0 == k ==> insert_sorted(m, k, v) =~= m.update(i, (k, v)),
        i < m.len() && lex_lt(k, m[i].0) ==> insert_sorted(m, k, v) =~= m.take(i) + seq![(k, v)]
            + m.skip(i),
    decreases i,
{
    if i == 0 {
        if 0 < m.len() && lex_lt(k, m[0].0) {
            assert(m.take(0) + seq![(k, v)] + m.skip(0) =~= seq![(k, v)] + m);
        }
        if 0 < m.len() && m[0].0 == k {
            lemma_lex_irrefl(k);
        }
    } else {
        lemma_lex_asym(m[0].0, k);
        lemma_insert_sorted_at(m.drop_first(), k, v, i - 1);
        if i == m.len() {
            assert(seq![m[0]] + m.drop_first().push((k, v)) =~= m.push((k, v)));
        } else if m[i].0 == k {
            assert(m.drop_first()[i - 1] == m[i]);
            assert(seq![m[0]] + m.drop_first().update(i - 1, (k, v)) =~= m.update(i, (k, v)));
        } else if lex_lt(k, m[i].0) {
            assert(seq![m[0]] + (m.drop_first().take(i - 1) + seq![(k, v)] + m.drop_first().skip(
                i - 1,
            )) =~= m.take(i) + seq![(k, v)] + m.skip(i));
        }
    }
}

/// Inserts `(k, v)` at its lexicographic position, replacing the value
/// under an equal key.
pub fn sorted_put(m: &mut Vec<(String, Vec<(String, String)>)>, k: &String, v: Vec<(String, String)>)
    ensures
        nested_view(final(m)@) == insert_sorted(nested_view(old(m)@), k@, pairs_view(v@)),
{
    let n = m.len();
    let mut i: usize = 0;
    while i < n
        invariant
            i <= n,
            n == m@.len(),
            m@ == old(m)@,
            forall|j: int| 0 <= j < i ==> lex_lt(nested_view(m@)[j].0, k@),
        decreases n - i,
    {
        let before = {
            let pair = &m[i];
            str_lt(k.as_str(), pair.0.as_str())
        };
        if before {
            m.insert(i, (k.clone(), v));
            proof {
                lemma_insert_sorted_at(nested_view(old(m)@), k@, pairs_view(v@), i as int);
                assert(nested_view(m@) =~= nested_view(old(m)@).take(i as int) + seq![
                    (k@, pairs_view(v@)),
                ] + nested_view(old(m)@).skip(i as int));
            }
            return;
        }
        let same = {
            let pair = &m[i];
            str_eq(k.as_str(), pair.0.as_str())
        };
        if same {
            let _ = m.remove(i);
            m.insert(i, (k.clone(), v));
            proof {
                lemma_insert_sorted_at(nested_view(old(m)@), k@, pairs_view(v@), i as int);
                assert(nested_view(m@) =~= nested_view(old(m)@).update(i as int, (k@, pairs_view(v@))));
            }
            return;
        }
        proof {
            lemma_lex_total(k@, nested_view(m@)[i as int].0);
        }
        i += 1;
    }
    m.push((k.clone(), v));
    proof {
        lemma_insert_sorted_at(nested_view(old(m)@), k@, pairs_view(v@), n as int);
        assert(nested_view(m@) =~= nested_view(old(m)@).push((k@, pairs_view(v@))));
    }
}

// ---------------------------------------------------------------------
// The overlay variants.
// ---------------------------------------------------------------------

/// Free-form per-language properties, such as a schema name and
/// description.
pub struct MetaOverlay {
    pub capture_base: String,
    pub overlay_type: String,
    pub language: String,
    pub properties: Vec<(String, String)>,
    pub digest: String,
}

/// Per-language attribute labels.
pub struct LabelOverlay {
    pub capture_base: String,
    pub overlay_type: String,
    pub language: String,
    pub attribute_labels: Vec<(String, String)>,
    pub digest: String,
}

/// Per-language attribute information texts.
pub struct InformationOverlay {
    pub capture_base: String,
    pub overlay_type: String,
    pub language: String,
    pub attribute_information: Vec<(String, String)>,
    pub digest: String,
}

/// Character encodings per attribute; carries no language.
pub struct CharacterEncodingOverlay {
    pub capture_base: String,
    pub overlay_type: String,
    pub attribute_character_encoding: Vec<(String, Encoding)>,
    pub digest: String,
}

/// Conformance markers per attribute; carries no language.
pub struct ConformanceOverlay {
    pub capture_base: String,
    pub overlay_type: String,
    pub attribute_conformance: Vec<(String, Conformance)>,
    pub digest: String,
}

/// Per-language entry lists, keyed by attribute name in lexicographic
/// order.
pub struct EntryOverlay {
    pub capture_base: String,
    pub overlay_type: String,
    pub language: String,
    pub attr_entries: Vec<(String, Vec<(String, String)>)>,
    pub digest: String,
}

/// A form layout; carries no language and no per-attribute map.
pub struct FormLayoutOverlay {
    pub capture_base: String,
    pub overlay_type: String,
    pub layout: Layout,
    pub digest: String,
}

/// The closed overlay sum.
pub enum Overlay {
    Meta(MetaOverlay),
    CharacterEncoding(CharacterEncodingOverlay),
    Conformance(ConformanceOverlay),
    Label(LabelOverlay),
    Information(InformationOverlay),
    Entry(EntryOverlay),
    FormLayout(FormLayoutOverlay),
}

/// The mathematical content of an overlay, digest and capture base
/// reference aside.
#[verifier::ext_equal]
pub enum OverlayModel {
    Meta { language: Seq<char>, properties: Seq<(Seq<char>, Seq<char>)> },
    CharacterEncoding { encodings: Seq<(Seq<char>, Encoding)> },
    Conformance { markers: Seq<(Seq<char>, Conformance)> },
    Label { language: Seq<char>, labels: Seq<(Seq<char>, Seq<char>)> },
    Information { language: Seq<char>, information: Seq<(Seq<char>, Seq<char>)> },
    Entry { language: Seq<char>, entries: Seq<(Seq<char>, Seq<(Seq<char>, Seq<char>)>)> },
    FormLayout { layout: LayoutModel },
}

/// The model of an overlay value.
pub open spec fn overlay_model(o: Overlay) -> OverlayModel {
    match o {
        Overlay::Meta(v) => OverlayModel::Meta {
            language: v.language@,
            properties: pairs_view(v.properties@),
        },
        Overlay::CharacterEncoding(v) => OverlayModel::CharacterEncoding {
            encodings: enc_pairs_view(v.attribute_character_encoding@),
        },
        Overlay::Conformance(v) => OverlayModel::Conformance {
            markers: conf_pairs_view(v.attribute_conformance@),
        },
        Overlay::Label(v) => OverlayModel::Label {
            language: v.language@,
            labels: pairs_view(v.attribute_labels@),
        },
        Overlay::Information(v) => OverlayModel::Information {
            language: v.language@,
            information: pairs_view(v.attribute_information@),
        },
        Overlay::Entry(v) => OverlayModel::Entry {
            language: v.language@,
            entries: nested_view(v.attr_entries@),
        },
        Overlay::FormLayout(v) => OverlayModel::FormLayout { layout: layout_model(v.layout) },
    }
}

/// The stored capture base reference of an overlay.
pub open spec fn ov_cb(o: Overlay) -> Seq<char> {
    match o {
        Overlay::Meta(v) => v.capture_base@,
        Overlay::CharacterEncoding(v) => v.capture_base@,
        Overlay::Conformance(v) => v.capture_base@,
        Overlay::Label(v) => v.capture_base@,
        Overlay::Information(v) => v.capture_base@,
        Overlay::Entry(v) => v.capture_base@,
        Overlay::FormLayout(v) => v.capture_base@,
    }
}

/// The stored digest of an overlay.
pub open spec fn ov_digest_field(o: Overlay) -> Seq<char> {
    match o {
        Overlay::Meta(v) => v.digest@,
        Overlay::CharacterEncoding(v) => v.digest@,
        Overlay::Conformance(v) => v.digest@,
        Overlay::Label(v) => v.digest@,
        Overlay::Information(v) => v.digest@,
        Overlay::Entry(v) => v.digest@,
        Overlay::FormLayout(v) => v.digest@,
    }
}

/// The stored versioned type identifier of an overlay.
pub open spec fn ov_type_field(o: Overlay) -> Seq<char> {
    match o {
        Overlay::Meta(v) => v.overlay_type@,
        Overlay::CharacterEncoding(v) => v.overlay_type@,
        Overlay::Conformance(v) => v.overlay_type@,
        Overlay::Label(v) => v.overlay_type@,
        Overlay::Information(v) => v.overlay_type@,
        Overlay::Entry(v) => v.overlay_type@,
        Overlay::FormLayout(v) => v.overlay_type@,
    }
}

/// The versioned type identifier that belongs to an overlay content.
pub open spec fn uri_of(m: OverlayModel) -> Seq<char> {
    match m {
        OverlayModel::Meta { .. } => "spec/overlays/meta/1.0"@,
        OverlayModel::CharacterEncoding { .. } => "spec/overlays/character_encoding/1.0"@,
        OverlayModel::Conformance { .. } => "spec/overlays/conformance/1.0"@,
        OverlayModel::Label { .. } => "spec/overlays/label/1.0"@,
        OverlayModel::Information { .. } => "spec/overlays/information/1.0"@,
        OverlayModel::Entry { .. } => "spec/overlays/entry/1.0"@,
        OverlayModel::FormLayout { .. } => "spec/overlays/form_layout/1.0"@,
    }
}

/// The payload part of an overlay's canonical form, between the head and
/// the type field.
pub open spec fn ov_body_canon(m: OverlayModel) -> Seq<char> {
    match m {
        OverlayModel::Meta { language, properties } => "\"language\":"@ + quoted(language)
            + ",\"properties\":"@ + canon_str_map(properties) + seq![','],
        OverlayModel::CharacterEncoding { encodings } => "\"attribute_character_encoding\":"@
            + canon_enc_map(encodings) + seq![','],
        OverlayModel::Conformance { markers } => "\"attribute_conformance\":"@ + canon_conf_map(
            markers,
        ) + seq![','],
        OverlayModel::Label { language, labels } => "\"attribute_labels\":"@ + canon_str_map(labels)
            + ",\"language\":"@ + quoted(language) + seq![','],
        OverlayModel::Information { language, information } => "\"attribute_information\":"@
            + canon_str_map(information) + ",\"language\":"@ + quoted(language) + seq![','],
        OverlayModel::Entry { language, entries } => "\"attr_entries\":"@ + canon_nested_map(entries)
            + ",\"language\":"@ + quoted(language) + seq![','],
        OverlayModel::FormLayout { layout } => "\"layout\":"@ + layout_canon(layout) + seq![','],
    }
}

/// The canonical form of an overlay, with the digest field held at `d`.
/// It binds the capture base identifier the overlay targets.
pub open spec fn ov_canon_with(m: OverlayModel, cb: Seq<char>, d: Seq<char>) -> Seq<char> {
    "{\"capture_base\":"@ + quoted(cb) + ",\"digest\":\""@ + d + "\","@ + ov_body_canon(m)
        + "\"type\":"@ + quoted(uri_of(m)) + seq!['}']
}

/// The self-addressing identifier of an overlay content targeting a
/// capture base.
pub open spec fn ov_digest(m: OverlayModel, cb: Seq<char>) -> Seq<char> {
    sai_of(ov_canon_with(m, cb, sentinel()))
}

/// A sealed overlay: its stored type identifier, capture base reference
/// and digest agree with its content.
pub open spec fn ov_wf(o: Overlay, cb: Seq<char>) -> bool {
    &&& ov_type_field(o) == uri_of(overlay_model(o))
    &&& ov_cb(o) == cb
    &&& ov_digest_field(o) == ov_digest(overlay_model(o), cb)
}

/// Appends the canonical form of an overlay, with the digest field
/// holding the stored digest where `sealed` is set, the sentinel
/// otherwise.
#[verifier::rlimit(100)]
pub fn write_ov_canon(out: &mut String, o: &Overlay, sealed: bool)
    ensures
        final(out)@ == old(out)@ + ov_canon_with(
            overlay_model(*o),
            ov_cb(*o),
            if sealed {
                ov_digest_field(*o)
            } else {
                sentinel()
            },
        ),
{
    proof {
        reveal_strlit("{\"capture_base\":");
        reveal_strlit(",\"digest\":\"");
        reveal_strlit("\",");
        reveal_strlit("\"type\":");
        reveal_strlit("}");
        reveal_strlit("\"language\":");
        reveal_strlit(",\"properties\":");
        reveal_strlit("\"attribute_character_encoding\":");
        reveal_strlit("\"attribute_conformance\":");
        reveal_strlit("\"attribute_labels\":");
        reveal_strlit("\"attribute_information\":");
        reveal_strlit("\"attr_entries\":");
        reveal_strlit(",\"language\":");
        reveal_strlit("\"layout\":");
        reveal_strlit(",");
        reveal_strlit("spec/overlays/meta/1.0");
        reveal_strlit("spec/overlays/character_encoding/1.0");
        reveal_strlit("spec/overlays/conformance/1.0");
        reveal_strlit("spec/overlays/label/1.0");
        reveal_strlit("spec/overlays/information/1.0");
        reveal_strlit("spec/overlays/entry/1.0");
        reveal_strlit("spec/overlays/form_layout/1.0");
    }
    out.append("{\"capture_base\":");
    match o {
        Overlay::Meta(v) => write_quoted(out, v.capture_base.as_str()),
        Overlay::CharacterEncoding(v) => write_quoted(out, v.capture_base.as_str()),
        Overlay::Conformance(v) => write_quoted(out, v.capture_base.as_str()),
        Overlay::Label(v) => write_quoted(out, v.capture_base.as_str()),
        Overlay::Information(v) => write_quoted(out, v.capture_base.as_str()),
        Overlay::Entry(v) => write_quoted(out, v.capture_base.as_str()),
        Overlay::FormLayout(v) => write_quoted(out, v.capture_base.as_str()),
    }
    out.append(",\"digest\":\"");
    if sealed {
        match o {
            Overlay::Meta(v) => out.append(v.digest.as_str()),
            Overlay::CharacterEncoding(v) => out.append(v.digest.as_str()),
            Overlay::Conformance(v) => out.append(v.digest.as_str()),
            Overlay::Label(v) => out.append(v.digest.as_str()),
            Overlay::Information(v) => out.append(v.digest.as_str()),
            Overlay::Entry(v) => out.append(v.digest.as_str()),
            Overlay::FormLayout(v) => out.append(v.digest.as_str()),
        }
    } else {
        write_sentinel(out);
    }
    out.append("\",");
    let ghost mid = out@;
    match o {
        Overlay::Meta(v) => {
            out.append("\"language\":");
            write_quoted(out, v.language.as_str());
            out.append(",\"properties\":");
            write_str_map(out, &v.properties);
            out.append(",");
            out.append("\"type\":");
            write_quoted(out, "spec/overlays/meta/1.0");
            proof {
                assert(out@ =~= mid + ov_body_canon(overlay_model(*o)) + "\"type\":"@ + quoted(
                    uri_of(overlay_model(*o)),
                ));
            }
        },
        Overlay::CharacterEncoding(v) => {
            out.append("\"attribute_character_encoding\":");
            write_enc_map(out, &v.attribute_character_encoding);
            out.append(",");
            out.append("\"type\":");
            write_quoted(out, "spec/overlays/character_encoding/1.0");
            proof {
                assert(out@ =~= mid + ov_body_canon(overlay_model(*o)) + "\"type\":"@ + quoted(
                    uri_of(overlay_model(*o)),
                ));
            }
        },
        Overlay::Conformance(v) => {
            out.append("\"attribute_conformance\":");
            write_conf_map(out, &v.attribute_conformance);
            out.append(",");
            out.append("\"type\":");
            write_quoted(out, "spec/overlays/conformance/1.0");
            proof {
                assert(out@ =~= mid + ov_body_canon(overlay_model(*o)) + "\"type\":"@ + quoted(
                    uri_of(overlay_model(*o)),
                ));
            }
        },
        Overlay::Label(v) => {
            out.append("\"attribute_labels\":");
            write_str_map(out, &v.attribute_labels);
            out.append(",\"language\":");
            write_quoted(out, v.language.as_str());
            out.append(",");
            out.append("\"type\":");
            write_quoted(out, "spec/overlays/label/1.0");
            proof {
                assert(out@ =~= mid + ov_body_canon(overlay_model(*o)) + "\"type\":"@ + quoted(
                    uri_of(overlay_model(*o)),
                ));
            }
        },
        Overlay::Information(v) => {
            out.append("\"attribute_information\":");
            write_str_map(out, &v.attribute_information);
            out.append(",\"language\":");
            write_quoted(out, v.language.as_str());
            out.append(",");
            out.append("\"type\":");
            write_quoted(out, "spec/overlays/information/1.0");
            proof {
                assert(out@ =~= mid + ov_body_canon(overlay_model(*o)) + "\"type\":"@ + quoted(
                    uri_of(overlay_model(*o)),
                ));
            }
        },
        Overlay::Entry(v) => {
            out.append("\"attr_entries\":");
            write_nested_map(out, &v.attr_entries);
            out.append(",\"language\":");
            write_quoted(out, v.language.as_str());
            out.append(",");
            out.append("\"type\":");
            write_quoted(out, "spec/overlays/entry/1.0");
            proof {
                assert(out@ =~= mid + ov_body_canon(overlay_model(*o)) + "\"type\":"@ + quoted(
                    uri_of(overlay_model(*o)),
                ));
            }
        },
        Overlay::FormLayout(v) => {
            out.append("\"layout\":");
            write_layout(out, &v.layout);
            out.append(",");
            out.append("\"type\":");
            write_quoted(out, "spec/overlays/form_layout/1.0");
            proof {
                assert(out@ =~= mid + ov_body_canon(overlay_model(*o)) + "\"type\":"@ + quoted(
                    uri_of(overlay_model(*o)),
                ));
            }
        },
    }
    out.append("}");
    proof {
        assert(out@ =~= old(out)@ + ov_canon_with(
            overlay_model(*o),
            ov_cb(*o),
            if sealed {
                ov_digest_field(*o)
            } else {
                sentinel()
            },
        ));
    }
}

/// Seals an overlay onto a capture base: stores the reference and the
/// overlay's own identifier, computed over its canonical form with the
/// digest field at the sentinel.
pub fn seal(o: &mut Overlay, cb: &String)
    ensures
        overlay_model(*final(o)) == overlay_model(*old(o)),
        ov_type_field(*final(o)) == ov_type_field(*old(o)),
        ov_cb(*final(o)) == cb@,
        ov_digest_field(*final(o)) == ov_digest(overlay_model(*old(o)), cb@),
{
    match o {
        Overlay::Meta(v) => v.capture_base = cb.clone(),
        Overlay::CharacterEncoding(v) => v.capture_base = cb.clone(),
        Overlay::Conformance(v) => v.capture_base = cb.clone(),
        Overlay::Label(v) => v.capture_base = cb.clone(),
        Overlay::Information(v) => v.capture_base = cb.clone(),
        Overlay::Entry(v) => v.capture_base = cb.clone(),
        Overlay::FormLayout(v) => v.capture_base = cb.clone(),
    }
    let mut canonical = String::new();
    write_ov_canon(&mut canonical, o, false);
    let d = sai_for(canonical.as_str());
    match o {
        Overlay::Meta(v) => v.digest = d,
        Overlay::CharacterEncoding(v) => v.digest = d,
        Overlay::Conformance(v) => v.digest = d,
        Overlay::Label(v) => v.digest = d,
        Overlay::Information(v) => v.digest = d,
        Overlay::Entry(v) => v.digest = d,
        Overlay::FormLayout(v) => v.digest = d,
    }
}

impl EntryOverlay {
    /// A fresh, unsealed entry overlay for one language.
    pub fn new(lang: String) -> (r: Box<EntryOverlay>)
        ensures
            r.language@ == lang@,
            r.capture_base@ == Seq::<char>::empty(),
            r.overlay_type@ == "spec/overlays/entry/1.0"@,
            nested_view(r.attr_entries@) == Seq::<(Seq<char>, Seq<(Seq<char>, Seq<char>)>)>::empty(),
            r.digest@ == Seq::<char>::empty(),
    {
        let r = Box::new(
            EntryOverlay {
                capture_base: String::new(),
                overlay_type: String::from_str("spec/overlays/entry/1.0"),
                language: lang,
                attr_entries: Vec::new(),
                digest: String::new(),
            },
        );
        proof {
            reveal_strlit("spec/overlays/entry/1.0");
            assert(nested_view(r.attr_entries@) =~= Seq::<
                (Seq<char>, Seq<(Seq<char>, Seq<char>)>),
            >::empty());
        }
        r
    }

    /// The capture base reference this overlay targets.
    pub fn capture_base(&self) -> (r: &String)
        ensures
            r@ == self.capture_base@,
    {
        &self.capture_base
    }

    /// The versioned type identifier.
    pub fn overlay_type(&self) -> (r: &String)
        ensures
            r@ == self.overlay_type@,
    {
        &self.overlay_type
    }

    /// The language this overlay carries.
    pub fn language(&self) -> (r: Option<&String>)
        ensures
            r matches Some(l) && l@ == self.language@,
    {
        Some(&self.language)
    }

    /// The attribute names present, in stored (lexicographic) order.
    pub fn attributes(&self) -> (r: Vec<&String>)
        ensures
            r@.len() == self.attr_entries@.len(),
            forall|i: int|
                0 <= i < r@.len() ==> r@[i]@ == nested_view(self.attr_entries@)[i].0,
    {
        let mut r: Vec<&String> = Vec::new();
        let n = self.attr_entries.len();
        let mut i: usize = 0;
        while i < n
            invariant
                i <= n,
                n == self.attr_entries@.len(),
                r@.len() == i,
                forall|j: int|
                    0 <= j < i ==> r@[j]@ == nested_view(self.attr_entries@)[j].0,
            decreases n - i,
        {
            r.push(&self.attr_entries[i].0);
            i += 1;
        }
        r
    }

    /// Takes the attribute's entry pairs for this overlay's language, if
    /// the attribute carries any, and inserts them under the attribute's
    /// name at its lexicographic position.
    pub fn add(&mut self, attribute: &Attribute)
        ensures
            ({
                let es = entries_for_lang(attr_model(*attribute).entries, old(self).language@);
                &&& es.len() > 0 ==> nested_view(final(self).attr_entries@) == insert_sorted(
                    nested_view(old(self).attr_entries@),
                    attribute.name@,
                    es,
                )
                &&& es.len() == 0 ==> final(self).attr_entries@ == old(self).attr_entries@
            }),
            final(self).capture_base@ == old(self).capture_base@,
            final(self).overlay_type@ == old(self).overlay_type@,
            final(self).language@ == old(self).language@,
            final(self).digest@ == old(self).digest@,
    {
        let es = entries_pairs_for_lang(&attribute.entries, self.language.as_str());
        if es.len() > 0 {
            sorted_put(&mut self.attr_entries, &attribute.name, es);
        }
    }
}

/// The per-language entry pairs of an entry list, as `entries_for_lang`
/// names them.
pub fn entries_pairs_for_lang(entries: &Vec<Entry>, lang: &str) -> (r: Vec<(String, String)>)
    ensures
        pairs_view(r@) == entries_for_lang(entries_model(entries@), lang@),
{
    let ghost ms = entries_model(entries@);
    let mut r: Vec<(String, String)> = Vec::new();
    let n = entries.len();
    let mut i: usize = 0;
    proof {
        assert(pairs_view(r@) =~= entries_for_lang(ms.take(0), lang@));
    }
    while i < n
        invariant
            i <= n,
            n == entries@.len(),
            ms == entries_model(entries@),
            ms.len() == n,
            pairs_view(r@) == entries_for_lang(ms.take(i as int), lang@),
        decreases n - i,
    {
        let e = &entries[i];
        match alist_get(&e.translations, lang) {
            Some(label) => {
                r.push((e.id.clone(), label.clone()));
            },
            None => {},
        }
        proof {
            assert(ms.take(i + 1).drop_last() =~= ms.take(i as int));
            assert(ms.take(i + 1).last() == ms[i as int]);
            assert(ms[i as int].translations == pairs_view(entries@[i as int].translations@));
            assert(pairs_view(r@) =~= entries_for_lang(ms.take(i + 1), lang@));
        }
        i += 1;
    }
    proof {
        assert(ms.take(n as int) =~= ms);
    }
    r
}

impl FormLayoutOverlay {
    /// A fresh, unsealed form layout overlay around a parsed layout.
    pub fn new(layout: Layout) -> (r: Box<FormLayoutOverlay>)
        ensures
            r.capture_base@ == Seq::<char>::empty(),
            r.overlay_type@ == "spec/overlays/form_layout/1.0"@,
            layout_model(r.layout) == layout_model(layout),
            r.digest@ == Seq::<char>::empty(),
    {
        proof {
            reveal_strlit("spec/overlays/form_layout/1.0");
        }
        Box::new(
            FormLayoutOverlay {
                capture_base: String::new(),
                overlay_type: String::from_str("spec/overlays/form_layout/1.0"),
                layout,
                digest: String::new(),
            },
        )
    }
}

} // verus!
