//! The bundle: the immutable, fully digested artifact. Finalizing a
//! builder computes the capture base identifier, derives one overlay per
//! concern and language, and seals each overlay onto the capture base.

use vstd::prelude::*;
use vstd::string::{StringExecFns, StrSliceExecFns};
use crate::attribute::{
    attr_model, entries_for_lang, AttrModel, Attribute, Conformance, Encoding, EntryModel,
};
use crate::builder::{attrs_model, box_model, triples_view, BoxModel, OCABox};
use crate::capture_base::{
    cb_canon_with, cb_content, cb_digest, cb_digest_for, cb_wf, write_cb_canon, CaptureBase, CBModel,
};
use crate::layout::{strings_view, Layout};
use crate::maps::{alist_get, assoc_get, pairs_view};
use crate::overlay::{
    insert_sorted, nested_view, ov_canon_with, ov_cb, ov_digest, ov_digest_field, ov_wf,
    overlay_model, seal, sorted_put, write_ov_canon, CharacterEncodingOverlay, ConformanceOverlay,
    EntryOverlay, FormLayoutOverlay, InformationOverlay, LabelOverlay, MetaOverlay, Overlay,
    OverlayModel, entries_pairs_for_lang,
};
use crate::text::{join_comma, str_eq};

verus! {

/// The immutable, fully digested artifact: one capture base and its
/// sealed overlays.
pub struct Bundle {
    pub capture_base: CaptureBase,
    pub overlays: Vec<Overlay>,
}

/// The mathematical content of a bundle.
#[verifier::ext_equal]
pub struct BundleModel {
    pub capture_base: CBModel,
    pub overlays: Seq<OverlayModel>,
}

/// The models of a list of overlays.
pub open spec fn overlays_model(s: Seq<Overlay>) -> Seq<OverlayModel> {
    Seq::new(s.len(), |i: int| overlay_model(s[i]))
}

/// Pushing one overlay extends the model list by the overlay's model.
pub proof fn lemma_overlays_model_push(s: Seq<Overlay>, o: Overlay)
    ensures
        overlays_model(s.push(o)) =~= overlays_model(s).push(overlay_model(o)),
{
    assert forall|i: int| 0 <= i < s.len() + 1 implies overlays_model(s.push(o))[i]
        == overlays_model(s).push(overlay_model(o))[i] by {
        if i < s.len() {
            assert(s.push(o)[i] == s[i]);
        } else {
            assert(s.push(o)[i] == o);
        }
    }
}

/// The model of a bundle value.
pub open spec fn bundle_model(b: Bundle) -> BundleModel {
    BundleModel {
        capture_base: cb_content(b.capture_base),
        overlays: overlays_model(b.overlays@),
    }
}

/// A well-formed bundle: the capture base digest is the identifier of
/// its content, and every overlay is sealed onto it.
pub open spec fn bundle_wf(b: Bundle) -> bool {
    &&& cb_wf(b.capture_base)
    &&& forall|i: int|
        0 <= i < b.overlays@.len() ==> ov_wf(#[trigger] b.overlays@[i], b.capture_base.digest@)
}

// ---------------------------------------------------------------------
// What a builder's content derives.
// ---------------------------------------------------------------------

/// The capture base content of a builder.
pub open spec fn cb_of_box(m: BoxModel) -> CBModel {
    CBModel {
        classification: m.classification,
        attributes: Seq::new(m.attributes.len(), |i: int| (m.attributes[i].name, m.attributes[i].attribute_type)),
    }
}

/// The keys of an ordered map, in order.
pub open spec fn keys_of(m: Seq<(Seq<char>, Seq<char>)>) -> Seq<Seq<char>> {
    Seq::new(m.len(), |i: int| m[i].0)
}

/// Appends each key not seen yet, keeping first-appearance order.
pub open spec fn add_new(acc: Seq<Seq<char>>, ks: Seq<Seq<char>>) -> Seq<Seq<char>>
    decreases ks.len(),
{
    if ks.len() == 0 {
        acc
    } else {
        let a = add_new(acc, ks.drop_last());
        if a.contains(ks.last()) {
            a
        } else {
            a.push(ks.last())
        }
    }
}

/// The languages of the metadata triples, in first-appearance order.
pub open spec fn meta_langs(m: Seq<(Seq<char>, Seq<char>, Seq<char>)>) -> Seq<Seq<char>>
    decreases m.len(),
{
    if m.len() == 0 {
        Seq::empty()
    } else {
        let a = meta_langs(m.drop_last());
        if a.contains(m.last().0) {
            a
        } else {
            a.push(m.last().0)
        }
    }
}

/// The metadata properties of one language, in insertion order.
pub open spec fn meta_pairs_for(m: Seq<(Seq<char>, Seq<char>, Seq<char>)>, lang: Seq<char>) -> Seq<
    (Seq<char>, Seq<char>),
>
    decreases m.len(),
{
    if m.len() == 0 {
        Seq::empty()
    } else {
        let r = meta_pairs_for(m.drop_last(), lang);
        if m.last().0 == lang {
            r.push((m.last().1, m.last().2))
        } else {
            r
        }
    }
}

/// The label languages across the attributes, in first-appearance order.
pub open spec fn label_langs(attrs: Seq<AttrModel>) -> Seq<Seq<char>>
    decreases attrs.len(),
{
    if attrs.len() == 0 {
        Seq::empty()
    } else {
        add_new(label_langs(attrs.drop_last()), keys_of(attrs.last().labels))
    }
}

/// The information languages across the attributes.
pub open spec fn info_langs(attrs: Seq<AttrModel>) -> Seq<Seq<char>>
    decreases attrs.len(),
{
    if attrs.len() == 0 {
        Seq::empty()
    } else {
        add_new(info_langs(attrs.drop_last()), keys_of(attrs.last().informations))
    }
}

/// The languages seen after folding one entry list's translation keys
/// into an accumulator.
pub open spec fn entry_langs_acc(acc: Seq<Seq<char>>, es: Seq<EntryModel>) -> Seq<Seq<char>>
    decreases es.len(),
{
    if es.len() == 0 {
        acc
    } else {
        add_new(entry_langs_acc(acc, es.drop_last()), keys_of(es.last().translations))
    }
}

/// The languages seen after folding every attribute's entry lists into
/// an accumulator.
pub open spec fn entry_langs_from(acc: Seq<Seq<char>>, attrs: Seq<AttrModel>) -> Seq<Seq<char>>
    decreases attrs.len(),
{
    if attrs.len() == 0 {
        acc
    } else {
        entry_langs_acc(entry_langs_from(acc, attrs.drop_last()), attrs.last().entries)
    }
}

/// The entry languages across the attributes, in first-appearance order.
pub open spec fn entry_langs(attrs: Seq<AttrModel>) -> Seq<Seq<char>> {
    entry_langs_from(Seq::empty(), attrs)
}

/// The label pairs of one language, in attribute order.
pub open spec fn labels_for(attrs: Seq<AttrModel>, lang: Seq<char>) -> Seq<(Seq<char>, Seq<char>)>
    decreases attrs.len(),
{
    if attrs.len() == 0 {
        Seq::empty()
    } else {
        let r = labels_for(attrs.drop_last(), lang);
        match assoc_get(attrs.last().labels, lang) {
            Some(v) => r.push((attrs.last().name, v)),
            None => r,
        }
    }
}

/// The information pairs of one language, in attribute order.
pub open spec fn infos_for(attrs: Seq<AttrModel>, lang: Seq<char>) -> Seq<(Seq<char>, Seq<char>)>
    decreases attrs.len(),
{
    if attrs.len() == 0 {
        Seq::empty()
    } else {
        let r = infos_for(attrs.drop_last(), lang);
        match assoc_get(attrs.last().informations, lang) {
            Some(v) => r.push((attrs.last().name, v)),
            None => r,
        }
    }
}

/// The encoding pairs, in attribute order.
pub open spec fn enc_pairs(attrs: Seq<AttrModel>) -> Seq<(Seq<char>, Encoding)>
    decreases attrs.len(),
{
    if attrs.len() == 0 {
        Seq::empty()
    } else {
        let r = enc_pairs(attrs.drop_last());
        match attrs.last().encoding {
            Some(e) => r.push((attrs.last().name, e)),
            None => r,
        }
    }
}

/// The conformance pairs, in attribute order.
pub open spec fn conf_pairs(attrs: Seq<AttrModel>) -> Seq<(Seq<char>, Conformance)>
    decreases attrs.len(),
{
    if attrs.len() == 0 {
        Seq::empty()
    } else {
        let r = conf_pairs(attrs.drop_last());
        match attrs.last().conformance {
            Some(c) => r.push((attrs.last().name, c)),
            None => r,
        }
    }
}

/// The entry map of one language: attribute names in lexicographic
/// order, each with its entry pairs.
pub open spec fn entry_map_of(attrs: Seq<AttrModel>, lang: Seq<char>) -> Seq<
    (Seq<char>, Seq<(Seq<char>, Seq<char>)>),
>
    decreases attrs.len(),
{
    if attrs.len() == 0 {
        Seq::empty()
    } else {
        let r = entry_map_of(attrs.drop_last(), lang);
        let es = entries_for_lang(attrs.last().entries, lang);
        if es.len() > 0 {
            insert_sorted(r, attrs.last().name, es)
        } else {
            r
        }
    }
}

/// The overlays a builder derives, in generation order: meta per
/// language, character encoding, conformance, label per language,
/// information per language, entries per language, and the form layout.
pub open spec fn overlays_of_box(m: BoxModel) -> Seq<OverlayModel> {
    Seq::new(meta_langs(m.meta).len(), |i: int| OverlayModel::Meta {
        language: meta_langs(m.meta)[i],
        properties: meta_pairs_for(m.meta, meta_langs(m.meta)[i]),
    }) + (if enc_pairs(m.attributes).len() > 0 {
        seq![OverlayModel::CharacterEncoding { encodings: enc_pairs(m.attributes) }]
    } else {
        Seq::empty()
    }) + (if conf_pairs(m.attributes).len() > 0 {
        seq![OverlayModel::Conformance { markers: conf_pairs(m.attributes) }]
    } else {
        Seq::empty()
    }) + Seq::new(label_langs(m.attributes).len(), |i: int| OverlayModel::Label {
        language: label_langs(m.attributes)[i],
        labels: labels_for(m.attributes, label_langs(m.attributes)[i]),
    }) + Seq::new(info_langs(m.attributes).len(), |i: int| OverlayModel::Information {
        language: info_langs(m.attributes)[i],
        information: infos_for(m.attributes, info_langs(m.attributes)[i]),
    }) + Seq::new(entry_langs(m.attributes).len(), |i: int| OverlayModel::Entry {
        language: entry_langs(m.attributes)[i],
        entries: entry_map_of(m.attributes, entry_langs(m.attributes)[i]),
    }) + (match m.layout {
        Some(l) => seq![OverlayModel::FormLayout { layout: l }],
        None => Seq::empty(),
    })
}

/// What finalizing a builder yields.
pub open spec fn bundle_of(m: BoxModel) -> BundleModel {
    BundleModel { capture_base: cb_of_box(m), overlays: overlays_of_box(m) }
}

// ---------------------------------------------------------------------
// Finalization.
// ---------------------------------------------------------------------

/// Whether a string list contains this string.
pub fn vec_contains_str(v: &Vec<String>, s: &str) -> (r: bool)
    ensures
        r == strings_view(v@).contains(s@),
{
    let n = v.len();
    let mut i: usize = 0;
    while i < n
        invariant
            i <= n,
            n == v@.len(),
            forall|j: int| 0 <= j < i ==> strings_view(v@)[j] != s@,
        decreases n - i,
    {
        if str_eq(v[i].as_str(), s) {
            proof {
                assert(strings_view(v@)[i as int] == s@);
            }
            return true;
        }
        i += 1;
    }
    proof {
        assert(!strings_view(v@).contains(s@));
    }
    false
}

/// Collects the label languages of the attributes, in first-appearance
/// order.
fn collect_label_langs(attributes: &Vec<Attribute>) -> (r: Vec<String>)
    ensures
        strings_view(r@) == label_langs(attrs_model(attributes@)),
{
    let ghost ms = attrs_model(attributes@);
    let mut r: Vec<String> = Vec::new();
    let n = attributes.len();
    let mut i: usize = 0;
    proof {
        assert(strings_view(r@) =~= label_langs(ms.take(0)));
    }
    while i < n
        invariant
            i <= n,
            n == attributes@.len(),
            ms == attrs_model(attributes@),
            strings_view(r@) == label_langs(ms.take(i as int)),
        decreases n - i,
    {
        let labels = &attributes[i].labels;
        let ghost ks = keys_of(pairs_view(labels@));
        let m = labels.len();
        let mut j: usize = 0;
        proof {
            assert(ks.take(0) =~= Seq::<Seq<char>>::empty());
            assert(add_new(label_langs(ms.take(i as int)), ks.take(0)) == label_langs(
                ms.take(i as int),
            ));
        }
        while j < m
            invariant
                j <= m,
                m == labels@.len(),
                ms == attrs_model(attributes@),
                i < n,
                n == attributes@.len(),
                labels == &attributes@[i as int].labels,
                ks == keys_of(pairs_view(labels@)),
                ks.len() == m,
                strings_view(r@) == add_new(label_langs(ms.take(i as int)), ks.take(j as int)),
            decreases m - j,
        {
            let lang = &labels[j].0;
            if !vec_contains_str(&r, lang.as_str()) {
                r.push(lang.clone());
                proof {
                    assert(strings_view(r@) =~= add_new(
                        label_langs(ms.take(i as int)),
                        ks.take(j as int),
                    ).push(lang@));
                }
            }
            proof {
                assert(ks.take(j + 1).drop_last() =~= ks.take(j as int));
                assert(ks.take(j + 1).last() == ks[j as int]);
                assert(ks[j as int] == labels@[j as int].0@);
            }
            j += 1;
        }
        proof {
            assert(ks.take(m as int) =~= ks);
            assert(ms.take(i + 1).drop_last() =~= ms.take(i as int));
            assert(ms.take(i + 1).last() == ms[i as int]);
            assert(ms[i as int].labels == pairs_view(attributes@[i as int].labels@));
        }
        i += 1;
    }
    proof {
        assert(ms.take(n as int) =~= ms);
    }
    r
}

/// Collects the information languages of the attributes.
fn collect_info_langs(attributes: &Vec<Attribute>) -> (r: Vec<String>)
    ensures
        strings_view(r@) == info_langs(attrs_model(attributes@)),
{
    let ghost ms = attrs_model(attributes@);
    let mut r: Vec<String> = Vec::new();
    let n = attributes.len();
    let mut i: usize = 0;
    proof {
        assert(strings_view(r@) =~= info_langs(ms.take(0)));
    }
    while i < n
        invariant
            i <= n,
            n == attributes@.len(),
            ms == attrs_model(attributes@),
            strings_view(r@) == info_langs(ms.take(i as int)),
        decreases n - i,
    {
        let informations = &attributes[i].informations;
        let ghost ks = keys_of(pairs_view(informations@));
        let m = informations.len();
        let mut j: usize = 0;
        proof {
            assert(ks.take(0) =~= Seq::<Seq<char>>::empty());
        }
        while j < m
            invariant
                j <= m,
                m == informations@.len(),
                ms == attrs_model(attributes@),
                i < n,
                n == attributes@.len(),
                informations == &attributes@[i as int].informations,
                ks == keys_of(pairs_view(informations@)),
                ks.len() == m,
                strings_view(r@) == add_new(info_langs(ms.take(i as int)), ks.take(j as int)),
            decreases m - j,
        {
            let lang = &informations[j].0;
            if !vec_contains_str(&r, lang.as_str()) {
                r.push(lang.clone());
                proof {
                    assert(strings_view(r@) =~= add_new(
                        info_langs(ms.take(i as int)),
                        ks.take(j as int),
                    ).push(lang@));
                }
            }
            proof {
                assert(ks.take(j + 1).drop_last() =~= ks.take(j as int));
                assert(ks.take(j + 1).last() == ks[j as int]);
                assert(ks[j as int] == informations@[j as int].0@);
            }
            j += 1;
        }
        proof {
            assert(ks.take(m as int) =~= ks);
            assert(ms.take(i + 1).drop_last() =~= ms.take(i as int));
            assert(ms.take(i + 1).last() == ms[i as int]);
            assert(ms[i as int].informations == pairs_view(attributes@[i as int].informations@));
        }
        i += 1;
    }
    proof {
        assert(ms.take(n as int) =~= ms);
    }
    r
}

/// Collects the entry languages of the attributes.
fn collect_entry_langs(attributes: &Vec<Attribute>) -> (r: Vec<String>)
    ensures
        strings_view(r@) == entry_langs(attrs_model(attributes@)),
{
    let ghost ms = attrs_model(attributes@);
    let mut r: Vec<String> = Vec::new();
    let n = attributes.len();
    let mut i: usize = 0;
    proof {
        assert(strings_view(r@) =~= entry_langs_from(Seq::empty(), ms.take(0)));
    }
    while i < n
        invariant
            i <= n,
            n == attributes@.len(),
            ms == attrs_model(attributes@),
            strings_view(r@) == entry_langs_from(Seq::empty(), ms.take(i as int)),
        decreases n - i,
    {
        let ghost acc_i = entry_langs_from(Seq::empty(), ms.take(i as int));
        let entries = &attributes[i].entries;
        let ghost es = crate::attribute::entries_model(entries@);
        let m = entries.len();
        let mut j: usize = 0;
        proof {
            assert(es.take(0) =~= Seq::<EntryModel>::empty());
        }
        while j < m
            invariant
                j <= m,
                m == entries@.len(),
                ms == attrs_model(attributes@),
                i < n,
                n == attributes@.len(),
                entries == &attributes@[i as int].entries,
                es == crate::attribute::entries_model(entries@),
                es.len() == m,
                acc_i == entry_langs_from(Seq::empty(), ms.take(i as int)),
                strings_view(r@) == entry_langs_acc(acc_i, es.take(j as int)),
            decreases m - j,
        {
            let ghost acc_j = entry_langs_acc(acc_i, es.take(j as int));
            let translations = &entries[j].translations;
            let ghost ks = keys_of(pairs_view(translations@));
            let p = translations.len();
            let mut q: usize = 0;
            proof {
                assert(ks.take(0) =~= Seq::<Seq<char>>::empty());
            }
            while q < p
                invariant
                    q <= p,
                    p == translations@.len(),
                    ms == attrs_model(attributes@),
                    i < n,
                    j < m,
                    n == attributes@.len(),
                    m == entries@.len(),
                    entries == &attributes@[i as int].entries,
                    es == crate::attribute::entries_model(entries@),
                    es.len() == m,
                    translations == &entries@[j as int].translations,
                    ks == keys_of(pairs_view(translations@)),
                    ks.len() == p,
                    acc_i == entry_langs_from(Seq::empty(), ms.take(i as int)),
                    acc_j == entry_langs_acc(acc_i, es.take(j as int)),
                    strings_view(r@) == add_new(acc_j, ks.take(q as int)),
                decreases p - q,
            {
                let lang = &translations[q].0;
                if !vec_contains_str(&r, lang.as_str()) {
                    r.push(lang.clone());
                    proof {
                        assert(strings_view(r@) =~= add_new(acc_j, ks.take(q as int)).push(lang@));
                    }
                }
                proof {
                    assert(ks.take(q + 1).drop_last() =~= ks.take(q as int));
                    assert(ks.take(q + 1).last() == ks[q as int]);
                    assert(ks[q as int] == translations@[q as int].0@);
                }
                q += 1;
            }
            proof {
                assert(ks.take(p as int) =~= ks);
                assert(es.take(j + 1).drop_last() =~= es.take(j as int));
                assert(es.take(j + 1).last() == es[j as int]);
                assert(es[j as int].translations == pairs_view(entries@[j as int].translations@));
            }
            j += 1;
        }
        proof {
            assert(es.take(m as int) =~= es);
            assert(ms.take(i + 1).drop_last() =~= ms.take(i as int));
            assert(ms.take(i + 1).last() == ms[i as int]);
            assert(ms[i as int].entries == crate::attribute::entries_model(
                attributes@[i as int].entries@,
            ));
        }
        i += 1;
    }
    proof {
        assert(ms.take(n as int) =~= ms);
    }
    r
}


/// Collects the metadata languages, in first-appearance order.
fn collect_meta_langs(meta: &Vec<(String, String, String)>) -> (r: Vec<String>)
    ensures
        strings_view(r@) == meta_langs(triples_view(meta@)),
{
    let ghost ts = triples_view(meta@);
    let mut r: Vec<String> = Vec::new();
    let n = meta.len();
    let mut i: usize = 0;
    proof {
        assert(strings_view(r@) =~= meta_langs(ts.take(0)));
    }
    while i < n
        invariant
            i <= n,
            n == meta@.len(),
            ts == triples_view(meta@),
            strings_view(r@) == meta_langs(ts.take(i as int)),
        decreases n - i,
    {
        let lang = &meta[i].0;
        if !vec_contains_str(&r, lang.as_str()) {
            r.push(lang.clone());
            proof {
                assert(strings_view(r@) =~= meta_langs(ts.take(i as int)).push(lang@));
            }
        }
        proof {
            assert(ts.take(i + 1).drop_last() =~= ts.take(i as int));
            assert(ts.take(i + 1).last() == ts[i as int]);
            assert(ts[i as int].0 == meta@[i as int].0@);
        }
        i += 1;
    }
    proof {
        assert(ts.take(n as int) =~= ts);
    }
    r
}

/// Collects the metadata properties of one language, in insertion order.
fn collect_meta_pairs(meta: &Vec<(String, String, String)>, lang: &str) -> (r: Vec<
    (String, String),
>)
    ensures
        pairs_view(r@) == meta_pairs_for(triples_view(meta@), lang@),
{
    let ghost ts = triples_view(meta@);
    let mut r: Vec<(String, String)> = Vec::new();
    let n = meta.len();
    let mut i: usize = 0;
    proof {
        assert(pairs_view(r@) =~= meta_pairs_for(ts.take(0), lang@));
    }
    while i < n
        invariant
            i <= n,
            n == meta@.len(),
            ts == triples_view(meta@),
            pairs_view(r@) == meta_pairs_for(ts.take(i as int), lang@),
        decreases n - i,
    {
        let t = &meta[i];
        if str_eq(t.0.as_str(), lang) {
            r.push((t.1.clone(), t.2.clone()));
        }
        proof {
            assert(ts.take(i + 1).drop_last() =~= ts.take(i as int));
            assert(ts.take(i + 1).last() == ts[i as int]);
            assert(ts[i as int] == (meta@[i as int].0@, meta@[i as int].1@, meta@[i as int].2@));
            assert(pairs_view(r@) =~= meta_pairs_for(ts.take(i + 1), lang@));
        }
        i += 1;
    }
    proof {
        assert(ts.take(n as int) =~= ts);
    }
    r
}

/// Collects the label pairs of one language, in attribute order.
fn collect_labels_for(attributes: &Vec<Attribute>, lang: &str) -> (r: Vec<(String, String)>)
    ensures
        pairs_view(r@) == labels_for(attrs_model(attributes@), lang@),
{
    let ghost ms = attrs_model(attributes@);
    let mut r: Vec<(String, String)> = Vec::new();
    let n = attributes.len();
    let mut i: usize = 0;
    proof {
        assert(pairs_view(r@) =~= labels_for(ms.take(0), lang@));
    }
    while i < n
        invariant
            i <= n,
            n == attributes@.len(),
            ms == attrs_model(attributes@),
            pairs_view(r@) == labels_for(ms.take(i as int), lang@),
        decreases n - i,
    {
        let a = &attributes[i];
        match alist_get(&a.labels, lang) {
            Some(v) => {
                r.push((a.name.clone(), v.clone()));
            },
            None => {},
        }
        proof {
            assert(ms.take(i + 1).drop_last() =~= ms.take(i as int));
            assert(ms.take(i + 1).last() == ms[i as int]);
            assert(ms[i as int].labels == pairs_view(attributes@[i as int].labels@));
            assert(ms[i as int].name == attributes@[i as int].name@);
            assert(pairs_view(r@) =~= labels_for(ms.take(i + 1), lang@));
        }
        i += 1;
    }
    proof {
        assert(ms.take(n as int) =~= ms);
    }
    r
}

/// Collects the information pairs of one language, in attribute order.
fn collect_infos_for(attributes: &Vec<Attribute>, lang: &str) -> (r: Vec<(String, String)>)
    ensures
        pairs_view(r@) == infos_for(attrs_model(attributes@), lang@),
{
    let ghost ms = attrs_model(attributes@);
    let mut r: Vec<(String, String)> = Vec::new();
    let n = attributes.len();
    let mut i: usize = 0;
    proof {
        assert(pairs_view(r@) =~= infos_for(ms.take(0), lang@));
    }
    while i < n
        invariant
            i <= n,
            n == attributes@.len(),
            ms == attrs_model(attributes@),
            pairs_view(r@) == infos_for(ms.take(i as int), lang@),
        decreases n - i,
    {
        let a = &attributes[i];
        match alist_get(&a.informations, lang) {
            Some(v) => {
                r.push((a.name.clone(), v.clone()));
            },
            None => {},
        }
        proof {
            assert(ms.take(i + 1).drop_last() =~= ms.take(i as int));
            assert(ms.take(i + 1).last() == ms[i as int]);
            assert(ms[i as int].informations == pairs_view(attributes@[i as int].informations@));
            assert(ms[i as int].name == attributes@[i as int].name@);
            assert(pairs_view(r@) =~= infos_for(ms.take(i + 1), lang@));
        }
        i += 1;
    }
    proof {
        assert(ms.take(n as int) =~= ms);
    }
    r
}

/// Collects the encoding pairs, in attribute order.
fn collect_enc_pairs(attributes: &Vec<Attribute>) -> (r: Vec<(String, Encoding)>)
    ensures
        crate::overlay::enc_pairs_view(r@) == enc_pairs(attrs_model(attributes@)),
{
    let ghost ms = attrs_model(attributes@);
    let mut r: Vec<(String, Encoding)> = Vec::new();
    let n = attributes.len();
    let mut i: usize = 0;
    proof {
        assert(crate::overlay::enc_pairs_view(r@) =~= enc_pairs(ms.take(0)));
    }
    while i < n
        invariant
            i <= n,
            n == attributes@.len(),
            ms == attrs_model(attributes@),
            crate::overlay::enc_pairs_view(r@) == enc_pairs(ms.take(i as int)),
        decreases n - i,
    {
        let a = &attributes[i];
        match a.encoding {
            Some(e) => {
                r.push((a.name.clone(), e));
            },
            None => {},
        }
        proof {
            assert(ms.take(i + 1).drop_last() =~= ms.take(i as int));
            assert(ms.take(i + 1).last() == ms[i as int]);
            assert(ms[i as int].encoding == attributes@[i as int].encoding);
            assert(ms[i as int].name == attributes@[i as int].name@);
            assert(crate::overlay::enc_pairs_view(r@) =~= enc_pairs(ms.take(i + 1)));
        }
        i += 1;
    }
    proof {
        assert(ms.take(n as int) =~= ms);
    }
    r
}

/// Collects the conformance pairs, in attribute order.
fn collect_conf_pairs(attributes: &Vec<Attribute>) -> (r: Vec<(String, Conformance)>)
    ensures
        crate::overlay::conf_pairs_view(r@) == conf_pairs(attrs_model(attributes@)),
{
    let ghost ms = attrs_model(attributes@);
    let mut r: Vec<(String, Conformance)> = Vec::new();
    let n = attributes.len();
    let mut i: usize = 0;
    proof {
        assert(crate::overlay::conf_pairs_view(r@) =~= conf_pairs(ms.take(0)));
    }
    while i < n
        invariant
            i <= n,
            n == attributes@.len(),
            ms == attrs_model(attributes@),
            crate::overlay::conf_pairs_view(r@) == conf_pairs(ms.take(i as int)),
        decreases n - i,
    {
        let a = &attributes[i];
        match a.conformance {
            Some(c) => {
                r.push((a.name.clone(), c));
            },
            None => {},
        }
        proof {
            assert(ms.take(i + 1).drop_last() =~= ms.take(i as int));
            assert(ms.take(i + 1).last() == ms[i as int]);
            assert(ms[i as int].conformance == attributes@[i as int].conformance);
            assert(ms[i as int].name == attributes@[i as int].name@);
            assert(crate::overlay::conf_pairs_view(r@) =~= conf_pairs(ms.take(i + 1)));
        }
        i += 1;
    }
    proof {
        assert(ms.take(n as int) =~= ms);
    }
    r
}

/// Collects the entry map of one language, keys in lexicographic order.
fn collect_entry_map(attributes: &Vec<Attribute>, lang: &str) -> (r: Vec<
    (String, Vec<(String, String)>),
>)
    ensures
        nested_view(r@) == entry_map_of(attrs_model(attributes@), lang@),
{
    let ghost ms = attrs_model(attributes@);
    let mut r: Vec<(String, Vec<(String, String)>)> = Vec::new();
    let n = attributes.len();
    let mut i: usize = 0;
    proof {
        assert(nested_view(r@) =~= entry_map_of(ms.take(0), lang@));
    }
    while i < n
        invariant
            i <= n,
            n == attributes@.len(),
            ms == attrs_model(attributes@),
            nested_view(r@) == entry_map_of(ms.take(i as int), lang@),
        decreases n - i,
    {
        let a = &attributes[i];
        let es = entries_pairs_for_lang(&a.entries, lang);
        if es.len() > 0 {
            sorted_put(&mut r, &a.name, es);
        }
        proof {
            assert(ms.take(i + 1).drop_last() =~= ms.take(i as int));
            assert(ms.take(i + 1).last() == ms[i as int]);
            assert(ms[i as int].entries == crate::attribute::entries_model(
                attributes@[i as int].entries@,
            ));
            assert(ms[i as int].name == attributes@[i as int].name@);
        }
        i += 1;
    }
    proof {
        assert(ms.take(n as int) =~= ms);
    }
    r
}

/// Copies the name-to-type pairs of the attributes, in insertion order.
fn collect_cb_attrs(attributes: &Vec<Attribute>) -> (r: Vec<
    (String, crate::attribute::AttributeType),
>)
    ensures
        crate::capture_base::cb_attrs_view(r@) == cb_of_box(
            BoxModel {
                attributes: attrs_model(attributes@),
                classification: None,
                meta: Seq::empty(),
                layout: None,
            },
        ).attributes,
{
    let ghost ms = attrs_model(attributes@);
    let mut r: Vec<(String, crate::attribute::AttributeType)> = Vec::new();
    let n = attributes.len();
    let mut i: usize = 0;
    while i < n
        invariant
            i <= n,
            n == attributes@.len(),
            ms == attrs_model(attributes@),
            r@.len() == i,
            forall|j: int|
                0 <= j < i ==> (#[trigger] r@[j]).0@ == ms[j].name && r@[j].1 == ms[j].attribute_type,
        decreases n - i,
    {
        let a = &attributes[i];
        r.push((a.name.clone(), a.attribute_type));
        proof {
            assert(ms[i as int].name == attributes@[i as int].name@);
            assert(ms[i as int].attribute_type == attributes@[i as int].attribute_type);
        }
        i += 1;
    }
    proof {
        assert(crate::capture_base::cb_attrs_view(r@) =~= Seq::new(
            ms.len(),
            |j: int| (ms[j].name, ms[j].attribute_type),
        ));
    }
    r
}

impl OCABox {
    /// Finalizes the builder into an immutable, fully digested bundle:
    /// the capture base identifier is computed over the canonical form,
    /// and every derived overlay is sealed onto it.
    #[verifier::rlimit(100)]
    pub fn generate_bundle(&self) -> (r: Bundle)
        ensures
            bundle_model(r) == bundle_of(box_model(*self)),
            bundle_wf(r),
            r.capture_base.digest@ == cb_digest(cb_of_box(box_model(*self))),
    {
        proof {
            reveal_strlit("spec/overlays/meta/1.0");
            reveal_strlit("spec/overlays/character_encoding/1.0");
            reveal_strlit("spec/overlays/conformance/1.0");
            reveal_strlit("spec/overlays/label/1.0");
            reveal_strlit("spec/overlays/information/1.0");
            reveal_strlit("spec/overlays/entry/1.0");
            reveal_strlit("spec/overlays/form_layout/1.0");
        }
        let ghost m = box_model(*self);
        let cb_attrs = collect_cb_attrs(&self.attributes);
        let classification = match &self.classification {
            Some(c) => Some(c.clone()),
            None => None,
        };
        let cbd = cb_digest_for(&classification, &cb_attrs);
        let capture_base = CaptureBase {
            classification,
            attributes: cb_attrs,
            digest: cbd,
        };
        proof {
            assert(cb_content(capture_base) =~= cb_of_box(m));
            assert(cb_wf(capture_base));
        }
        let ghost g_meta = Seq::new(meta_langs(m.meta).len(), |i: int| OverlayModel::Meta {
            language: meta_langs(m.meta)[i],
            properties: meta_pairs_for(m.meta, meta_langs(m.meta)[i]),
        });
        let ghost g_enc: Seq<OverlayModel> = if enc_pairs(m.attributes).len() > 0 {
            seq![OverlayModel::CharacterEncoding { encodings: enc_pairs(m.attributes) }]
        } else {
            Seq::empty()
        };
        let ghost g_conf: Seq<OverlayModel> = if conf_pairs(m.attributes).len() > 0 {
            seq![OverlayModel::Conformance { markers: conf_pairs(m.attributes) }]
        } else {
            Seq::empty()
        };
        let ghost g_label = Seq::new(label_langs(m.attributes).len(), |i: int| OverlayModel::Label {
            language: label_langs(m.attributes)[i],
            labels: labels_for(m.attributes, label_langs(m.attributes)[i]),
        });
        let ghost g_info = Seq::new(info_langs(m.attributes).len(), |i: int| OverlayModel::Information {
            language: info_langs(m.attributes)[i],
            information: infos_for(m.attributes, info_langs(m.attributes)[i]),
        });
        let ghost g_entry = Seq::new(entry_langs(m.attributes).len(), |i: int| OverlayModel::Entry {
            language: entry_langs(m.attributes)[i],
            entries: entry_map_of(m.attributes, entry_langs(m.attributes)[i]),
        });
        let ghost g_layout: Seq<OverlayModel> = match m.layout {
            Some(l) => seq![OverlayModel::FormLayout { layout: l }],
            None => Seq::empty(),
        };

        let mut ovs: Vec<Overlay> = Vec::new();

        // Meta overlays, one per language in first-appearance order.
        let meta_ls = collect_meta_langs(&self.meta);
        let k0 = meta_ls.len();
        let mut l: usize = 0;
        proof {
            assert(overlays_model(ovs@) =~= g_meta.take(0));
        }
        while l < k0
            invariant
                l <= k0,
                k0 == strings_view(meta_ls@).len(),
                strings_view(meta_ls@) == meta_langs(m.meta),
                m == box_model(*self),
                g_meta == Seq::new(meta_langs(m.meta).len(), |i: int| OverlayModel::Meta {
                    language: meta_langs(m.meta)[i],
                    properties: meta_pairs_for(m.meta, meta_langs(m.meta)[i]),
                }),
                capture_base.digest@ == cb_digest(cb_of_box(m)),
                overlays_model(ovs@) == g_meta.take(l as int),
                forall|i: int|
                    0 <= i < ovs@.len() ==> ov_wf(#[trigger] ovs@[i], capture_base.digest@),
            decreases k0 - l,
        {
            let lang = &meta_ls[l];
            let ghost langv = lang@;
            let props = collect_meta_pairs(&self.meta, lang.as_str());
            let ghost propsv = pairs_view(props@);
            let mut ov = Overlay::Meta(MetaOverlay {
                capture_base: String::new(),
                overlay_type: String::from_str("spec/overlays/meta/1.0"),
                language: lang.clone(),
                properties: props,
                digest: String::new(),
            });
            proof {
                reveal_strlit("spec/overlays/meta/1.0");
                assert(overlay_model(ov) == (OverlayModel::Meta {
                    language: langv,
                    properties: propsv,
                }));
            }
            seal(&mut ov, &capture_base.digest);
            let ghost ovm = overlay_model(ov);
            let ghost ovs0 = ovs@;
            ovs.push(ov);
            proof {
                lemma_overlays_model_push(ovs0, ov);
                assert(strings_view(meta_ls@)[l as int] == meta_ls@[l as int]@);
                assert(langv == meta_langs(m.meta)[l as int]);
                assert(m.meta == triples_view(self.meta@));
                assert(propsv == meta_pairs_for(m.meta, langv));
                assert(ovm == (OverlayModel::Meta { language: langv, properties: propsv }));
                assert(g_meta[l as int] == (OverlayModel::Meta {
                    language: meta_langs(m.meta)[l as int],
                    properties: meta_pairs_for(m.meta, meta_langs(m.meta)[l as int]),
                }));
                assert(ovm =~= g_meta[l as int]);
                assert(overlays_model(ovs@) =~= g_meta.take(l + 1));
            }
            l += 1;
        }
        proof {
            assert(g_meta.take(k0 as int) =~= g_meta);
        }

        // The character encoding overlay, if any attribute has one.
        let encs = collect_enc_pairs(&self.attributes);
        let ghost encsv = crate::overlay::enc_pairs_view(encs@);
        if encs.len() > 0 {
            let mut ov = Overlay::CharacterEncoding(CharacterEncodingOverlay {
                capture_base: String::new(),
                overlay_type: String::from_str("spec/overlays/character_encoding/1.0"),
                attribute_character_encoding: encs,
                digest: String::new(),
            });
            proof {
                reveal_strlit("spec/overlays/character_encoding/1.0");
                assert(overlay_model(ov) == (OverlayModel::CharacterEncoding { encodings: encsv }));
            }
            seal(&mut ov, &capture_base.digest);
            let ghost ovm = overlay_model(ov);
            let ghost ovs0 = ovs@;
            ovs.push(ov);
            proof {
                lemma_overlays_model_push(ovs0, ov);
                assert(encsv == enc_pairs(m.attributes));
                assert(ovm == g_enc[0]);
            }
        }
        proof {
            assert(overlays_model(ovs@) =~= g_meta + g_enc);
        }

        // The conformance overlay, if any attribute has a marker.
        let confs = collect_conf_pairs(&self.attributes);
        let ghost confsv = crate::overlay::conf_pairs_view(confs@);
        if confs.len() > 0 {
            let mut ov = Overlay::Conformance(ConformanceOverlay {
                capture_base: String::new(),
                overlay_type: String::from_str("spec/overlays/conformance/1.0"),
                attribute_conformance: confs,
                digest: String::new(),
            });
            proof {
                reveal_strlit("spec/overlays/conformance/1.0");
                assert(overlay_model(ov) == (OverlayModel::Conformance { markers: confsv }));
            }
            seal(&mut ov, &capture_base.digest);
            let ghost ovm = overlay_model(ov);
            let ghost ovs0 = ovs@;
            ovs.push(ov);
            proof {
                lemma_overlays_model_push(ovs0, ov);
                assert(confsv == conf_pairs(m.attributes));
                assert(ovm == g_conf[0]);
            }
        }
        proof {
            assert(overlays_model(ovs@) =~= g_meta + g_enc + g_conf);
        }

        // Label overlays, one per language.
        let label_ls = collect_label_langs(&self.attributes);
        let k1 = label_ls.len();
        let mut l: usize = 0;
        while l < k1
            invariant
                l <= k1,
                k1 == strings_view(label_ls@).len(),
                strings_view(label_ls@) == label_langs(m.attributes),
                m == box_model(*self),
                g_label == Seq::new(label_langs(m.attributes).len(), |i: int| OverlayModel::Label {
                    language: label_langs(m.attributes)[i],
                    labels: labels_for(m.attributes, label_langs(m.attributes)[i]),
                }),
                capture_base.digest@ == cb_digest(cb_of_box(m)),
                overlays_model(ovs@) == g_meta + g_enc + g_conf + g_label.take(l as int),
                forall|i: int|
                    0 <= i < ovs@.len() ==> ov_wf(#[trigger] ovs@[i], capture_base.digest@),
            decreases k1 - l,
        {
            let lang = &label_ls[l];
            let ghost langv = lang@;
            let pairs = collect_labels_for(&self.attributes, lang.as_str());
            let ghost pairsv = pairs_view(pairs@);
            let mut ov = Overlay::Label(LabelOverlay {
                capture_base: String::new(),
                overlay_type: String::from_str("spec/overlays/label/1.0"),
                language: lang.clone(),
                attribute_labels: pairs,
                digest: String::new(),
            });
            proof {
                reveal_strlit("spec/overlays/label/1.0");
                assert(overlay_model(ov) == (OverlayModel::Label {
                    language: langv,
                    labels: pairsv,
                }));
            }
            seal(&mut ov, &capture_base.digest);
            let ghost ovm = overlay_model(ov);
            let ghost ovs0 = ovs@;
            ovs.push(ov);
            proof {
                lemma_overlays_model_push(ovs0, ov);
                assert(strings_view(label_ls@)[l as int] == label_ls@[l as int]@);
                assert(langv == label_langs(m.attributes)[l as int]);
                assert(m.attributes == attrs_model(self.attributes@));
                assert(ovm =~= g_label[l as int]);
                assert(overlays_model(ovs@) =~= g_meta + g_enc + g_conf + g_label.take(l + 1));
            }
            l += 1;
        }
        proof {
            assert(g_label.take(k1 as int) =~= g_label);
        }

        // Information overlays, one per language.
        let info_ls = collect_info_langs(&self.attributes);
        let k2 = info_ls.len();
        let mut l: usize = 0;
        while l < k2
            invariant
                l <= k2,
                k2 == strings_view(info_ls@).len(),
                strings_view(info_ls@) == info_langs(m.attributes),
                m == box_model(*self),
                g_info == Seq::new(info_langs(m.attributes).len(), |i: int| OverlayModel::Information {
                    language: info_langs(m.attributes)[i],
                    information: infos_for(m.attributes, info_langs(m.attributes)[i]),
                }),
                capture_base.digest@ == cb_digest(cb_of_box(m)),
                overlays_model(ovs@) == g_meta + g_enc + g_conf + g_label + g_info.take(l as int),
                forall|i: int|
                    0 <= i < ovs@.len() ==> ov_wf(#[trigger] ovs@[i], capture_base.digest@),
            decreases k2 - l,
        {
            let lang = &info_ls[l];
            let ghost langv = lang@;
            let pairs = collect_infos_for(&self.attributes, lang.as_str());
            let ghost pairsv = pairs_view(pairs@);
            let mut ov = Overlay::Information(InformationOverlay {
                capture_base: String::new(),
                overlay_type: String::from_str("spec/overlays/information/1.0"),
                language: lang.clone(),
                attribute_information: pairs,
                digest: String::new(),
            });
            proof {
                reveal_strlit("spec/overlays/information/1.0");
                assert(overlay_model(ov) == (OverlayModel::Information {
                    language: langv,
                    information: pairsv,
                }));
            }
            seal(&mut ov, &capture_base.digest);
            let ghost ovm = overlay_model(ov);
            let ghost ovs0 = ovs@;
            ovs.push(ov);
            proof {
                lemma_overlays_model_push(ovs0, ov);
                assert(strings_view(info_ls@)[l as int] == info_ls@[l as int]@);
                assert(langv == info_langs(m.attributes)[l as int]);
                assert(m.attributes == attrs_model(self.attributes@));
                assert(ovm =~= g_info[l as int]);
                assert(overlays_model(ovs@) =~= g_meta + g_enc + g_conf + g_label + g_info.take(
                    l + 1,
                ));
            }
            l += 1;
        }
        proof {
            assert(g_info.take(k2 as int) =~= g_info);
        }

        // Entry overlays, one per language.
        let entry_ls = collect_entry_langs(&self.attributes);
        let k3 = entry_ls.len();
        let mut l: usize = 0;
        while l < k3
            invariant
                l <= k3,
                k3 == strings_view(entry_ls@).len(),
                strings_view(entry_ls@) == entry_langs(m.attributes),
                m == box_model(*self),
                g_entry == Seq::new(entry_langs(m.attributes).len(), |i: int| OverlayModel::Entry {
                    language: entry_langs(m.attributes)[i],
                    entries: entry_map_of(m.attributes, entry_langs(m.attributes)[i]),
                }),
                capture_base.digest@ == cb_digest(cb_of_box(m)),
                overlays_model(ovs@) == g_meta + g_enc + g_conf + g_label + g_info + g_entry.take(
                    l as int,
                ),
                forall|i: int|
                    0 <= i < ovs@.len() ==> ov_wf(#[trigger] ovs@[i], capture_base.digest@),
            decreases k3 - l,
        {
            let lang = &entry_ls[l];
            let ghost langv = lang@;
            let emap = collect_entry_map(&self.attributes, lang.as_str());
            let ghost emapv = nested_view(emap@);
            let mut ov = Overlay::Entry(EntryOverlay {
                capture_base: String::new(),
                overlay_type: String::from_str("spec/overlays/entry/1.0"),
                language: lang.clone(),
                attr_entries: emap,
                digest: String::new(),
            });
            proof {
                reveal_strlit("spec/overlays/entry/1.0");
                assert(overlay_model(ov) == (OverlayModel::Entry {
                    language: langv,
                    entries: emapv,
                }));
            }
            seal(&mut ov, &capture_base.digest);
            let ghost ovm = overlay_model(ov);
            let ghost ovs0 = ovs@;
            ovs.push(ov);
            proof {
                lemma_overlays_model_push(ovs0, ov);
                assert(strings_view(entry_ls@)[l as int] == entry_ls@[l as int]@);
                assert(langv == entry_langs(m.attributes)[l as int]);
                assert(m.attributes == attrs_model(self.attributes@));
                assert(ovm =~= g_entry[l as int]);
                assert(overlays_model(ovs@) =~= g_meta + g_enc + g_conf + g_label + g_info
                    + g_entry.take(l + 1));
            }
            l += 1;
        }
        proof {
            assert(g_entry.take(k3 as int) =~= g_entry);
        }

        // The form layout overlay, if one is attached.
        match &self.layout {
            Some(layout) => {
                let fl = FormLayoutOverlay::new(duplicate_layout(layout));
                let mut ov = Overlay::FormLayout(*fl);
                proof {
                    assert(overlay_model(ov) == (OverlayModel::FormLayout {
                        layout: crate::layout::layout_model(*layout),
                    }));
                }
                seal(&mut ov, &capture_base.digest);
                let ghost ovm = overlay_model(ov);
                let ghost ovs0 = ovs@;
                ovs.push(ov);
                proof {
                    lemma_overlays_model_push(ovs0, ov);
                    assert(ovm == g_layout[0]);
                }
            },
            None => {},
        }
        proof {
            assert(overlays_model(ovs@) =~= g_meta + g_enc + g_conf + g_label + g_info + g_entry
                + g_layout);
            assert(overlays_model(ovs@) =~= overlays_of_box(m));
        }

        let r = Bundle { capture_base, overlays: ovs };
        proof {
            assert(bundle_model(r) =~= bundle_of(m));
        }
        r
    }
}

// ---------------------------------------------------------------------
// The wire form.
// ---------------------------------------------------------------------

/// The canonical text of a whole bundle: the capture base with its real
/// digest, then the overlays in order, each with its real digest.
pub open spec fn bundle_wire(b: Bundle) -> Seq<char> {
    "{\"capture_base\":"@ + cb_canon_with(cb_content(b.capture_base), b.capture_base.digest@)
        + ",\"overlays\":["@ + join_comma(
        Seq::new(
            b.overlays@.len(),
            |i: int| ov_canon_with(
                overlay_model(b.overlays@[i]),
                ov_cb(b.overlays@[i]),
                ov_digest_field(b.overlays@[i]),
            ),
        ),
    ) + "]}"@
}

impl Bundle {
    /// Serializes the bundle to its canonical text.
    pub fn to_canonical_text(&self) -> (r: String)
        ensures
            r@ == bundle_wire(*self),
    {
        proof {
            reveal_strlit("{\"capture_base\":");
            reveal_strlit(",\"overlays\":[");
            reveal_strlit("]}");
        }
        let mut out = String::new();
        out.append("{\"capture_base\":");
        write_cb_canon(
            &mut out,
            &self.capture_base.classification,
            &self.capture_base.attributes,
            Some(&self.capture_base.digest),
        );
        out.append(",\"overlays\":[");
        let ghost items = Seq::new(
            self.overlays@.len(),
            |i: int| ov_canon_with(
                overlay_model(self.overlays@[i]),
                ov_cb(self.overlays@[i]),
                ov_digest_field(self.overlays@[i]),
            ),
        );
        let ghost head = out@;
        let n = self.overlays.len();
        let mut i: usize = 0;
        while i < n
            invariant
                i <= n,
                n == self.overlays@.len(),
                items == Seq::new(
                    self.overlays@.len(),
                    |k: int| ov_canon_with(
                        overlay_model(self.overlays@[k]),
                        ov_cb(self.overlays@[k]),
                        ov_digest_field(self.overlays@[k]),
                    ),
                ),
                items.len() == n,
                out@ == head + join_comma(items.take(i as int)),
            decreases n - i,
        {
            if i > 0 {
                proof {
                    reveal_strlit(",");
                }
                out.append(",");
            }
            write_ov_canon(&mut out, &self.overlays[i], true);
            proof {
                crate::text::lemma_join_comma_step(items, i as int);
                assert(out@ =~= head + join_comma(items.take(i + 1)));
            }
            i += 1;
        }
        proof {
            assert(items.take(n as int) =~= items);
        }
        out.append("]}");
        proof {
            assert(out@ =~= bundle_wire(*self));
        }
        out
    }
}

/// A field-by-field copy of a layout with the same model.
pub fn duplicate_layout(l: &Layout) -> (r: Layout)
    ensures
        crate::layout::layout_model(r) == crate::layout::layout_model(*l),
{
    let config = match &l.config {
        Some(c) => Some(crate::layout::LayoutConfig {
            css: match &c.css {
                Some(css) => Some(crate::layout::LayoutConfigCss {
                    style: match &css.style {
                        Some(s) => Some(s.clone()),
                        None => None,
                    },
                }),
                None => None,
            },
        }),
        None => None,
    };
    let mut elements: Vec<crate::layout::Element> = Vec::new();
    let n = l.elements.len();
    let mut i: usize = 0;
    while i < n
        invariant
            i <= n,
            n == l.elements@.len(),
            elements@.len() == i,
            forall|j: int|
                0 <= j < i ==> crate::layout::element_model(#[trigger] elements@[j])
                    == crate::layout::element_model(l.elements@[j]),
        decreases n - i,
    {
        let e = &l.elements[i];
        let parts = match &e.parts {
            Some(ps) => {
                let mut out: Vec<crate::layout::Part> = Vec::new();
                let p = ps.len();
                let mut q: usize = 0;
                while q < p
                    invariant
                        q <= p,
                        p == ps@.len(),
                        out@.len() == q,
                        forall|t: int|
                            0 <= t < q ==> crate::layout::part_model(#[trigger] out@[t])
                                == crate::layout::part_model(ps@[t]),
                    decreases p - q,
                {
                    let pt = &ps[q];
                    out.push(crate::layout::Part {
                        name: pt.name.clone(),
                        config: duplicate_ec(&pt.config),
                    });
                    q += 1;
                }
                proof {
                    assert(Seq::new(out@.len(), |t: int| crate::layout::part_model(out@[t])) =~= Seq::new(
                        ps@.len(),
                        |t: int| crate::layout::part_model(ps@[t]),
                    ));
                }
                Some(out)
            },
            None => None,
        };
        elements.push(crate::layout::Element {
            element_type: e.element_type.clone(),
            config: duplicate_ec(&e.config),
            id: match &e.id {
                Some(s) => Some(s.clone()),
                None => None,
            },
            name: match &e.name {
                Some(s) => Some(s.clone()),
                None => None,
            },
            parts,
        });
        proof {
            assert(crate::layout::element_model(elements@[i as int]) =~= crate::layout::element_model(
                l.elements@[i as int],
            ));
        }
        i += 1;
    }
    let r = Layout { config, elements };
    proof {
        assert(crate::layout::layout_model(r) =~= crate::layout::layout_model(*l));
    }
    r
}

/// A field-by-field copy of an element configuration with the same model.
fn duplicate_ec(c: &Option<crate::layout::ElementConfig>) -> (r: Option<
    crate::layout::ElementConfig,
>)
    ensures
        crate::layout::ec_model(r) == crate::layout::ec_model(*c),
{
    match c {
        Some(cfg) => Some(crate::layout::ElementConfig {
            css: match &cfg.css {
                Some(css) => {
                    let classes = match &css.classes {
                        Some(cl) => {
                            let mut out: Vec<String> = Vec::new();
                            let n = cl.len();
                            let mut i: usize = 0;
                            while i < n
                                invariant
                                    i <= n,
                                    n == cl@.len(),
                                    out@.len() == i,
                                    forall|j: int| 0 <= j < i ==> out@[j]@ == cl@[j]@,
                                decreases n - i,
                            {
                                out.push(cl[i].clone());
                                i += 1;
                            }
                            proof {
                                assert(crate::layout::strings_view(out@) =~= crate::layout::strings_view(
                                    cl@,
                                ));
                            }
                            Some(out)
                        },
                        None => None,
                    };
                    Some(crate::layout::ElementConfigCss {
                        style: match &css.style {
                            Some(s) => Some(s.clone()),
                            None => None,
                        },
                        classes,
                    })
                },
                None => None,
            },
        }),
        None => None,
    }
}

} // verus!

