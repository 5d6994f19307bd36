//! The command interpreter: applies one declarative edit command to a
//! builder, producing the next builder state. Application is pure — the
//! given builder is read, never changed — so a caller chains applications
//! across a command sequence, and each state is independently
//! finalizable. Unrecognized command shapes are deliberate no-ops, for
//! forward compatibility.

use vstd::prelude::*;
use crate::attribute::{
    attr_model, check_lang, entries_model, parse_attribute_type, parse_conformance, parse_encoding,
    spec_parse_conformance, spec_parse_encoding, spec_parse_type, valid_lang, AttrModel, Attribute,
    AttributeType, Entry,
};
use crate::builder::{
    attrs_found, attrs_has, attrs_model, attrs_update, box_model, empty_box, meta_put,
    triples_view, BoxModel, OCABox,
};
use crate::bundle::duplicate_layout;
use crate::command::{
    cmd_model, content_pairs_view, content_part_view, CmdModel, Command, CommandType, ObjectKind,
    OverlayType,
};
use crate::errors::Error;
use crate::maps::{assoc_get, assoc_put, pairs_view, lemma_assoc_get_at, lemma_assoc_get_none};
use crate::text::str_eq;
use crate::value::{spec_scalar, Value};

verus! {

/// The model of a freshly created attribute.
pub open spec fn fresh_attr(name: Seq<char>, t: AttributeType) -> AttrModel {
    AttrModel {
        name,
        attribute_type: t,
        is_pii: false,
        encoding: None,
        format: None,
        unit: None,
        conformance: None,
        labels: Seq::empty(),
        informations: Seq::empty(),
        entries: Seq::empty(),
    }
}

/// Creating every named attribute in order: an unparseable or missing
/// type tag fails, as does a name already present.
pub open spec fn apply_cb_attrs(m: BoxModel, ps: Seq<(Seq<char>, Option<Seq<char>>)>) -> Result<
    BoxModel,
    Error,
>
    decreases ps.len(),
{
    if ps.len() == 0 {
        Ok(m)
    } else {
        match ps[0].1 {
            None => Err(Error::UnknownAttributeType),
            Some(s) => match spec_parse_type(s) {
                None => Err(Error::UnknownAttributeType),
                Some(t) => if attrs_has(m.attributes, ps[0].0) {
                    Err(Error::DuplicateAttribute)
                } else {
                    apply_cb_attrs(
                        BoxModel { attributes: m.attributes.push(fresh_attr(ps[0].0, t)), ..m },
                        ps.drop_first(),
                    )
                },
            },
        }
    }
}

/// Reading the capture base properties: a scalar `classification`
/// property sets the classification; everything else is ignored.
pub open spec fn apply_cb_props(m: BoxModel, ps: Seq<(Seq<char>, Option<Seq<char>>)>) -> BoxModel
    decreases ps.len(),
{
    if ps.len() == 0 {
        m
    } else {
        let m2 = match ps[0].1 {
            Some(v) => if ps[0].0 == "classification"@ {
                BoxModel { classification: Some(v), ..m }
            } else {
                m
            },
            None => m,
        };
        apply_cb_props(m2, ps.drop_first())
    }
}

/// The usable language tag of a property map: the scalar under `lang`,
/// if it is present and well formed.
pub open spec fn lang_of_props(props: Option<Seq<(Seq<char>, Option<Seq<char>>)>>) -> Option<
    Seq<char>,
> {
    match props {
        None => None,
        Some(ps) => match assoc_get(ps, "lang"@) {
            Some(ov) => match ov {
                Some(l) => if valid_lang(l) {
                    Some(l)
                } else {
                    None
                },
                None => None,
            },
            None => None,
        },
    }
}

/// Writing the remaining properties as schema metadata for the language:
/// the `lang` property itself and non-scalar values are passed over.
pub open spec fn apply_meta_props(
    m: BoxModel,
    ps: Seq<(Seq<char>, Option<Seq<char>>)>,
    lang: Seq<char>,
) -> BoxModel
    decreases ps.len(),
{
    if ps.len() == 0 {
        m
    } else {
        let m2 = match ps[0].1 {
            Some(v) => if ps[0].0 != "lang"@ {
                BoxModel { meta: meta_put(m.meta, lang, ps[0].0, v), ..m }
            } else {
                m
            },
            None => m,
        };
        apply_meta_props(m2, ps.drop_first(), lang)
    }
}

/// Setting labels: every named attribute must already exist; a scalar
/// value sets its label for the language.
pub open spec fn apply_labels(
    m: BoxModel,
    ps: Seq<(Seq<char>, Option<Seq<char>>)>,
    lang: Seq<char>,
) -> Result<BoxModel, Error>
    decreases ps.len(),
{
    if ps.len() == 0 {
        Ok(m)
    } else if !attrs_has(m.attributes, ps[0].0) {
        Err(Error::AttributeNotFound)
    } else {
        let m2 = match ps[0].1 {
            Some(v) => BoxModel {
                attributes: attrs_update(
                    m.attributes,
                    ps[0].0,
                    AttrModel {
                        labels: assoc_put(attrs_found(m.attributes, ps[0].0).labels, lang, v),
                        ..attrs_found(m.attributes, ps[0].0)
                    },
                ),
                ..m
            },
            None => m,
        };
        apply_labels(m2, ps.drop_first(), lang)
    }
}

/// Setting information texts, as for labels.
pub open spec fn apply_infos(
    m: BoxModel,
    ps: Seq<(Seq<char>, Option<Seq<char>>)>,
    lang: Seq<char>,
) -> Result<BoxModel, Error>
    decreases ps.len(),
{
    if ps.len() == 0 {
        Ok(m)
    } else if !attrs_has(m.attributes, ps[0].0) {
        Err(Error::AttributeNotFound)
    } else {
        let m2 = match ps[0].1 {
            Some(v) => BoxModel {
                attributes: attrs_update(
                    m.attributes,
                    ps[0].0,
                    AttrModel {
                        informations: assoc_put(
                            attrs_found(m.attributes, ps[0].0).informations,
                            lang,
                            v,
                        ),
                        ..attrs_found(m.attributes, ps[0].0)
                    },
                ),
                ..m
            },
            None => m,
        };
        apply_infos(m2, ps.drop_first(), lang)
    }
}

/// Setting character encodings: every named attribute must exist, and a
/// scalar value must spell a known encoding.
pub open spec fn apply_encodings(m: BoxModel, ps: Seq<(Seq<char>, Option<Seq<char>>)>) -> Result<
    BoxModel,
    Error,
>
    decreases ps.len(),
{
    if ps.len() == 0 {
        Ok(m)
    } else if !attrs_has(m.attributes, ps[0].0) {
        Err(Error::AttributeNotFound)
    } else {
        match ps[0].1 {
            Some(s) => match spec_parse_encoding(s) {
                None => Err(Error::InvalidEncoding),
                Some(e) => apply_encodings(
                    BoxModel {
                        attributes: attrs_update(
                            m.attributes,
                            ps[0].0,
                            AttrModel {
                                encoding: Some(e),
                                ..attrs_found(m.attributes, ps[0].0)
                            },
                        ),
                        ..m
                    },
                    ps.drop_first(),
                ),
            },
            None => apply_encodings(m, ps.drop_first()),
        }
    }
}

/// Setting conformance markers: every named attribute must exist, and a
/// scalar value must spell a known marker.
pub open spec fn apply_confs(m: BoxModel, ps: Seq<(Seq<char>, Option<Seq<char>>)>) -> Result<
    BoxModel,
    Error,
>
    decreases ps.len(),
{
    if ps.len() == 0 {
        Ok(m)
    } else if !attrs_has(m.attributes, ps[0].0) {
        Err(Error::AttributeNotFound)
    } else {
        match ps[0].1 {
            Some(s) => match spec_parse_conformance(s) {
                None => Err(Error::InvalidConformance),
                Some(c) => apply_confs(
                    BoxModel {
                        attributes: attrs_update(
                            m.attributes,
                            ps[0].0,
                            AttrModel {
                                conformance: Some(c),
                                ..attrs_found(m.attributes, ps[0].0)
                            },
                        ),
                        ..m
                    },
                    ps.drop_first(),
                ),
            },
            None => apply_confs(m, ps.drop_first()),
        }
    }
}

/// What one command makes of a builder state.
pub open spec fn spec_apply(m: BoxModel, c: CmdModel) -> Result<BoxModel, Error> {
    if c.kind == CommandType::Add {
        match c.object_kind {
            ObjectKind::CaptureBase => {
                let after = match c.attributes {
                    Some(ps) => apply_cb_attrs(m, ps),
                    None => Ok(m),
                };
                match after {
                    Err(e) => Err(e),
                    Ok(m1) => Ok(
                        match c.properties {
                            Some(ps) => apply_cb_props(m1, ps),
                            None => m1,
                        },
                    ),
                }
            },
            ObjectKind::Overlay(ot) => match ot {
                OverlayType::Meta => match lang_of_props(c.properties) {
                    None => Err(Error::MissingLanguageTag),
                    Some(lang) => match c.properties {
                        Some(ps) => Ok(apply_meta_props(m, ps, lang)),
                        None => Err(Error::MissingLanguageTag),
                    },
                },
                OverlayType::Label => match lang_of_props(c.properties) {
                    None => Err(Error::MissingLanguageTag),
                    Some(lang) => match c.attributes {
                        Some(ps) => apply_labels(m, ps, lang),
                        None => Ok(m),
                    },
                },
                OverlayType::Information => match lang_of_props(c.properties) {
                    None => Err(Error::MissingLanguageTag),
                    Some(lang) => match c.attributes {
                        Some(ps) => apply_infos(m, ps, lang),
                        None => Ok(m),
                    },
                },
                OverlayType::CharacterEncoding => match c.attributes {
                    Some(ps) => apply_encodings(m, ps),
                    None => Ok(m),
                },
                OverlayType::Conformance => match c.attributes {
                    Some(ps) => apply_confs(m, ps),
                    None => Ok(m),
                },
                _ => Ok(m),
            },
        }
    } else {
        Ok(m)
    }
}

/// A pair-by-pair copy of an ordered string map with the same view.
pub fn clone_pairs(v: &Vec<(String, String)>) -> (r: Vec<(String, String)>)
    ensures
        pairs_view(r@) == pairs_view(v@),
{
    let mut r: Vec<(String, String)> = Vec::new();
    let n = v.len();
    let mut i: usize = 0;
    while i < n
        invariant
            i <= n,
            n == v@.len(),
            r@.len() == i,
            forall|j: int| 0 <= j < i ==> (#[trigger] r@[j]).0@ == v@[j].0@ && r@[j].1@ == v@[j].1@,
        decreases n - i,
    {
        let p = &v[i];
        r.push((p.0.clone(), p.1.clone()));
        i += 1;
    }
    proof {
        assert(pairs_view(r@) =~= pairs_view(v@));
    }
    r
}

/// A field-by-field copy of an attribute with the same model.
pub fn duplicate_attribute(a: &Attribute) -> (r: Attribute)
    ensures
        attr_model(r) == attr_model(*a),
{
    let mut entries: Vec<Entry> = Vec::new();
    let n = a.entries.len();
    let mut i: usize = 0;
    while i < n
        invariant
            i <= n,
            n == a.entries@.len(),
            entries@.len() == i,
            forall|j: int|
                0 <= j < i ==> crate::attribute::entry_model(#[trigger] entries@[j])
                    == crate::attribute::entry_model(a.entries@[j]),
        decreases n - i,
    {
        let e = &a.entries[i];
        entries.push(Entry { id: e.id.clone(), translations: clone_pairs(&e.translations) });
        i += 1;
    }
    let r = Attribute {
        name: a.name.clone(),
        attribute_type: a.attribute_type,
        is_pii: a.is_pii,
        encoding: a.encoding,
        format: match &a.format {
            Some(s) => Some(s.clone()),
            None => None,
        },
        unit: match &a.unit {
            Some(s) => Some(s.clone()),
            None => None,
        },
        conformance: a.conformance,
        labels: clone_pairs(&a.labels),
        informations: clone_pairs(&a.informations),
        entries,
    };
    proof {
        assert(entries_model(r.entries@) =~= entries_model(a.entries@));
        assert(attr_model(r) =~= attr_model(*a));
    }
    r
}

/// A field-by-field copy of a builder with the same model.
pub fn duplicate_box(b: &OCABox) -> (r: OCABox)
    ensures
        box_model(r) == box_model(*b),
{
    let mut attributes: Vec<Attribute> = Vec::new();
    let n = b.attributes.len();
    let mut i: usize = 0;
    while i < n
        invariant
            i <= n,
            n == b.attributes@.len(),
            attributes@.len() == i,
            forall|j: int|
                0 <= j < i ==> attr_model(#[trigger] attributes@[j]) == attr_model(b.attributes@[j]),
        decreases n - i,
    {
        attributes.push(duplicate_attribute(&b.attributes[i]));
        i += 1;
    }
    let mut meta: Vec<(String, String, String)> = Vec::new();
    let m = b.meta.len();
    let mut i: usize = 0;
    while i < m
        invariant
            i <= m,
            m == b.meta@.len(),
            meta@.len() == i,
            forall|j: int|
                0 <= j < i ==> (#[trigger] meta@[j]).0@ == b.meta@[j].0@ && meta@[j].1@
                    == b.meta@[j].1@ && meta@[j].2@ == b.meta@[j].2@,
        decreases m - i,
    {
        let t = &b.meta[i];
        meta.push((t.0.clone(), t.1.clone(), t.2.clone()));
        i += 1;
    }
    let r = OCABox {
        attributes,
        classification: match &b.classification {
            Some(c) => Some(c.clone()),
            None => None,
        },
        meta,
        layout: match &b.layout {
            Some(l) => Some(duplicate_layout(l)),
            None => None,
        },
    };
    proof {
        assert(attrs_model(r.attributes@) =~= attrs_model(b.attributes@));
        assert(triples_view(r.meta@) =~= triples_view(b.meta@));
        assert(box_model(r) =~= box_model(*b));
    }
    r
}

/// Finds the usable language tag of a property map.
#[verifier::loop_isolation(false)]
fn extract_lang(props: &Option<Vec<(String, Value)>>) -> (r: Result<String, Error>)
    ensures
        match r {
            Ok(l) => lang_of_props(content_part_view(*props)) == Some(l@),
            Err(e) => e == Error::MissingLanguageTag && lang_of_props(content_part_view(*props))
                is None,
        },
{
    proof {
        reveal_strlit("lang");
    }
    match props {
        None => Err(Error::MissingLanguageTag),
        Some(ps) => {
            let ghost cps = content_pairs_view(ps@);
            let n = ps.len();
            let mut i: usize = 0;
            proof {
                assert(cps.skip(0) =~= cps);
            }
            while i < n
                invariant
                    i <= n,
                    n == ps@.len(),
                    cps == content_pairs_view(ps@),
                    forall|j: int| 0 <= j < i ==> cps[j].0 != "lang"@,
                decreases n - i,
            {
                let p = &ps[i];
                if str_eq(p.0.as_str(), "lang") {
                    proof {
                        reveal_strlit("lang");
                        assert(cps[i as int] == (ps@[i as int].0@, spec_scalar(ps@[i as int].1)));
                        assert(cps[i as int].0 == "lang"@);
                        lemma_assoc_get_at(cps, "lang"@, i as int);
                    }
                    match p.1.as_scalar() {
                        None => {
                            return Err(Error::MissingLanguageTag);
                        },
                        Some(s) => {
                            if check_lang(s.as_str()) {
                                return Ok(s.clone());
                            } else {
                                return Err(Error::MissingLanguageTag);
                            }
                        },
                    }
                }
                proof {
                    reveal_strlit("lang");
                    assert(cps[i as int] == (ps@[i as int].0@, spec_scalar(ps@[i as int].1)));
                }
                i += 1;
            }
            proof {
                lemma_assoc_get_none(cps, "lang"@);
            }
            Err(Error::MissingLanguageTag)
        },
    }
}

/// Applies one command to a builder state, producing the next state.
/// The given builder is read, never changed; with no builder given, the
/// command applies to the empty state. Command shapes the interpreter
/// does not recognize return the state unchanged.
#[verifier::loop_isolation(false)]
#[verifier::rlimit(100)]
pub fn apply_command(base: Option<&OCABox>, command: &Command) -> (r: Result<OCABox, Error>)
    ensures
        ({
            let m0 = match base {
                Some(b) => box_model(*b),
                None => empty_box(),
            };
            match r {
                Ok(b2) => spec_apply(m0, cmd_model(*command)) == Result::<BoxModel, Error>::Ok(
                    box_model(b2),
                ),
                Err(e) => spec_apply(m0, cmd_model(*command)) == Result::<BoxModel, Error>::Err(e),
            }
        }),
{
    let ghost m0 = match base {
        Some(b) => box_model(*b),
        None => empty_box(),
    };
    let ghost cm = cmd_model(*command);
    let mut oca = match base {
        Some(b) => duplicate_box(b),
        None => OCABox::new(),
    };
    if command.kind != CommandType::Add {
        return Ok(oca);
    }
    match &command.object_kind {
        ObjectKind::CaptureBase => {
            match &command.content {
                None => Ok(oca),
                Some(content) => {
                    match &content.attributes {
                        None => {},
                        Some(ps) => {
                            let ghost cps = content_pairs_view(ps@);
                            let n = ps.len();
                            let mut i: usize = 0;
                            proof {
                                assert(cps.skip(0) =~= cps);
                            }
                            while i < n
                                invariant
                                    i <= n,
                                    n == ps@.len(),
                                    cps == content_pairs_view(ps@),
                                    apply_cb_attrs(m0, cps) == apply_cb_attrs(
                                        box_model(oca),
                                        cps.skip(i as int),
                                    ),
                                decreases n - i,
                            {
                                let p = &ps[i];
                                proof {
                                    assert(cps[i as int] == (ps@[i as int].0@, spec_scalar(
                                        ps@[i as int].1,
                                    )));
                                    assert(cps.skip(i as int)[0] == cps[i as int]);
                                    assert(cps.skip(i as int).drop_first() =~= cps.skip(i + 1));
                                }
                                match p.1.as_scalar() {
                                    None => {
                                        return Err(Error::UnknownAttributeType);
                                    },
                                    Some(s) => {
                                        match parse_attribute_type(s.as_str()) {
                                            None => {
                                                return Err(Error::UnknownAttributeType);
                                            },
                                            Some(t) => {
                                                let attr = Attribute::new(p.0.clone(), t);
                                                let added = oca.add_attribute(attr);
                                                match added {
                                                    Err(e) => {
                                                        return Err(e);
                                                    },
                                                    Ok(()) => {},
                                                }
                                            },
                                        }
                                    },
                                }
                                i += 1;
                            }
                            proof {
                                assert(cps.skip(n as int) =~= Seq::<
                                    (Seq<char>, Option<Seq<char>>),
                                >::empty());
                            }
                        },
                    }
                    match &content.properties {
                        None => {},
                        Some(ps) => {
                            let ghost m1 = box_model(oca);
                            let ghost cps = content_pairs_view(ps@);
                            let n = ps.len();
                            let mut i: usize = 0;
                            proof {
                                assert(cps.skip(0) =~= cps);
                            }
                            while i < n
                                invariant
                                    i <= n,
                                    n == ps@.len(),
                                    cps == content_pairs_view(ps@),
                                    apply_cb_props(m1, cps) == apply_cb_props(
                                        box_model(oca),
                                        cps.skip(i as int),
                                    ),
                                decreases n - i,
                            {
                                let p = &ps[i];
                                proof {
                                    reveal_strlit("classification");
                                    assert(cps[i as int] == (ps@[i as int].0@, spec_scalar(
                                        ps@[i as int].1,
                                    )));
                                    assert(cps.skip(i as int)[0] == cps[i as int]);
                                    assert(cps.skip(i as int).drop_first() =~= cps.skip(i + 1));
                                }
                                if str_eq(p.0.as_str(), "classification") {
                                    match p.1.as_scalar() {
                                        Some(s) => oca.add_classification(s.clone()),
                                        None => {},
                                    }
                                }
                                i += 1;
                            }
                            proof {
                                assert(cps.skip(n as int) =~= Seq::<
                                    (Seq<char>, Option<Seq<char>>),
                                >::empty());
                            }
                        },
                    }
                    Ok(oca)
                },
            }
        },
        ObjectKind::Overlay(ot) => {
            match ot {
                OverlayType::Meta => {
                    let lang = match &command.content {
                        None => {
                            return Err(Error::MissingLanguageTag);
                        },
                        Some(content) => match extract_lang(&content.properties) {
                            Err(e) => {
                                return Err(e);
                            },
                            Ok(l) => l,
                        },
                    };
                    match &command.content {
                        None => Err(Error::MissingLanguageTag),
                        Some(content) => match &content.properties {
                            None => Err(Error::MissingLanguageTag),
                            Some(ps) => {
                            let ghost cps = content_pairs_view(ps@);
                            let n = ps.len();
                            let mut i: usize = 0;
                            proof {
                                assert(cps.skip(0) =~= cps);
                            }
                            while i < n
                                invariant
                                    i <= n,
                                    n == ps@.len(),
                                    cps == content_pairs_view(ps@),
                                    apply_meta_props(m0, cps, lang@) == apply_meta_props(
                                        box_model(oca),
                                        cps.skip(i as int),
                                        lang@,
                                    ),
                                decreases n - i,
                            {
                                let p = &ps[i];
                                proof {
                                    reveal_strlit("lang");
                                    assert(cps[i as int] == (ps@[i as int].0@, spec_scalar(
                                        ps@[i as int].1,
                                    )));
                                    assert(cps.skip(i as int)[0] == cps[i as int]);
                                    assert(cps.skip(i as int).drop_first() =~= cps.skip(i + 1));
                                }
                                match p.1.as_scalar() {
                                    Some(v) => {
                                        if !str_eq(p.0.as_str(), "lang") {
                                            oca.add_meta(lang.clone(), p.0.clone(), v.clone());
                                        }
                                    },
                                    None => {},
                                }
                                i += 1;
                            }
                            proof {
                                assert(cps.skip(n as int) =~= Seq::<
                                    (Seq<char>, Option<Seq<char>>),
                                >::empty());
                            }
                                Ok(oca)
                            },
                        },
                    }
                },
                OverlayType::Label => {
                    let lang = match &command.content {
                        None => {
                            return Err(Error::MissingLanguageTag);
                        },
                        Some(content) => match extract_lang(&content.properties) {
                            Err(e) => {
                                return Err(e);
                            },
                            Ok(l) => l,
                        },
                    };
                    match &command.content {
                        None => Err(Error::MissingLanguageTag),
                        Some(content) => {
                            match &content.attributes {
                                None => Ok(oca),
                                Some(ps) => {
                                    let ghost cps = content_pairs_view(ps@);
                                    let n = ps.len();
                                    let mut i: usize = 0;
                                    proof {
                                        assert(cps.skip(0) =~= cps);
                                    }
                                    while i < n
                                        invariant
                                            i <= n,
                                            n == ps@.len(),
                                            cps == content_pairs_view(ps@),
                                            apply_labels(m0, cps, lang@) == apply_labels(
                                                box_model(oca),
                                                cps.skip(i as int),
                                                lang@,
                                            ),
                                        decreases n - i,
                                    {
                                        let p = &ps[i];
                                        proof {
                                            assert(cps[i as int] == (ps@[i as int].0@, spec_scalar(
                                                ps@[i as int].1,
                                            )));
                                            assert(cps.skip(i as int)[0] == cps[i as int]);
                                            assert(cps.skip(i as int).drop_first() =~= cps.skip(
                                                i + 1,
                                            ));
                                        }
                                        match oca.find_attribute(p.0.as_str()) {
                                            None => {
                                                return Err(Error::AttributeNotFound);
                                            },
                                            Some(ix) => {
                                                proof {
                                                    crate::builder::lemma_attrs_at(
                                                        attrs_model(oca.attributes@),
                                                        p.0@,
                                                        attrs_model(oca.attributes@)[ix as int],
                                                        ix as int,
                                                    );
                                                }
                                                match p.1.as_scalar() {
                                                    Some(v) => {
                                                        let set = oca.set_attribute_label(
                                                            &p.0,
                                                            &lang,
                                                            v,
                                                        );
                                                        proof {
                                                            assert(set is Ok);
                                                        }
                                                    },
                                                    None => {},
                                                }
                                            },
                                        }
                                        i += 1;
                                    }
                                    proof {
                                        assert(cps.skip(n as int) =~= Seq::<
                                            (Seq<char>, Option<Seq<char>>),
                                        >::empty());
                                    }
                                    Ok(oca)
                                },
                            }
                        },
                    }
                },
                OverlayType::Information => {
                    let lang = match &command.content {
                        None => {
                            return Err(Error::MissingLanguageTag);
                        },
                        Some(content) => match extract_lang(&content.properties) {
                            Err(e) => {
                                return Err(e);
                            },
                            Ok(l) => l,
                        },
                    };
                    match &command.content {
                        None => Err(Error::MissingLanguageTag),
                        Some(content) => {
                            match &content.attributes {
                                None => Ok(oca),
                                Some(ps) => {
                                    let ghost cps = content_pairs_view(ps@);
                                    let n = ps.len();
                                    let mut i: usize = 0;
                                    proof {
                                        assert(cps.skip(0) =~= cps);
                                    }
                                    while i < n
                                        invariant
                                            i <= n,
                                            n == ps@.len(),
                                            cps == content_pairs_view(ps@),
                                            apply_infos(m0, cps, lang@) == apply_infos(
                                                box_model(oca),
                                                cps.skip(i as int),
                                                lang@,
                                            ),
                                        decreases n - i,
                                    {
                                        let p = &ps[i];
                                        proof {
                                            assert(cps[i as int] == (ps@[i as int].0@, spec_scalar(
                                                ps@[i as int].1,
                                            )));
                                            assert(cps.skip(i as int)[0] == cps[i as int]);
                                            assert(cps.skip(i as int).drop_first() =~= cps.skip(
                                                i + 1,
                                            ));
                                        }
                                        match oca.find_attribute(p.0.as_str()) {
                                            None => {
                                                return Err(Error::AttributeNotFound);
                                            },
                                            Some(ix) => {
                                                proof {
                                                    crate::builder::lemma_attrs_at(
                                                        attrs_model(oca.attributes@),
                                                        p.0@,
                                                        attrs_model(oca.attributes@)[ix as int],
                                                        ix as int,
                                                    );
                                                }
                                                match p.1.as_scalar() {
                                                    Some(v) => {
                                                        let set = oca.set_attribute_information(
                                                            &p.0,
                                                            &lang,
                                                            v,
                                                        );
                                                        proof {
                                                            assert(set is Ok);
                                                        }
                                                    },
                                                    None => {},
                                                }
                                            },
                                        }
                                        i += 1;
                                    }
                                    proof {
                                        assert(cps.skip(n as int) =~= Seq::<
                                            (Seq<char>, Option<Seq<char>>),
                                        >::empty());
                                    }
                                    Ok(oca)
                                },
                            }
                        },
                    }
                },
                OverlayType::CharacterEncoding => {
                    match &command.content {
                        None => Ok(oca),
                        Some(content) => {
                            match &content.attributes {
                                None => Ok(oca),
                                Some(ps) => {
                                    let ghost cps = content_pairs_view(ps@);
                                    let n = ps.len();
                                    let mut i: usize = 0;
                                    proof {
                                        assert(cps.skip(0) =~= cps);
                                    }
                                    while i < n
                                        invariant
                                            i <= n,
                                            n == ps@.len(),
                                            cps == content_pairs_view(ps@),
                                            apply_encodings(m0, cps) == apply_encodings(
                                                box_model(oca),
                                                cps.skip(i as int),
                                            ),
                                        decreases n - i,
                                    {
                                        let p = &ps[i];
                                        proof {
                                            assert(cps[i as int] == (ps@[i as int].0@, spec_scalar(
                                                ps@[i as int].1,
                                            )));
                                            assert(cps.skip(i as int)[0] == cps[i as int]);
                                            assert(cps.skip(i as int).drop_first() =~= cps.skip(
                                                i + 1,
                                            ));
                                        }
                                        match oca.find_attribute(p.0.as_str()) {
                                            None => {
                                                return Err(Error::AttributeNotFound);
                                            },
                                            Some(ix) => {
                                                proof {
                                                    crate::builder::lemma_attrs_at(
                                                        attrs_model(oca.attributes@),
                                                        p.0@,
                                                        attrs_model(oca.attributes@)[ix as int],
                                                        ix as int,
                                                    );
                                                }
                                                match p.1.as_scalar() {
                                                    Some(v) => {
                                                        match parse_encoding(v.as_str()) {
                                                            None => {
                                                                return Err(Error::InvalidEncoding);
                                                            },
                                                            Some(e) => {
                                                                let set = oca.set_attribute_encoding(
                                                                    &p.0,
                                                                    e,
                                                                );
                                                                proof {
                                                                    assert(set is Ok);
                                                                }
                                                            },
                                                        }
                                                    },
                                                    None => {},
                                                }
                                            },
                                        }
                                        i += 1;
                                    }
                                    proof {
                                        assert(cps.skip(n as int) =~= Seq::<
                                            (Seq<char>, Option<Seq<char>>),
                                        >::empty());
                                    }
                                    Ok(oca)
                                },
                            }
                        },
                    }
                },
                OverlayType::Conformance => {
                    match &command.content {
                        None => Ok(oca),
                        Some(content) => {
                            match &content.attributes {
                                None => Ok(oca),
                                Some(ps) => {
                                    let ghost cps = content_pairs_view(ps@);
                                    let n = ps.len();
                                    let mut i: usize = 0;
                                    proof {
                                        assert(cps.skip(0) =~= cps);
                                    }
                                    while i < n
                                        invariant
                                            i <= n,
                                            n == ps@.len(),
                                            cps == content_pairs_view(ps@),
                                            apply_confs(m0, cps) == apply_confs(
                                                box_model(oca),
                                                cps.skip(i as int),
                                            ),
                                        decreases n - i,
                                    {
                                        let p = &ps[i];
                                        proof {
                                            assert(cps[i as int] == (ps@[i as int].0@, spec_scalar(
                                                ps@[i as int].1,
                                            )));
                                            assert(cps.skip(i as int)[0] == cps[i as int]);
                                            assert(cps.skip(i as int).drop_first() =~= cps.skip(
                                                i + 1,
                                            ));
                                        }
                                        match oca.find_attribute(p.0.as_str()) {
                                            None => {
                                                return Err(Error::AttributeNotFound);
                                            },
                                            Some(ix) => {
                                                proof {
                                                    crate::builder::lemma_attrs_at(
                                                        attrs_model(oca.attributes@),
                                                        p.0@,
                                                        attrs_model(oca.attributes@)[ix as int],
                                                        ix as int,
                                                    );
                                                }
                                                match p.1.as_scalar() {
                                                    Some(v) => {
                                                        match parse_conformance(v.as_str()) {
                                                            None => {
                                                                return Err(
                                                                    Error::InvalidConformance,
                                                                );
                                                            },
                                                            Some(c) => {
                                                                let set =
                                                                    oca.set_attribute_conformance(
                                                                    &p.0,
                                                                    c,
                                                                );
                                                                proof {
                                                                    assert(set is Ok);
                                                                }
                                                            },
                                                        }
                                                    },
                                                    None => {},
                                                }
                                            },
                                        }
                                        i += 1;
                                    }
                                    proof {
                                        assert(cps.skip(n as int) =~= Seq::<
                                            (Seq<char>, Option<Seq<char>>),
                                        >::empty());
                                    }
                                    Ok(oca)
                                },
                            }
                        },
                    }
                },
                _ => Ok(oca),
            }
        },
    }
}

} // verus!
