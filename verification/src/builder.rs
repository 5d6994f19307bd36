//! The bundle builder: the mutable, single-owner accumulation of one
//! in-progress capture base, per-language schema metadata and an optional
//! layout. It has no digest until it is finalized into a bundle.

use vstd::prelude::*;
use crate::attribute::{attr_model, AttrModel, Attribute, Conformance, Encoding};
use crate::errors::Error;
use crate::layout::{layout_model, Layout, LayoutModel};
use crate::maps::assoc_put;
use crate::text::str_eq;

verus! {

/// The view of a list of metadata triples (language, property, value).
pub open spec fn triples_view(s: Seq<(String, String, String)>) -> Seq<
    (Seq<char>, Seq<char>, Seq<char>),
> {
    Seq::new(s.len(), |i: int| (s[i].0@, s[i].1@, s[i].2@))
}

/// The models of a list of attributes.
pub open spec fn attrs_model(s: Seq<Attribute>) -> Seq<AttrModel> {
    Seq::new(s.len(), |i: int| attr_model(s[i]))
}

/// Whether an attribute of this name is present.
pub open spec fn attrs_has(s: Seq<AttrModel>, name: Seq<char>) -> bool
    decreases s.len(),
{
    if s.len() == 0 {
        false
    } else if s[0].name == name {
        true
    } else {
        attrs_has(s.drop_first(), name)
    }
}

/// The first attribute of this name.
pub open spec fn attrs_found(s: Seq<AttrModel>, name: Seq<char>) -> AttrModel
    decreases s.len(),
{
    if s.len() == 0 {
        arbitrary()
    } else if s[0].name == name {
        s[0]
    } else {
        attrs_found(s.drop_first(), name)
    }
}

/// The list with the first attribute of this name replaced.
pub open spec fn attrs_update(s: Seq<AttrModel>, name: Seq<char>, m: AttrModel) -> Seq<AttrModel>
    decreases s.len(),
{
    if s.len() == 0 {
        s
    } else if s[0].name == name {
        s.update(0, m)
    } else {
        seq![s[0]] + attrs_update(s.drop_first(), name, m)
    }
}

/// With the name at position `i` and nowhere earlier, the recursive
/// functions read off position `i`.
pub proof fn lemma_attrs_at(s: Seq<AttrModel>, name: Seq<char>, m: AttrModel, i: int)
    requires
        0 <= i < s.len(),
        s[i].name == name,
        forall|j: int| 0 <= j < i ==> s[j].name != name,
    ensures
        attrs_has(s, name),
        attrs_found(s, name) == s[i],
        attrs_update(s, name, m) =~= s.update(i, m),
    decreases i,
{
    if i > 0 {
        lemma_attrs_at(s.drop_first(), name, m, i - 1);
        assert(seq![s[0]] + s.drop_first().update(i - 1, m) =~= s.update(i, m));
    }
}

/// With the name absent everywhere, nothing is found or changed.
pub proof fn lemma_attrs_none(s: Seq<AttrModel>, name: Seq<char>)
    requires
        forall|j: int| 0 <= j < s.len() ==> s[j].name != name,
    ensures
        !attrs_has(s, name),
    decreases s.len(),
{
    if s.len() > 0 {
        lemma_attrs_none(s.drop_first(), name);
    }
}

/// Replaces the value under a present (language, property) pair in
/// place, or appends the new triple at the end.
pub open spec fn meta_put(
    m: Seq<(Seq<char>, Seq<char>, Seq<char>)>,
    lang: Seq<char>,
    k: Seq<char>,
    v: Seq<char>,
) -> Seq<(Seq<char>, Seq<char>, Seq<char>)>
    decreases m.len(),
{
    if m.len() == 0 {
        seq![(lang, k, v)]
    } else if m[0].0 == lang && m[0].1 == k {
        m.update(0, (lang, k, v))
    } else {
        seq![m[0]] + meta_put(m.drop_first(), lang, k, v)
    }
}

/// With the pair at position `i` and nowhere earlier, `meta_put` is
/// `update`.
pub proof fn lemma_meta_put_found(
    m: Seq<(Seq<char>, Seq<char>, Seq<char>)>,
    lang: Seq<char>,
    k: Seq<char>,
    v: Seq<char>,
    i: int,
)
    requires
        0 <= i < m.len(),
        m[i].0 == lang && m[i].1 == k,
        forall|j: int| 0 <= j < i ==> !(m[j].0 == lang && m[j].1 == k),
    ensures
        meta_put(m, lang, k, v) =~= m.update(i, (lang, k, v)),
    decreases i,
{
    if i > 0 {
        lemma_meta_put_found(m.drop_first(), lang, k, v, i - 1);
        assert(seq![m[0]] + m.drop_first().update(i - 1, (lang, k, v)) =~= m.update(
            i,
            (lang, k, v),
        ));
    }
}

/// With the pair absent, `meta_put` appends.
pub proof fn lemma_meta_put_missing(
    m: Seq<(Seq<char>, Seq<char>, Seq<char>)>,
    lang: Seq<char>,
    k: Seq<char>,
    v: Seq<char>,
)
    requires
        forall|j: int| 0 <= j < m.len() ==> !(m[j].0 == lang && m[j].1 == k),
    ensures
        meta_put(m, lang, k, v) =~= m.push((lang, k, v)),
    decreases m.len(),
{
    if m.len() > 0 {
        lemma_meta_put_missing(m.drop_first(), lang, k, v);
        assert(seq![m[0]] + m.drop_first().push((lang, k, v)) =~= m.push((lang, k, v)));
    }
}

/// The mathematical content of a builder.
#[verifier::ext_equal]
pub struct BoxModel {
    pub attributes: Seq<AttrModel>,
    pub classification: Option<Seq<char>>,
    pub meta: Seq<(Seq<char>, Seq<char>, Seq<char>)>,
    pub layout: Option<LayoutModel>,
}

/// The bundle builder.
pub struct OCABox {
    pub attributes: Vec<Attribute>,
    pub classification: Option<String>,
    pub meta: Vec<(String, String, String)>,
    pub layout: Option<Layout>,
}

/// The model of a builder value.
pub open spec fn box_model(b: OCABox) -> BoxModel {
    BoxModel {
        attributes: attrs_model(b.attributes@),
        classification: match b.classification {
            Some(c) => Some(c@),
            None => None,
        },
        meta: triples_view(b.meta@),
        layout: match b.layout {
            Some(l) => Some(layout_model(l)),
            None => None,
        },
    }
}

/// The model of an empty builder.
pub open spec fn empty_box() -> BoxModel {
    BoxModel {
        attributes: Seq::empty(),
        classification: None,
        meta: Seq::empty(),
        layout: None,
    }
}

impl OCABox {
    /// A fresh, empty builder.
    pub fn new() -> (r: OCABox)
        ensures
            box_model(r) == empty_box(),
    {
        let r = OCABox {
            attributes: Vec::new(),
            classification: None,
            meta: Vec::new(),
            layout: None,
        };
        proof {
            assert(box_model(r).attributes =~= Seq::<AttrModel>::empty());
            assert(box_model(r).meta =~= Seq::<(Seq<char>, Seq<char>, Seq<char>)>::empty());
        }
        r
    }

    /// The position of the attribute with this name, if present.
    pub fn find_attribute(&self, name: &str) -> (r: Option<usize>)
        ensures
            match r {
                Some(i) => i < self.attributes@.len() && attrs_model(self.attributes@)[i as int].name
                    == name@ && (forall|j: int|
                    0 <= j < i ==> attrs_model(self.attributes@)[j].name != name@),
                None => !attrs_has(attrs_model(self.attributes@), name@),
            },
    {
        let n = self.attributes.len();
        let mut i: usize = 0;
        while i < n
            invariant
                i <= n,
                n == self.attributes@.len(),
                forall|j: int| 0 <= j < i ==> attrs_model(self.attributes@)[j].name != name@,
            decreases n - i,
        {
            if str_eq(self.attributes[i].name.as_str(), name) {
                return Some(i);
            }
            i += 1;
        }
        proof {
            lemma_attrs_none(attrs_model(self.attributes@), name@);
        }
        None
    }

    /// Adds a fresh attribute. Fails, leaving the builder unchanged, when
    /// an attribute of the same name is already present.
    pub fn add_attribute(&mut self, attribute: Attribute) -> (r: Result<(), Error>)
        ensures
            attrs_has(box_model(*old(self)).attributes, attribute.name@) ==> r
                == Result::<(), Error>::Err(Error::DuplicateAttribute) && box_model(*final(self))
                == box_model(*old(self)),
            !attrs_has(box_model(*old(self)).attributes, attribute.name@) ==> r
                == Result::<(), Error>::Ok(()) && box_model(*final(self)) == (BoxModel {
                attributes: box_model(*old(self)).attributes.push(attr_model(attribute)),
                ..box_model(*old(self))
            }),
    {
        match self.find_attribute(attribute.name.as_str()) {
            Some(i) => {
                proof {
                    lemma_attrs_at(
                        attrs_model(self.attributes@),
                        attribute.name@,
                        attr_model(attribute),
                        i as int,
                    );
                }
                Err(Error::DuplicateAttribute)
            },
            None => {
                self.attributes.push(attribute);
                proof {
                    assert(attrs_model(self.attributes@) =~= attrs_model(old(self).attributes@)
                        .push(attr_model(attribute)));
                }
                Ok(())
            },
        }
    }

    /// Sets the classification.
    pub fn add_classification(&mut self, classification: String)
        ensures
            box_model(*final(self)) == (BoxModel {
                classification: Some(classification@),
                ..box_model(*old(self))
            }),
    {
        self.classification = Some(classification);
    }

    /// Sets one schema metadata property for one language, replacing an
    /// earlier value for the same pair.
    pub fn add_meta(&mut self, lang: String, key: String, value: String)
        ensures
            box_model(*final(self)) == (BoxModel {
                meta: meta_put(box_model(*old(self)).meta, lang@, key@, value@),
                ..box_model(*old(self))
            }),
    {
        let n = self.meta.len();
        let mut i: usize = 0;
        while i < n
            invariant
                i <= n,
                n == self.meta@.len(),
                self.meta@ == old(self).meta@,
                self.attributes@ == old(self).attributes@,
                self.classification == old(self).classification,
                match (self.layout, old(self).layout) {
                    (Some(a), Some(b)) => a == b,
                    (None, None) => true,
                    _ => false,
                },
                forall|j: int|
                    0 <= j < i ==> !(triples_view(self.meta@)[j].0 == lang@ && triples_view(
                        self.meta@,
                    )[j].1 == key@),
            decreases n - i,
        {
            let hit = {
                let t = &self.meta[i];
                str_eq(t.0.as_str(), lang.as_str()) && str_eq(t.1.as_str(), key.as_str())
            };
            if hit {
                let _ = self.meta.remove(i);
                self.meta.insert(i, (lang, key, value));
                proof {
                    lemma_meta_put_found(triples_view(old(self).meta@), lang@, key@, value@, i as int);
                    assert(triples_view(self.meta@) =~= triples_view(old(self).meta@).update(
                        i as int,
                        (lang@, key@, value@),
                    ));
                }
                return;
            }
            i += 1;
        }
        self.meta.push((lang, key, value));
        proof {
            lemma_meta_put_missing(triples_view(old(self).meta@), lang@, key@, value@);
            assert(triples_view(self.meta@) =~= triples_view(old(self).meta@).push(
                (lang@, key@, value@),
            ));
        }
    }

    /// Attaches a form layout. Fails, leaving the builder unchanged, when
    /// one is already attached.
    pub fn add_form_layout(&mut self, layout: Layout) -> (r: Result<(), Error>)
        ensures
            box_model(*old(self)).layout is Some ==> r == Result::<(), Error>::Err(
                Error::DuplicateOverlay,
            ) && box_model(*final(self)) == box_model(*old(self)),
            box_model(*old(self)).layout is None ==> r == Result::<(), Error>::Ok(())
                && box_model(*final(self)) == (BoxModel {
                layout: Some(layout_model(layout)),
                ..box_model(*old(self))
            }),
    {
        match &self.layout {
            Some(_) => Err(Error::DuplicateOverlay),
            None => {
                self.layout = Some(layout);
                Ok(())
            },
        }
    }

    /// Sets the label of an existing attribute for one language. Fails
    /// with the builder unchanged when no attribute of this name exists.
    pub fn set_attribute_label(&mut self, name: &String, lang: &String, label: &String) -> (r:
        Result<(), Error>)
        ensures
            attrs_has(box_model(*old(self)).attributes, name@) ==> r == Result::<(), Error>::Ok(())
                && box_model(*final(self)) == (BoxModel {
                attributes: attrs_update(
                    box_model(*old(self)).attributes,
                    name@,
                    AttrModel {
                        labels: assoc_put(
                            attrs_found(box_model(*old(self)).attributes, name@).labels,
                            lang@,
                            label@,
                        ),
                        ..attrs_found(box_model(*old(self)).attributes, name@)
                    },
                ),
                ..box_model(*old(self))
            }),
            !attrs_has(box_model(*old(self)).attributes, name@) ==> r == Result::<(), Error>::Err(
                Error::AttributeNotFound,
            ) && box_model(*final(self)) == box_model(*old(self)),
    {
        match self.find_attribute(name.as_str()) {
            None => Err(Error::AttributeNotFound),
            Some(i) => {
                let ghost s = attrs_model(old(self).attributes@);
                let mut a = self.attributes.remove(i);
                a.set_label(lang, label);
                let ghost m = attr_model(a);
                self.attributes.insert(i, a);
                proof {
                    lemma_attrs_at(s, name@, m, i as int);
                    assert(attrs_model(self.attributes@) =~= s.update(i as int, m));
                }
                Ok(())
            },
        }
    }

    /// Sets the information text of an existing attribute for one
    /// language. Fails with the builder unchanged when no attribute of
    /// this name exists.
    pub fn set_attribute_information(&mut self, name: &String, lang: &String, information: &String)
        -> (r: Result<(), Error>)
        ensures
            attrs_has(box_model(*old(self)).attributes, name@) ==> r == Result::<(), Error>::Ok(())
                && box_model(*final(self)) == (BoxModel {
                attributes: attrs_update(
                    box_model(*old(self)).attributes,
                    name@,
                    AttrModel {
                        informations: assoc_put(
                            attrs_found(box_model(*old(self)).attributes, name@).informations,
                            lang@,
                            information@,
                        ),
                        ..attrs_found(box_model(*old(self)).attributes, name@)
                    },
                ),
                ..box_model(*old(self))
            }),
            !attrs_has(box_model(*old(self)).attributes, name@) ==> r == Result::<(), Error>::Err(
                Error::AttributeNotFound,
            ) && box_model(*final(self)) == box_model(*old(self)),
    {
        match self.find_attribute(name.as_str()) {
            None => Err(Error::AttributeNotFound),
            Some(i) => {
                let ghost s = attrs_model(old(self).attributes@);
                let mut a = self.attributes.remove(i);
                a.set_information(lang, information);
                let ghost m = attr_model(a);
                self.attributes.insert(i, a);
                proof {
                    lemma_attrs_at(s, name@, m, i as int);
                    assert(attrs_model(self.attributes@) =~= s.update(i as int, m));
                }
                Ok(())
            },
        }
    }

    /// Sets the character encoding of an existing attribute. Fails with
    /// the builder unchanged when no attribute of this name exists.
    pub fn set_attribute_encoding(&mut self, name: &String, encoding: Encoding) -> (r: Result<
        (),
        Error,
    >)
        ensures
            attrs_has(box_model(*old(self)).attributes, name@) ==> r == Result::<(), Error>::Ok(())
                && box_model(*final(self)) == (BoxModel {
                attributes: attrs_update(
                    box_model(*old(self)).attributes,
                    name@,
                    AttrModel {
                        encoding: Some(encoding),
                        ..attrs_found(box_model(*old(self)).attributes, name@)
                    },
                ),
                ..box_model(*old(self))
            }),
            !attrs_has(box_model(*old(self)).attributes, name@) ==> r == Result::<(), Error>::Err(
                Error::AttributeNotFound,
            ) && box_model(*final(self)) == box_model(*old(self)),
    {
        match self.find_attribute(name.as_str()) {
            None => Err(Error::AttributeNotFound),
            Some(i) => {
                let ghost s = attrs_model(old(self).attributes@);
                let mut a = self.attributes.remove(i);
                a.set_encoding(encoding);
                let ghost m = attr_model(a);
                self.attributes.insert(i, a);
                proof {
                    lemma_attrs_at(s, name@, m, i as int);
                    assert(attrs_model(self.attributes@) =~= s.update(i as int, m));
                }
                Ok(())
            },
        }
    }

    /// Sets the conformance marker of an existing attribute. Fails with
    /// the builder unchanged when no attribute of this name exists.
    pub fn set_attribute_conformance(&mut self, name: &String, conformance: Conformance) -> (r:
        Result<(), Error>)
        ensures
            attrs_has(box_model(*old(self)).attributes, name@) ==> r == Result::<(), Error>::Ok(())
                && box_model(*final(self)) == (BoxModel {
                attributes: attrs_update(
                    box_model(*old(self)).attributes,
                    name@,
                    AttrModel {
                        conformance: Some(conformance),
                        ..attrs_found(box_model(*old(self)).attributes, name@)
                    },
                ),
                ..box_model(*old(self))
            }),
            !attrs_has(box_model(*old(self)).attributes, name@) ==> r == Result::<(), Error>::Err(
                Error::AttributeNotFound,
            ) && box_model(*final(self)) == box_model(*old(self)),
    {
        match self.find_attribute(name.as_str()) {
            None => Err(Error::AttributeNotFound),
            Some(i) => {
                let ghost s = attrs_model(old(self).attributes@);
                let mut a = self.attributes.remove(i);
                a.set_conformance(conformance);
                let ghost m = attr_model(a);
                self.attributes.insert(i, a);
                proof {
                    lemma_attrs_at(s, name@, m, i as int);
                    assert(attrs_model(self.attributes@) =~= s.update(i as int, m));
                }
                Ok(())
            },
        }
    }
}

} // verus!
