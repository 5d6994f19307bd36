//! The validator: checks a finished bundle against configurable rules
//! and reports every finding at once. The rule here: for every
//! language-bearing overlay kind present in the bundle, every required
//! language must have an overlay instance.

use vstd::prelude::*;
use vstd::string::{StringExecFns, StrSliceExecFns};
use crate::bundle::{overlays_model, Bundle};
use crate::command::OverlayType;
use crate::errors::ValidationError;
use crate::layout::strings_view;
use crate::overlay::{Overlay, OverlayModel};
use crate::text::str_eq;

verus! {

/// Whether an overlay content is of this language-bearing kind.
pub open spec fn is_lang_kind(m: OverlayModel, t: OverlayType) -> bool {
    match (m, t) {
        (OverlayModel::Meta { .. }, OverlayType::Meta) => true,
        (OverlayModel::Label { .. }, OverlayType::Label) => true,
        (OverlayModel::Information { .. }, OverlayType::Information) => true,
        (OverlayModel::Entry { .. }, OverlayType::Entry) => true,
        _ => false,
    }
}

/// The language an overlay content carries, if any.
pub open spec fn lang_of_overlay(m: OverlayModel) -> Option<Seq<char>> {
    match m {
        OverlayModel::Meta { language, .. } => Some(language),
        OverlayModel::Label { language, .. } => Some(language),
        OverlayModel::Information { language, .. } => Some(language),
        OverlayModel::Entry { language, .. } => Some(language),
        _ => None,
    }
}

/// Whether an overlay of this kind is present at all.
pub open spec fn kind_present(ovs: Seq<OverlayModel>, t: OverlayType) -> bool {
    exists|i: int| 0 <= i < ovs.len() && is_lang_kind(#[trigger] ovs[i], t)
}

/// Whether an overlay of this kind carries this language.
pub open spec fn lang_present(ovs: Seq<OverlayModel>, t: OverlayType, lang: Seq<char>) -> bool {
    exists|i: int|
        0 <= i < ovs.len() && is_lang_kind(#[trigger] ovs[i], t) && lang_of_overlay(ovs[i])
            == Some(lang)
}

/// The word for an overlay kind inside a finding's message.
pub open spec fn type_word(t: OverlayType) -> Seq<char> {
    match t {
        OverlayType::Meta => "meta"@,
        OverlayType::Label => "label"@,
        OverlayType::Information => "information"@,
        OverlayType::CharacterEncoding => "character_encoding"@,
        OverlayType::Conformance => "conformance"@,
        OverlayType::Entry => "entry"@,
        OverlayType::FormLayout => "form_layout"@,
    }
}

/// The message reported for one missing (kind, language) combination.
pub open spec fn missing_msg(t: OverlayType, lang: Seq<char>) -> Seq<char> {
    "missing "@ + lang + " "@ + type_word(t) + " overlay"@
}

/// The findings for one overlay kind: one message per required language
/// without an instance, in the order the languages were required.
pub open spec fn missing_for_type(
    ovs: Seq<OverlayModel>,
    t: OverlayType,
    langs: Seq<Seq<char>>,
) -> Seq<Seq<char>>
    decreases langs.len(),
{
    if langs.len() == 0 {
        Seq::empty()
    } else {
        let r = missing_for_type(ovs, t, langs.drop_last());
        if !lang_present(ovs, t, langs.last()) {
            r.push(missing_msg(t, langs.last()))
        } else {
            r
        }
    }
}

/// Every finding of the translation rule, kinds in a fixed order.
pub open spec fn missing_all(ovs: Seq<OverlayModel>, langs: Seq<Seq<char>>) -> Seq<Seq<char>> {
    (if kind_present(ovs, OverlayType::Meta) {
        missing_for_type(ovs, OverlayType::Meta, langs)
    } else {
        Seq::empty()
    }) + (if kind_present(ovs, OverlayType::Label) {
        missing_for_type(ovs, OverlayType::Label, langs)
    } else {
        Seq::empty()
    }) + (if kind_present(ovs, OverlayType::Information) {
        missing_for_type(ovs, OverlayType::Information, langs)
    } else {
        Seq::empty()
    }) + (if kind_present(ovs, OverlayType::Entry) {
        missing_for_type(ovs, OverlayType::Entry, langs)
    } else {
        Seq::empty()
    })
}

/// The messages of a finding list.
pub open spec fn errors_view(es: Seq<ValidationError>) -> Seq<Seq<char>> {
    Seq::new(es.len(), |i: int| es[i].spec_message())
}

/// Pushing one finding extends the message list by its message.
proof fn lemma_errors_view_push(s: Seq<ValidationError>, e: ValidationError)
    ensures
        errors_view(s.push(e)) =~= errors_view(s).push(e.spec_message()),
{
    assert forall|i: int| 0 <= i < s.len() + 1 implies errors_view(s.push(e))[i] == errors_view(
        s,
    ).push(e.spec_message())[i] by {
        if i < s.len() {
            assert(s.push(e)[i] == s[i]);
        } else {
            assert(s.push(e)[i] == e);
        }
    }
}

/// Pushing one string extends the view list by its view.
proof fn lemma_strings_view_push(s: Seq<String>, x: String)
    ensures
        strings_view(s.push(x)) =~= strings_view(s).push(x@),
{
    assert forall|j: int| 0 <= j < s.len() + 1 implies strings_view(s.push(x))[j] == strings_view(
        s,
    ).push(x@)[j] by {
        if j < s.len() {
            assert(s.push(x)[j] == s[j]);
        } else {
            assert(s.push(x)[j] == x);
        }
    }
}

/// Whether this overlay value is of the kind.
fn overlay_is_kind(ov: &Overlay, t: OverlayType) -> (r: bool)
    ensures
        r == is_lang_kind(crate::overlay::overlay_model(*ov), t),
{
    match (ov, t) {
        (Overlay::Meta(_), OverlayType::Meta) => true,
        (Overlay::Label(_), OverlayType::Label) => true,
        (Overlay::Information(_), OverlayType::Information) => true,
        (Overlay::Entry(_), OverlayType::Entry) => true,
        _ => false,
    }
}

/// The language this overlay value carries, if any.
fn overlay_language<'a>(ov: &'a Overlay) -> (r: Option<&'a String>)
    ensures
        match r {
            Some(l) => lang_of_overlay(crate::overlay::overlay_model(*ov)) == Some(l@),
            None => lang_of_overlay(crate::overlay::overlay_model(*ov)) is None,
        },
{
    match ov {
        Overlay::Meta(v) => Some(&v.language),
        Overlay::Label(v) => Some(&v.language),
        Overlay::Information(v) => Some(&v.language),
        Overlay::Entry(v) => Some(&v.language),
        _ => None,
    }
}

/// Whether an overlay of this kind is present in the list.
fn kind_present_exec(ovs: &Vec<Overlay>, t: OverlayType) -> (r: bool)
    ensures
        r == kind_present(overlays_model(ovs@), t),
{
    let n = ovs.len();
    let mut i: usize = 0;
    while i < n
        invariant
            i <= n,
            n == ovs@.len(),
            forall|j: int| 0 <= j < i ==> !is_lang_kind(overlays_model(ovs@)[j], t),
        decreases n - i,
    {
        if overlay_is_kind(&ovs[i], t) {
            proof {
                assert(overlays_model(ovs@)[i as int] == crate::overlay::overlay_model(
                    ovs@[i as int],
                ));
            }
            return true;
        }
        proof {
            assert(overlays_model(ovs@)[i as int] == crate::overlay::overlay_model(ovs@[i as int]));
        }
        i += 1;
    }
    false
}

/// Whether an overlay of this kind carries this language.
fn lang_present_exec(ovs: &Vec<Overlay>, t: OverlayType, lang: &str) -> (r: bool)
    ensures
        r == lang_present(overlays_model(ovs@), t, lang@),
{
    let n = ovs.len();
    let mut i: usize = 0;
    while i < n
        invariant
            i <= n,
            n == ovs@.len(),
            forall|j: int|
                0 <= j < i ==> !(is_lang_kind(overlays_model(ovs@)[j], t) && lang_of_overlay(
                    overlays_model(ovs@)[j],
                ) == Some(lang@)),
        decreases n - i,
    {
        proof {
            assert(overlays_model(ovs@)[i as int] == crate::overlay::overlay_model(ovs@[i as int]));
        }
        if overlay_is_kind(&ovs[i], t) {
            match overlay_language(&ovs[i]) {
                Some(l) => {
                    if str_eq(l.as_str(), lang) {
                        return true;
                    }
                },
                None => {},
            }
        }
        i += 1;
    }
    false
}

/// The word for an overlay kind, for the serializer of messages.
fn type_word_str(t: OverlayType) -> (r: &'static str)
    ensures
        r@ == type_word(t),
{
    match t {
        OverlayType::Meta => "meta",
        OverlayType::Label => "label",
        OverlayType::Information => "information",
        OverlayType::CharacterEncoding => "character_encoding",
        OverlayType::Conformance => "conformance",
        OverlayType::Entry => "entry",
        OverlayType::FormLayout => "form_layout",
    }
}

/// Builds the message for one missing (kind, language) combination.
fn build_missing_msg(t: OverlayType, lang: &str) -> (r: String)
    ensures
        r@ == missing_msg(t, lang@),
{
    proof {
        reveal_strlit("missing ");
        reveal_strlit(" ");
        reveal_strlit(" overlay");
    }
    let mut out = String::new();
    out.append("missing ");
    out.append(lang);
    out.append(" ");
    out.append(type_word_str(t));
    out.append(" overlay");
    out
}

/// Appends the findings for one overlay kind: nothing when no overlay of
/// the kind exists, else one finding per required language that has no
/// instance.
#[verifier::loop_isolation(false)]
fn collect_missing(
    out: &mut Vec<ValidationError>,
    ovs: &Vec<Overlay>,
    t: OverlayType,
    langs: &Vec<String>,
)
    ensures
        errors_view(final(out)@) == errors_view(old(out)@) + (if kind_present(
            overlays_model(ovs@),
            t,
        ) {
            missing_for_type(overlays_model(ovs@), t, strings_view(langs@))
        } else {
            Seq::<Seq<char>>::empty()
        }),
{
    let ghost om = overlays_model(ovs@);
    let ghost ls = strings_view(langs@);
    if !kind_present_exec(ovs, t) {
        proof {
            assert(errors_view(out@) =~= errors_view(out@) + Seq::<Seq<char>>::empty());
        }
        return;
    }
    let n = langs.len();
    let mut i: usize = 0;
    proof {
        assert(ls.take(0) =~= Seq::<Seq<char>>::empty());
    }
    while i < n
        invariant
            i <= n,
            n == langs@.len(),
            errors_view(out@) == errors_view(old(out)@) + missing_for_type(om, t, ls.take(i as int)),
        decreases n - i,
    {
        let lang = &langs[i];
        proof {
            assert(ls.take(i + 1).drop_last() =~= ls.take(i as int));
            assert(ls.take(i + 1).last() == ls[i as int]);
            assert(ls[i as int] == langs@[i as int]@);
        }
        if !lang_present_exec(ovs, t, lang.as_str()) {
            let msg = build_missing_msg(t, lang.as_str());
            let ghost out0 = out@;
            let e = ValidationError::Custom(msg);
            let ghost em = e.spec_message();
            out.push(e);
            proof {
                lemma_errors_view_push(out0, out@[out@.len() - 1]);
                assert(out@[out@.len() - 1].spec_message() == em);
                assert(errors_view(out@) =~= errors_view(old(out)@) + missing_for_type(
                    om,
                    t,
                    ls.take(i + 1),
                ));
            }
        } else {
            proof {
                assert(errors_view(out@) =~= errors_view(old(out)@) + missing_for_type(
                    om,
                    t,
                    ls.take(i + 1),
                ));
            }
        }
        i += 1;
    }
    proof {
        assert(ls.take(n as int) =~= ls);
    }
}

/// The validator: which languages every language-bearing overlay kind
/// must cover.
pub struct Validator {
    pub enforced_translations: Vec<String>,
}

impl Validator {
    /// A validator with no rules configured.
    pub fn new() -> (r: Validator)
        ensures
            strings_view(r.enforced_translations@) == Seq::<Seq<char>>::empty(),
    {
        let r = Validator { enforced_translations: Vec::new() };
        proof {
            assert(strings_view(r.enforced_translations@) =~= Seq::<Seq<char>>::empty());
        }
        r
    }

    /// Requires these languages, after those already required.
    pub fn enforce_translations(self, languages: Vec<String>) -> (r: Validator)
        ensures
            strings_view(r.enforced_translations@) == strings_view(self.enforced_translations@)
                + strings_view(languages@),
    {
        let mut enforced = self.enforced_translations;
        let n = languages.len();
        let mut i: usize = 0;
        let ghost base = strings_view(enforced@);
        let ghost added = strings_view(languages@);
        proof {
            assert(strings_view(enforced@) =~= base + added.take(0));
        }
        while i < n
            invariant
                i <= n,
                n == languages@.len(),
                added == strings_view(languages@),
                strings_view(enforced@) == base + added.take(i as int),
            decreases n - i,
        {
            let l = &languages[i];
            let ghost e0 = enforced@;
            enforced.push(l.clone());
            proof {
                assert(added.take(i + 1).drop_last() =~= added.take(i as int));
                assert(added.take(i + 1).last() == added[i as int]);
                assert(added[i as int] == languages@[i as int]@);
                assert(enforced@ == e0.push(enforced@.last()));
                lemma_strings_view_push(e0, enforced@.last());
                assert(strings_view(enforced@) =~= base + added.take(i + 1));
            }
            i += 1;
        }
        proof {
            assert(added.take(n as int) =~= added);
        }
        Validator { enforced_translations: enforced }
    }

    /// Checks the bundle: success with nothing to report, or every
    /// finding of the translation rule, never only the first.
    pub fn validate(&self, bundle: &Bundle) -> (r: Result<(), Vec<ValidationError>>)
        ensures
            ({
                let miss = missing_all(
                    overlays_model(bundle.overlays@),
                    strings_view(self.enforced_translations@),
                );
                match r {
                    Ok(()) => miss.len() == 0,
                    Err(es) => miss.len() > 0 && errors_view(es@) == miss,
                }
            }),
    {
        let ghost om = overlays_model(bundle.overlays@);
        let ghost ls = strings_view(self.enforced_translations@);
        let mut out: Vec<ValidationError> = Vec::new();
        proof {
            assert(errors_view(out@) =~= Seq::<Seq<char>>::empty());
        }
        collect_missing(&mut out, &bundle.overlays, OverlayType::Meta, &self.enforced_translations);
        collect_missing(&mut out, &bundle.overlays, OverlayType::Label, &self.enforced_translations);
        collect_missing(
            &mut out,
            &bundle.overlays,
            OverlayType::Information,
            &self.enforced_translations,
        );
        collect_missing(&mut out, &bundle.overlays, OverlayType::Entry, &self.enforced_translations);
        proof {
            assert(errors_view(out@) =~= missing_all(om, ls));
        }
        if out.len() == 0 {
            proof {
                assert(missing_all(om, ls).len() == 0);
            }
            Ok(())
        } else {
            Err(out)
        }
    }
}

} // verus!
