//! One named field of a capture base: its type tag, flags, per-language
//! translations, encoding, format, unit and conformance marker.
//! Attributes are replaced wholesale, never mutated in place, as commands
//! are applied.

use vstd::prelude::*;
use vstd::string::StrSliceExecFns;
use crate::maps::{assoc_get, assoc_put, pairs_view, alist_put};
use crate::text::str_eq;

verus! {

/// The type tag of an attribute.
#[derive(Clone, Copy, Debug, PartialEq, Eq, Structural)]
pub enum AttributeType {
    Text,
    Numeric,
    Boolean,
    DateTime,
    Array,
    Reference,
}

/// The canonical spelling of a type tag.
pub open spec fn type_tag(t: AttributeType) -> Seq<char> {
    match t {
        AttributeType::Text => "Text"@,
        AttributeType::Numeric => "Numeric"@,
        AttributeType::Boolean => "Boolean"@,
        AttributeType::DateTime => "DateTime"@,
        AttributeType::Array => "Array"@,
        AttributeType::Reference => "Reference"@,
    }
}

/// Which type tag a scalar spells, if any.
pub open spec fn spec_parse_type(s: Seq<char>) -> Option<AttributeType> {
    if s == "Text"@ {
        Some(AttributeType::Text)
    } else if s == "Numeric"@ {
        Some(AttributeType::Numeric)
    } else if s == "Boolean"@ {
        Some(AttributeType::Boolean)
    } else if s == "DateTime"@ {
        Some(AttributeType::DateTime)
    } else if s == "Array"@ {
        Some(AttributeType::Array)
    } else if s == "Reference"@ {
        Some(AttributeType::Reference)
    } else {
        None
    }
}

/// Parses a type tag.
pub fn parse_attribute_type(s: &str) -> (r: Option<AttributeType>)
    ensures
        r == spec_parse_type(s@),
{
    if str_eq(s, "Text") {
        Some(AttributeType::Text)
    } else if str_eq(s, "Numeric") {
        Some(AttributeType::Numeric)
    } else if str_eq(s, "Boolean") {
        Some(AttributeType::Boolean)
    } else if str_eq(s, "DateTime") {
        Some(AttributeType::DateTime)
    } else if str_eq(s, "Array") {
        Some(AttributeType::Array)
    } else if str_eq(s, "Reference") {
        Some(AttributeType::Reference)
    } else {
        None
    }
}

/// The canonical spelling of a type tag, for the serializer.
pub fn type_tag_str(t: AttributeType) -> (r: &'static str)
    ensures
        r@ == type_tag(t),
{
    match t {
        AttributeType::Text => "Text",
        AttributeType::Numeric => "Numeric",
        AttributeType::Boolean => "Boolean",
        AttributeType::DateTime => "DateTime",
        AttributeType::Array => "Array",
        AttributeType::Reference => "Reference",
    }
}

/// A character-encoding code.
#[derive(Clone, Copy, Debug, PartialEq, Eq, Structural)]
pub enum Encoding {
    Utf8,
    Iso8859_1,
    Base64,
}

/// The canonical spelling of an encoding code.
pub open spec fn encoding_tag(e: Encoding) -> Seq<char> {
    match e {
        Encoding::Utf8 => "utf-8"@,
        Encoding::Iso8859_1 => "iso-8859-1"@,
        Encoding::Base64 => "base64"@,
    }
}

/// Which encoding a scalar spells, if any.
pub open spec fn spec_parse_encoding(s: Seq<char>) -> Option<Encoding> {
    if s == "utf-8"@ {
        Some(Encoding::Utf8)
    } else if s == "iso-8859-1"@ {
        Some(Encoding::Iso8859_1)
    } else if s == "base64"@ {
        Some(Encoding::Base64)
    } else {
        None
    }
}

/// Parses an encoding code.
pub fn parse_encoding(s: &str) -> (r: Option<Encoding>)
    ensures
        r == spec_parse_encoding(s@),
{
    if str_eq(s, "utf-8") {
        Some(Encoding::Utf8)
    } else if str_eq(s, "iso-8859-1") {
        Some(Encoding::Iso8859_1)
    } else if str_eq(s, "base64") {
        Some(Encoding::Base64)
    } else {
        None
    }
}

/// The canonical spelling of an encoding code, for the serializer.
pub fn encoding_tag_str(e: Encoding) -> (r: &'static str)
    ensures
        r@ == encoding_tag(e),
{
    match e {
        Encoding::Utf8 => "utf-8",
        Encoding::Iso8859_1 => "iso-8859-1",
        Encoding::Base64 => "base64",
    }
}

/// A conformance marker.
#[derive(Clone, Copy, Debug, PartialEq, Eq, Structural)]
pub enum Conformance {
    Mandatory,
    Optional,
}

/// The canonical spelling of a conformance marker.
pub open spec fn conformance_tag(c: Conformance) -> Seq<char> {
    match c {
        Conformance::Mandatory => "M"@,
        Conformance::Optional => "O"@,
    }
}

/// Which conformance marker a scalar spells, if any.
pub open spec fn spec_parse_conformance(s: Seq<char>) -> Option<Conformance> {
    if s == "M"@ {
        Some(Conformance::Mandatory)
    } else if s == "O"@ {
        Some(Conformance::Optional)
    } else {
        None
    }
}

/// Parses a conformance marker.
pub fn parse_conformance(s: &str) -> (r: Option<Conformance>)
    ensures
        r == spec_parse_conformance(s@),
{
    if str_eq(s, "M") {
        Some(Conformance::Mandatory)
    } else if str_eq(s, "O") {
        Some(Conformance::Optional)
    } else {
        None
    }
}

/// The canonical spelling of a conformance marker, for the serializer.
pub fn conformance_tag_str(c: Conformance) -> (r: &'static str)
    ensures
        r@ == conformance_tag(c),
{
    match c {
        Conformance::Mandatory => "M",
        Conformance::Optional => "O",
    }
}

/// A usable language tag: two lower-case ASCII letters.
pub open spec fn valid_lang(s: Seq<char>) -> bool {
    s.len() == 2 && lower_ascii(s[0]) && lower_ascii(s[1])
}

/// A lower-case ASCII letter.
pub open spec fn lower_ascii(c: char) -> bool {
    97 <= (c as u32) <= 122
}

/// Decides whether a string is a usable language tag.
pub fn check_lang(s: &str) -> (r: bool)
    ensures
        r == valid_lang(s@),
{
    if s.unicode_len() != 2 {
        return false;
    }
    let c0 = s.get_char(0) as u32;
    let c1 = s.get_char(1) as u32;
    97 <= c0 && c0 <= 122 && 97 <= c1 && c1 <= 122
}

/// One enumerated value: its identifier and its human-readable label per
/// language.
pub struct Entry {
    pub id: String,
    pub translations: Vec<(String, String)>,
}

/// The mathematical content of an entry.
#[verifier::ext_equal]
pub struct EntryModel {
    pub id: Seq<char>,
    pub translations: Seq<(Seq<char>, Seq<char>)>,
}

/// The model of one entry.
pub open spec fn entry_model(e: Entry) -> EntryModel {
    EntryModel { id: e.id@, translations: pairs_view(e.translations@) }
}

/// The model of an entry list.
pub open spec fn entries_model(s: Seq<Entry>) -> Seq<EntryModel> {
    Seq::new(s.len(), |i: int| entry_model(s[i]))
}

impl Entry {
    /// A fresh entry.
    pub fn new(id: String, translations: Vec<(String, String)>) -> (r: Entry)
        ensures
            entry_model(r) == (EntryModel { id: id@, translations: pairs_view(translations@) }),
    {
        Entry { id, translations }
    }
}

/// The per-language entry pairs of an entry list: for every entry that
/// carries a label in the language, its identifier and that label, in
/// entry order.
pub open spec fn entries_for_lang(entries: Seq<EntryModel>, lang: Seq<char>) -> Seq<
    (Seq<char>, Seq<char>),
>
    decreases entries.len(),
{
    if entries.len() == 0 {
        Seq::empty()
    } else {
        let rest = entries_for_lang(entries.drop_last(), lang);
        match assoc_get(entries.last().translations, lang) {
            Some(label) => rest.push((entries.last().id, label)),
            None => rest,
        }
    }
}

/// One named field of a capture base.
pub struct Attribute {
    pub name: String,
    pub attribute_type: AttributeType,
    pub is_pii: bool,
    pub encoding: Option<Encoding>,
    pub format: Option<String>,
    pub unit: Option<String>,
    pub conformance: Option<Conformance>,
    pub labels: Vec<(String, String)>,
    pub informations: Vec<(String, String)>,
    pub entries: Vec<Entry>,
}

/// The mathematical content of an attribute.
#[verifier::ext_equal]
pub struct AttrModel {
    pub name: Seq<char>,
    pub attribute_type: AttributeType,
    pub is_pii: bool,
    pub encoding: Option<Encoding>,
    pub format: Option<Seq<char>>,
    pub unit: Option<Seq<char>>,
    pub conformance: Option<Conformance>,
    pub labels: Seq<(Seq<char>, Seq<char>)>,
    pub informations: Seq<(Seq<char>, Seq<char>)>,
    pub entries: Seq<EntryModel>,
}

/// The view of an optional string.
pub open spec fn opt_view(o: Option<String>) -> Option<Seq<char>> {
    match o {
        Some(s) => Some(s@),
        None => None,
    }
}

/// The model of an attribute.
pub open spec fn attr_model(a: Attribute) -> AttrModel {
    AttrModel {
        name: a.name@,
        attribute_type: a.attribute_type,
        is_pii: a.is_pii,
        encoding: a.encoding,
        format: opt_view(a.format),
        unit: opt_view(a.unit),
        conformance: a.conformance,
        labels: pairs_view(a.labels@),
        informations: pairs_view(a.informations@),
        entries: entries_model(a.entries@),
    }
}

impl Attribute {
    /// A fresh attribute with the given name and type and nothing else.
    pub fn new(name: String, attribute_type: AttributeType) -> (r: Attribute)
        ensures
            attr_model(r) == (AttrModel {
                name: name@,
                attribute_type,
                is_pii: false,
                encoding: None,
                format: None,
                unit: None,
                conformance: None,
                labels: Seq::empty(),
                informations: Seq::empty(),
                entries: Seq::empty(),
            }),
    {
        let r = Attribute {
            name,
            attribute_type,
            is_pii: false,
            encoding: None,
            format: None,
            unit: None,
            conformance: None,
            labels: Vec::new(),
            informations: Vec::new(),
            entries: Vec::new(),
        };
        proof {
            assert(attr_model(r).labels =~= Seq::<(Seq<char>, Seq<char>)>::empty());
            assert(attr_model(r).informations =~= Seq::<(Seq<char>, Seq<char>)>::empty());
            assert(attr_model(r).entries =~= Seq::<EntryModel>::empty());
        }
        r
    }

    /// Marks the attribute as personally identifiable information.
    pub fn set_pii(&mut self)
        ensures
            attr_model(*final(self)) == (AttrModel { is_pii: true, ..attr_model(*old(self)) }),
    {
        self.is_pii = true;
    }

    /// Sets the character encoding.
    pub fn set_encoding(&mut self, encoding: Encoding)
        ensures
            attr_model(*final(self)) == (AttrModel {
                encoding: Some(encoding),
                ..attr_model(*old(self))
            }),
    {
        self.encoding = Some(encoding);
    }

    /// Sets the format hint.
    pub fn set_format(&mut self, format: String)
        ensures
            attr_model(*final(self)) == (AttrModel {
                format: Some(format@),
                ..attr_model(*old(self))
            }),
    {
        self.format = Some(format);
    }

    /// Sets the unit.
    pub fn set_unit(&mut self, unit: String)
        ensures
            attr_model(*final(self)) == (AttrModel { unit: Some(unit@), ..attr_model(*old(self)) }),
    {
        self.unit = Some(unit);
    }

    /// Sets the conformance marker.
    pub fn set_conformance(&mut self, conformance: Conformance)
        ensures
            attr_model(*final(self)) == (AttrModel {
                conformance: Some(conformance),
                ..attr_model(*old(self))
            }),
    {
        self.conformance = Some(conformance);
    }

    /// Sets the label for one language, replacing an earlier one.
    pub fn set_label(&mut self, lang: &String, label: &String)
        ensures
            attr_model(*final(self)) == (AttrModel {
                labels: assoc_put(attr_model(*old(self)).labels, lang@, label@),
                ..attr_model(*old(self))
            }),
    {
        alist_put(&mut self.labels, lang, label);
    }

    /// Sets the information text for one language, replacing an earlier
    /// one.
    pub fn set_information(&mut self, lang: &String, information: &String)
        ensures
            attr_model(*final(self)) == (AttrModel {
                informations: assoc_put(attr_model(*old(self)).informations, lang@, information@),
                ..attr_model(*old(self))
            }),
    {
        alist_put(&mut self.informations, lang, information);
    }

    /// Replaces the entry list wholesale.
    pub fn set_entries(&mut self, entries: Vec<Entry>)
        ensures
            attr_model(*final(self)) == (AttrModel {
                entries: entries_model(entries@),
                ..attr_model(*old(self))
            }),
    {
        self.entries = entries;
    }
}

} // verus!
