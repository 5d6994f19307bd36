//! The form layout description: a passthrough configuration tree that a
//! form layout overlay carries. It references attributes by name and
//! holds no per-language content.

use vstd::prelude::*;
use vstd::string::StringExecFns;
use crate::text::{join_comma, quoted, write_quoted};

verus! {

/// Layout-level style configuration.
pub struct LayoutConfigCss {
    pub style: Option<String>,
}

/// Layout-level configuration.
pub struct LayoutConfig {
    pub css: Option<LayoutConfigCss>,
}

/// Per-element style configuration.
pub struct ElementConfigCss {
    pub style: Option<String>,
    pub classes: Option<Vec<String>>,
}

/// Per-element configuration.
pub struct ElementConfig {
    pub css: Option<ElementConfigCss>,
}

/// A named part of an element.
pub struct Part {
    pub name: String,
    pub config: Option<ElementConfig>,
}

/// One element of the layout.
pub struct Element {
    pub element_type: String,
    pub config: Option<ElementConfig>,
    pub id: Option<String>,
    pub name: Option<String>,
    pub parts: Option<Vec<Part>>,
}

/// A form layout: optional configuration and an ordered element list.
pub struct Layout {
    pub config: Option<LayoutConfig>,
    pub elements: Vec<Element>,
}

/// The view of an optional string: quoted, or the null word.
pub open spec fn opt_str_canon(o: Option<Seq<char>>) -> Seq<char> {
    match o {
        Some(s) => quoted(s),
        None => "null"@,
    }
}

/// The view of an optional string field.
pub open spec fn field_view(o: Option<String>) -> Option<Seq<char>> {
    match o {
        Some(s) => Some(s@),
        None => None,
    }
}

/// The view of a string list.
pub open spec fn strings_view(s: Seq<String>) -> Seq<Seq<char>> {
    Seq::new(s.len(), |i: int| s[i]@)
}

/// The canonical form of a class list.
pub open spec fn classes_canon(o: Option<Seq<Seq<char>>>) -> Seq<char> {
    match o {
        Some(cs) => seq!['['] + join_comma(Seq::new(cs.len(), |i: int| quoted(cs[i]))) + seq![']'],
        None => "null"@,
    }
}

/// The canonical form of a per-element style configuration.
pub open spec fn ec_css_canon(o: Option<(Option<Seq<char>>, Option<Seq<Seq<char>>>)>) -> Seq<char> {
    match o {
        Some(css) => "{\"classes\":"@ + classes_canon(css.1) + ",\"style\":"@ + opt_str_canon(css.0)
            + seq!['}'],
        None => "null"@,
    }
}

/// The model of a per-element configuration: its style and class list.
pub open spec fn ec_model(o: Option<ElementConfig>) -> Option<
    (Option<Seq<char>>, Option<Seq<Seq<char>>>),
> {
    match o {
        Some(c) => match c.css {
            Some(css) => Some(
                (
                    field_view(css.style),
                    match css.classes {
                        Some(cl) => Some(strings_view(cl@)),
                        None => None,
                    },
                ),
            ),
            None => None,
        },
        None => None,
    }
}

/// The canonical form of a per-element configuration.
pub open spec fn ec_canon(o: Option<(Option<Seq<char>>, Option<Seq<Seq<char>>>)>) -> Seq<char> {
    match o {
        Some(css) => "{\"css\":"@ + ec_css_canon(Some(css)) + seq!['}'],
        None => "null"@,
    }
}

/// The model of one part: its name and configuration.
#[verifier::ext_equal]
pub struct PartModel {
    pub name: Seq<char>,
    pub config: Option<(Option<Seq<char>>, Option<Seq<Seq<char>>>)>,
}

/// The model of one element.
#[verifier::ext_equal]
pub struct ElementModel {
    pub element_type: Seq<char>,
    pub config: Option<(Option<Seq<char>>, Option<Seq<Seq<char>>>)>,
    pub id: Option<Seq<char>>,
    pub name: Option<Seq<char>>,
    pub parts: Option<Seq<PartModel>>,
}

/// The model of a layout.
#[verifier::ext_equal]
pub struct LayoutModel {
    pub style: Option<Option<Seq<char>>>,
    pub elements: Seq<ElementModel>,
}

/// The model of one part value.
pub open spec fn part_model(p: Part) -> PartModel {
    PartModel { name: p.name@, config: ec_model(p.config) }
}

/// The model of one element value.
pub open spec fn element_model(e: Element) -> ElementModel {
    ElementModel {
        element_type: e.element_type@,
        config: ec_model(e.config),
        id: field_view(e.id),
        name: field_view(e.name),
        parts: match e.parts {
            Some(ps) => Some(Seq::new(ps@.len(), |i: int| part_model(ps@[i]))),
            None => None,
        },
    }
}

/// The model of a layout value.
pub open spec fn layout_model(l: Layout) -> LayoutModel {
    LayoutModel {
        style: match l.config {
            Some(c) => Some(
                match c.css {
                    Some(css) => field_view(css.style),
                    None => None,
                },
            ),
            None => None,
        },
        elements: Seq::new(l.elements@.len(), |i: int| element_model(l.elements@[i])),
    }
}

/// The canonical form of one part.
pub open spec fn part_canon(p: PartModel) -> Seq<char> {
    "{\"config\":"@ + ec_canon(p.config) + ",\"name\":"@ + quoted(p.name) + seq!['}']
}

/// The canonical form of a part list.
pub open spec fn parts_canon(o: Option<Seq<PartModel>>) -> Seq<char> {
    match o {
        Some(ps) => seq!['['] + join_comma(Seq::new(ps.len(), |i: int| part_canon(ps[i]))) + seq![']'],
        None => "null"@,
    }
}

/// The canonical form of one element.
pub open spec fn element_canon(e: ElementModel) -> Seq<char> {
    "{\"config\":"@ + ec_canon(e.config) + ",\"id\":"@ + opt_str_canon(e.id) + ",\"name\":"@
        + opt_str_canon(e.name) + ",\"parts\":"@ + parts_canon(e.parts) + ",\"type\":"@ + quoted(
        e.element_type,
    ) + seq!['}']
}

/// The canonical form of the layout-level configuration.
pub open spec fn layout_config_canon(o: Option<Option<Seq<char>>>) -> Seq<char> {
    match o {
        Some(style) => "{\"css\":{\"style\":"@ + opt_str_canon(style) + "}}"@,
        None => "null"@,
    }
}

/// The canonical form of a layout.
pub open spec fn layout_canon(m: LayoutModel) -> Seq<char> {
    "{\"config\":"@ + layout_config_canon(m.style) + ",\"elements\":["@ + join_comma(
        Seq::new(m.elements.len(), |i: int| element_canon(m.elements[i])),
    ) + "]}"@
}

/// Appends a quoted string or the null word.
pub fn write_opt_str(out: &mut String, o: &Option<String>)
    ensures
        final(out)@ == old(out)@ + opt_str_canon(field_view(*o)),
{
    proof {
        reveal_strlit("null");
    }
    match o {
        Some(s) => write_quoted(out, s.as_str()),
        None => out.append("null"),
    }
}

/// Appends the canonical form of a per-element configuration.
pub fn write_ec(out: &mut String, o: &Option<ElementConfig>)
    ensures
        final(out)@ == old(out)@ + ec_canon(ec_model(*o)),
{
    proof {
        reveal_strlit("null");
        reveal_strlit("{\"css\":");
        reveal_strlit("{\"classes\":");
        reveal_strlit(",\"style\":");
        reveal_strlit("}");
        reveal_strlit("]");
        reveal_strlit("[");
        reveal_strlit(",");
    }
    let css = match o {
        Some(c) => match &c.css {
            Some(css) => Some(css),
            None => None,
        },
        None => None,
    };
    match css {
        None => {
            out.append("null");
        },
        Some(css) => {
            out.append("{\"css\":");
            out.append("{\"classes\":");
            match &css.classes {
                None => {
                    out.append("null");
                },
                Some(cl) => {
                    let ghost items = Seq::new(strings_view(cl@).len(), |i: int| quoted(strings_view(cl@)[i]));
                    out.append("[");
                    let n = cl.len();
                    let mut i: usize = 0;
                    while i < n
                        invariant
                            i <= n,
                            n == cl@.len(),
                            items == Seq::new(strings_view(cl@).len(), |k: int| quoted(strings_view(cl@)[k])),
                            items.len() == n,
                            out@ == old(out)@ + "{\"css\":"@ + "{\"classes\":"@ + seq!['['] + join_comma(items.take(i as int)),
                        decreases n - i,
                    {
                        if i > 0 {
                            proof {
                                reveal_strlit(",");
                            }
                            out.append(",");
                        }
                        write_quoted(out, cl[i].as_str());
                        proof {
                            assert(items[i as int] == quoted(cl@[i as int]@));
                            crate::text::lemma_join_comma_step(items, i as int);
                        }
                        i += 1;
                    }
                    proof {
                        assert(items.take(n as int) =~= items);
                    }
                    out.append("]");
                },
            }
            out.append(",\"style\":");
            write_opt_str(out, &css.style);
            out.append("}");
            out.append("}");
            proof {
                assert(out@ =~= old(out)@ + ec_canon(ec_model(*o)));
            }
        },
    }
}

/// Appends the canonical form of one part.
pub fn write_part(out: &mut String, p: &Part)
    ensures
        final(out)@ == old(out)@ + part_canon(part_model(*p)),
{
    proof {
        reveal_strlit("{\"config\":");
        reveal_strlit(",\"name\":");
        reveal_strlit("}");
    }
    out.append("{\"config\":");
    write_ec(out, &p.config);
    out.append(",\"name\":");
    write_quoted(out, p.name.as_str());
    out.append("}");
}

/// Appends the canonical form of one element.
#[verifier::rlimit(60)]
pub fn write_element(out: &mut String, e: &Element)
    ensures
        final(out)@ == old(out)@ + element_canon(element_model(*e)),
{
    proof {
        reveal_strlit("{\"config\":");
        reveal_strlit(",\"id\":");
        reveal_strlit(",\"name\":");
        reveal_strlit(",\"parts\":");
        reveal_strlit(",\"type\":");
        reveal_strlit("}");
        reveal_strlit("null");
        reveal_strlit("[");
        reveal_strlit("]");
    }
    out.append("{\"config\":");
    write_ec(out, &e.config);
    out.append(",\"id\":");
    write_opt_str(out, &e.id);
    out.append(",\"name\":");
    write_opt_str(out, &e.name);
    out.append(",\"parts\":");
    match &e.parts {
        None => {
            out.append("null");
        },
        Some(ps) => {
            let ghost pm = Seq::new(ps@.len(), |i: int| part_model(ps@[i]));
            let ghost items = Seq::new(pm.len(), |i: int| part_canon(pm[i]));
            let ghost head = out@;
            out.append("[");
            let n = ps.len();
            let mut i: usize = 0;
            while i < n
                invariant
                    i <= n,
                    n == ps@.len(),
                    pm == Seq::new(ps@.len(), |k: int| part_model(ps@[k])),
                    items == Seq::new(pm.len(), |k: int| part_canon(pm[k])),
                    items.len() == n,
                    out@ == head + seq!['['] + join_comma(items.take(i as int)),
                decreases n - i,
            {
                if i > 0 {
                    proof {
                        reveal_strlit(",");
                    }
                    out.append(",");
                }
                write_part(out, &ps[i]);
                proof {
                    assert(items[i as int] == part_canon(pm[i as int]));
                    crate::text::lemma_join_comma_step(items, i as int);
                }
                i += 1;
            }
            proof {
                assert(items.take(n as int) =~= items);
            }
            out.append("]");
            proof {
                assert(out@ =~= head + parts_canon(element_model(*e).parts));
            }
        },
    }
    out.append(",\"type\":");
    write_quoted(out, e.element_type.as_str());
    out.append("}");
    proof {
        assert(out@ =~= old(out)@ + element_canon(element_model(*e)));
    }
}

/// Appends the canonical form of a layout.
pub fn write_layout(out: &mut String, l: &Layout)
    ensures
        final(out)@ == old(out)@ + layout_canon(layout_model(*l)),
{
    proof {
        reveal_strlit("{\"config\":");
        reveal_strlit(",\"elements\":[");
        reveal_strlit("]}");
        reveal_strlit("null");
        reveal_strlit("{\"css\":{\"style\":");
        reveal_strlit("}}");
    }
    out.append("{\"config\":");
    match &l.config {
        None => {
            out.append("null");
        },
        Some(c) => {
            out.append("{\"css\":{\"style\":");
            match &c.css {
                Some(css) => write_opt_str(out, &css.style),
                None => {
                    proof {
                        reveal_strlit("null");
                    }
                    out.append("null");
                },
            }
            out.append("}}");
        },
    }
    out.append(",\"elements\":[");
    let ghost em = Seq::new(l.elements@.len(), |i: int| element_model(l.elements@[i]));
    let ghost items = Seq::new(em.len(), |i: int| element_canon(em[i]));
    let ghost head = out@;
    let n = l.elements.len();
    let mut i: usize = 0;
    while i < n
        invariant
            i <= n,
            n == l.elements@.len(),
            em == Seq::new(l.elements@.len(), |k: int| element_model(l.elements@[k])),
            items == Seq::new(em.len(), |k: int| element_canon(em[k])),
            items.len() == n,
            out@ == head + join_comma(items.take(i as int)),
        decreases n - i,
    {
        if i > 0 {
            proof {
                reveal_strlit(",");
            }
            out.append(",");
        }
        write_element(out, &l.elements[i]);
        proof {
            assert(items[i as int] == element_canon(em[i as int]));
            crate::text::lemma_join_comma_step(items, i as int);
        }
        i += 1;
    }
    proof {
        assert(items.take(n as int) =~= items);
    }
    out.append("]}");
    proof {
        assert(out@ =~= old(out)@ + layout_canon(layout_model(*l)));
    }
}

} // verus!
