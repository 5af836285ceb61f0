//! The grammar of CSL documents over the XML event stream.
//!
//! For each element reader, a relation between the events `E`, the
//! position `p` it reads from, what it has gathered so far and its
//! outcome: what it built and the position after the element, or the
//! error it stopped with. A position at or past the end of the stream
//! reads as the end of the document; the end of the document closes
//! every open element and is not consumed, so each enclosing reader
//! meets it in turn.

use vstd::prelude::*;

use crate::citation::ast::{
    Bibliography, ChooseBranch, ChooseElement, Citation, DateElement, DatePart, Element, EtAlElement, LabelElement,
    Layout, Locale, Macro, NameElement, NamePart, SortKey, Style, StyleClass, StyleOptions, Term,
    TermBody,
};
use crate::citation::parser::{spec_term_form, spec_term_gender_from, ParseError};
use crate::citation::reader::{
    attr_or_empty, conditions_from_tag, date_attrs_from_tag, date_part_from_tag, display_of,
    et_al_from_tag, formatting_of, label_from_tag, lift, name_attrs_from_tag, name_part_from_tag,
    names_attrs_from_tag, number_from_tag, sort_key_from_tag, style_options_of, text_from_tag,
};
use crate::citation::xml::{attr_of, bool_attr_of, opt_view, u32_attr_of, xml_lang_of, EvV, TagV};
use crate::text::{seq_lt, spec_trim};

verus! {

// ─────────────────────────────────────────────────────────────────
// Errors
// ─────────────────────────────────────────────────────────────────

/// A parse error as plain values.
pub enum ErrV {
    Xml(Seq<char>),
    MissingRoot(Seq<char>),
    MissingAttr(Seq<char>, Seq<char>),
    UnexpectedElement(Seq<char>),
}

/// The plain form of a parse error.
pub open spec fn err_view(e: ParseError) -> ErrV {
    match e {
        ParseError::Xml(m) => ErrV::Xml(m@),
        ParseError::MissingRoot(n) => ErrV::MissingRoot(n@),
        ParseError::MissingAttr { element, attr } => ErrV::MissingAttr(element@, attr@),
        ParseError::UnexpectedElement(n) => ErrV::UnexpectedElement(n@),
    }
}

/// The outcome of a reader that gathers a list, as plain values.
pub open spec fn seq_out<T>(r: Result<(Vec<T>, usize), ParseError>) -> Result<(Seq<T>, int), ErrV> {
    match r {
        Ok((v, q)) => Ok((v@, q as int)),
        Err(e) => Err(err_view(e)),
    }
}

/// The outcome of skipping, as plain values.
pub open spec fn pos_out(r: Result<usize, ParseError>) -> Result<int, ErrV> {
    match r {
        Ok(q) => Ok(q as int),
        Err(e) => Err(err_view(e)),
    }
}

/// The outcome of the `<choose>` reader, as plain values.
pub open spec fn choose_out(r: Result<(ChooseElement, usize), ParseError>) -> Result<(Seq<ChooseBranch>, Seq<Element>, int), ErrV> {
    match r {
        Ok((c, q)) => Ok((c.branches@, c.else_body@, q as int)),
        Err(e) => Err(err_view(e)),
    }
}

/// The outcome of the `<names>` children reader, as plain values.
pub open spec fn names_out(
    r: Result<(Option<NameElement>, Option<EtAlElement>, Option<LabelElement>, Vec<Element>, usize), ParseError>,
) -> Result<(NamesKids, int), ErrV> {
    match r {
        Ok((n, a, l, s, q)) => Ok(((n, a, l, s@), q as int)),
        Err(e) => Err(err_view(e)),
    }
}

// ─────────────────────────────────────────────────────────────────
// Skipping and text
// ─────────────────────────────────────────────────────────────────

/// Where skipping to the end tag of `name` stops, `depth` such tags
/// being open: just after that end tag, at the end of the document, or
/// at a read error.
pub open spec fn skip_end(E: Seq<EvV>, p: int, name: Seq<char>, depth: nat) -> Result<int, ErrV>
    decreases E.len() - p,
{
    if 0 <= p < E.len() {
        match E[p] {
            EvV::Failed(m) => Err(ErrV::Xml(m)),
            EvV::Eof => Ok(p),
            EvV::Start(t) => if t.name == name {
                skip_end(E, p + 1, name, depth + 1)
            } else {
                skip_end(E, p + 1, name, depth)
            },
            EvV::End(n) => if n == name {
                if depth <= 1 {
                    Ok(p + 1)
                } else {
                    skip_end(E, p + 1, name, (depth - 1) as nat)
                }
            } else {
                skip_end(E, p + 1, name, depth)
            },
            _ => skip_end(E, p + 1, name, depth),
        }
    } else {
        Ok(p)
    }
}

/// The text inside `parent`, appended to `acc`, and where it ends.
pub open spec fn read_text(E: Seq<EvV>, p: int, parent: Seq<char>, acc: Seq<char>) -> Result<(Seq<char>, int), ErrV>
    decreases E.len() - p,
{
    if 0 <= p < E.len() {
        match E[p] {
            EvV::Failed(m) => Err(ErrV::Xml(m)),
            EvV::Eof => Ok((acc, p)),
            EvV::Text(Ok(s)) => read_text(E, p + 1, parent, acc + s),
            EvV::Text(Err(m)) => Err(ErrV::Xml(m)),
            EvV::End(n) => if n == parent {
                Ok((acc, p + 1))
            } else {
                read_text(E, p + 1, parent, acc)
            },
            _ => read_text(E, p + 1, parent, acc),
        }
    } else {
        Ok((acc, p))
    }
}

// ─────────────────────────────────────────────────────────────────
// Lists of leaf children (name parts, date parts, sort keys)
// ─────────────────────────────────────────────────────────────────

/// `acc` with `x` appended when present.
pub open spec fn push_opt<T>(acc: Seq<T>, x: Option<T>) -> Seq<T> {
    match x {
        Some(v) => acc.push(v),
        None => acc,
    }
}

/// The children named `child` of an element named `parent`, each read
/// by `item` (a child it yields nothing for is left out), appended to
/// `acc`; other children are skipped whole.
pub open spec fn items_rel<T>(
    E: Seq<EvV>,
    p: int,
    child: Seq<char>,
    parent: Seq<char>,
    item: spec_fn(Option<T>, TagV) -> bool,
    acc: Seq<T>,
    r: Result<(Seq<T>, int), ErrV>,
) -> bool
    decreases E.len() - p,
{
    if 0 <= p < E.len() {
        match E[p] {
            EvV::Failed(m) => r == Err::<(Seq<T>, int), ErrV>(ErrV::Xml(m)),
            EvV::Eof => r == Ok::<(Seq<T>, int), ErrV>((acc, p)),
            EvV::End(n) => if n == parent {
                r == Ok::<(Seq<T>, int), ErrV>((acc, p + 1))
            } else {
                items_rel(E, p + 1, child, parent, item, acc, r)
            },
            EvV::Empty(t) => if t.name == child {
                exists|x: Option<T>| #[trigger] item(x, t) && items_rel(E, p + 1, child, parent, item, push_opt(acc, x), r)
            } else {
                items_rel(E, p + 1, child, parent, item, acc, r)
            },
            EvV::Start(t) => if t.name == child {
                exists|x: Option<T>| #[trigger]
                    item(x, t) && match skip_end(E, p + 1, child, 1) {
                        Ok(q) => p < q <= E.len() && items_rel(E, q, child, parent, item, push_opt(acc, x), r),
                        Err(e) => r == Err::<(Seq<T>, int), ErrV>(e),
                    }
            } else {
                match skip_end(E, p + 1, t.name, 1) {
                    Ok(q) => p < q <= E.len() && items_rel(E, q, child, parent, item, acc, r),
                    Err(e) => r == Err::<(Seq<T>, int), ErrV>(e),
                }
            },
            _ => items_rel(E, p + 1, child, parent, item, acc, r),
        }
    } else {
        r == Ok::<(Seq<T>, int), ErrV>((acc, p))
    }
}

/// The `<name-part>`s of a `<name>`.
pub open spec fn name_parts_rel(E: Seq<EvV>, p: int, r: Result<(Seq<NamePart>, int), ErrV>) -> bool {
    items_rel(E, p, "name-part"@, "name"@, |x: Option<NamePart>, t: TagV| name_part_from_tag(x, t), Seq::empty(), r)
}

/// The `<date-part>`s of a `<date>`.
pub open spec fn date_parts_rel(E: Seq<EvV>, p: int, r: Result<(Seq<DatePart>, int), ErrV>) -> bool {
    items_rel(E, p, "date-part"@, "date"@, |x: Option<DatePart>, t: TagV| date_part_from_tag(x, t), Seq::empty(), r)
}

/// The `<key>`s of a `<sort>`.
pub open spec fn sort_keys_rel(E: Seq<EvV>, p: int, r: Result<(Seq<SortKey>, int), ErrV>) -> bool {
    items_rel(E, p, "key"@, "sort"@, |x: Option<SortKey>, t: TagV| sort_key_from_tag(x, t), Seq::empty(), r)
}

// ─────────────────────────────────────────────────────────────────
// Layout bodies: <layout>, <group>, <macro>, <substitute>, branches
// ─────────────────────────────────────────────────────────────────

/// A leaf element that stands in the body as `t` (text, number, label,
/// or names / date with no children).
pub open spec fn leaf_element(x: Element, t: TagV) -> bool {
    if t.name == "text"@ {
        x matches Element::Text(e) && text_from_tag(e, t)
    } else if t.name == "number"@ {
        x matches Element::Number(e) && number_from_tag(e, t)
    } else if t.name == "label"@ {
        x matches Element::Label(e) && label_from_tag(e, t)
    } else if t.name == "names"@ {
        x matches Element::Names(e) && names_attrs_from_tag(*e, t) && e.name is None && e.et_al is None
            && e.label is None && e.substitute@.len() == 0
    } else if t.name == "date"@ {
        x matches Element::Date(e) && date_attrs_from_tag(*e, t) && e.date_parts@.len() == 0
    } else {
        false
    }
}

/// `t` names an element that the body reads from an empty tag.
pub open spec fn is_leaf_name(n: Seq<char>) -> bool {
    n == "text"@ || n == "number"@ || n == "label"@ || n == "names"@ || n == "date"@
}

/// A `<group>` with the attributes of `t` and body `b`.
pub open spec fn group_made(x: Element, t: TagV, b: Seq<Element>) -> bool {
    x matches Element::Group(g) && {
        &&& opt_view(g.delimiter) == attr_of(t, "delimiter"@)
        &&& opt_view(g.prefix) == attr_of(t, "prefix"@)
        &&& opt_view(g.suffix) == attr_of(t, "suffix"@)
        &&& g.formatting == formatting_of(t)
        &&& g.display == display_of(t)
        &&& g.body@ == b
    }
}

/// A `<choose>` with these branches and `else` body.
pub open spec fn choose_made(x: Element, bs: Seq<ChooseBranch>, eb: Seq<Element>) -> bool {
    x matches Element::Choose(c) && c.branches@ == bs && c.else_body@ == eb
}

/// What a `<names>` gathers from its children: its `<name>`,
/// `<et-al>`, `<label>` (the last of each) and `<substitute>` body.
pub type NamesKids = (Option<NameElement>, Option<EtAlElement>, Option<LabelElement>, Seq<Element>);

/// A `<names>` with the attributes of `t` and the children `k`.
pub open spec fn names_made(x: Element, t: TagV, k: NamesKids) -> bool {
    x matches Element::Names(e) && names_attrs_from_tag(*e, t) && e.name == k.0 && e.et_al == k.1
        && e.label == k.2 && e.substitute@ == k.3
}

/// A `<date>` with the attributes of `t` and date parts `ps`.
pub open spec fn date_made(x: Element, t: TagV, ps: Seq<DatePart>) -> bool {
    x matches Element::Date(e) && date_attrs_from_tag(*e, t) && e.date_parts@ == ps
}

/// A `<name>` with the attributes of `t` and name parts `ps`.
pub open spec fn name_made(n: NameElement, t: TagV, ps: Seq<NamePart>) -> bool {
    name_attrs_from_tag(n, t) && n.name_parts@ == ps
}

/// An `<if>` / `<else-if>` branch with the conditions of `t` and body `b`.
pub open spec fn branch_made(br: ChooseBranch, t: TagV, b: Seq<Element>) -> bool {
    conditions_from_tag(br.conditions, t) && br.body@ == b
}

/// The elements of a body ending at the end tag of `parent`, appended
/// to `acc`. Unknown elements are skipped whole.
pub open spec fn body_rel(E: Seq<EvV>, p: int, parent: Seq<char>, acc: Seq<Element>, r: Result<(Seq<Element>, int), ErrV>) -> bool
    decreases E.len() - p, 1int,
{
    if 0 <= p < E.len() {
        match E[p] {
            EvV::Failed(m) => r == Err::<(Seq<Element>, int), ErrV>(ErrV::Xml(m)),
            EvV::Eof => r == Ok::<(Seq<Element>, int), ErrV>((acc, p)),
            EvV::End(n) => if n == parent {
                r == Ok::<(Seq<Element>, int), ErrV>((acc, p + 1))
            } else {
                body_rel(E, p + 1, parent, acc, r)
            },
            EvV::Empty(t) => if is_leaf_name(t.name) {
                exists|x: Element| #[trigger] leaf_element(x, t) && body_rel(E, p + 1, parent, acc.push(x), r)
            } else {
                body_rel(E, p + 1, parent, acc, r)
            },
            EvV::Start(t) => body_start(E, p, t, parent, acc, r),
            _ => body_rel(E, p + 1, parent, acc, r),
        }
    } else {
        r == Ok::<(Seq<Element>, int), ErrV>((acc, p))
    }
}

/// `v` was read from position `p` up to `q`, within a stream of `len`
/// events.
pub open spec fn spans<T>(v: T, p: int, q: int, len: nat) -> bool {
    p < q <= len
}

/// A body at the start tag `t` (at `p`).
pub open spec fn body_start(
    E: Seq<EvV>,
    p: int,
    t: TagV,
    parent: Seq<char>,
    acc: Seq<Element>,
    r: Result<(Seq<Element>, int), ErrV>,
) -> bool
    decreases E.len() - p, 0int,
{
    if !(0 <= p < E.len()) {
        false
    } else if t.name == "text"@ || t.name == "number"@ || t.name == "label"@ {
        exists|x: Element| #[trigger]
            leaf_element(x, t) && match skip_end(E, p + 1, t.name, 1) {
                Ok(q) => p < q <= E.len() && body_rel(E, q, parent, acc.push(x), r),
                Err(e) => r == Err::<(Seq<Element>, int), ErrV>(e),
            }
    } else if t.name == "group"@ {
        ||| r matches Err(e) && body_rel(E, p + 1, "group"@, Seq::empty(), Err(e))
        ||| exists|x: Element, b: Seq<Element>, q: int|
            #![trigger group_made(x, t, b), spans(b, p, q, E.len())]
            body_rel(E, p + 1, "group"@, Seq::empty(), Ok((b, q))) && group_made(x, t, b) && spans(b, p, q, E.len())
                && body_rel(E, q, parent, acc.push(x), r)
    } else if t.name == "choose"@ {
        ||| r matches Err(e) && choose_rel(E, p + 1, Seq::empty(), Seq::empty(), Err(e))
        ||| exists|x: Element, bs: Seq<ChooseBranch>, eb: Seq<Element>, q: int|
            #![trigger choose_made(x, bs, eb), spans(x, p, q, E.len())]
            choose_rel(E, p + 1, Seq::empty(), Seq::empty(), Ok((bs, eb, q))) && choose_made(x, bs, eb) && spans(
                x,
                p,
                q,
                E.len(),
            ) && body_rel(E, q, parent, acc.push(x), r)
    } else if t.name == "names"@ {
        ||| r matches Err(e) && names_rel(E, p + 1, (None, None, None, Seq::empty()), Err(e))
        ||| exists|x: Element, k: NamesKids, q: int|
            #![trigger names_made(x, t, k), spans(x, p, q, E.len())]
            names_rel(E, p + 1, (None, None, None, Seq::empty()), Ok((k, q))) && names_made(x, t, k) && spans(
                x,
                p,
                q,
                E.len(),
            ) && body_rel(E, q, parent, acc.push(x), r)
    } else if t.name == "date"@ {
        ||| r matches Err(e) && date_parts_rel(E, p + 1, Err(e))
        ||| exists|x: Element, ps: Seq<DatePart>, q: int|
            #![trigger date_made(x, t, ps), spans(x, p, q, E.len())]
            date_parts_rel(E, p + 1, Ok((ps, q))) && date_made(x, t, ps) && spans(x, p, q, E.len()) && body_rel(
                E,
                q,
                parent,
                acc.push(x),
                r,
            )
    } else {
        match skip_end(E, p + 1, t.name, 1) {
            Ok(q) => p < q <= E.len() && body_rel(E, q, parent, acc, r),
            Err(e) => r == Err::<(Seq<Element>, int), ErrV>(e),
        }
    }
}

/// The branches and `else` body of a `<choose>`, after `bs` and `eb`.
pub open spec fn choose_rel(
    E: Seq<EvV>,
    p: int,
    bs: Seq<ChooseBranch>,
    eb: Seq<Element>,
    r: Result<(Seq<ChooseBranch>, Seq<Element>, int), ErrV>,
) -> bool
    decreases E.len() - p, 1int,
{
    if 0 <= p < E.len() {
        match E[p] {
            EvV::Failed(m) => r == Err::<(Seq<ChooseBranch>, Seq<Element>, int), ErrV>(ErrV::Xml(m)),
            EvV::Eof => r == Ok::<(Seq<ChooseBranch>, Seq<Element>, int), ErrV>((bs, eb, p)),
            EvV::End(n) => if n == "choose"@ {
                r == Ok::<(Seq<ChooseBranch>, Seq<Element>, int), ErrV>((bs, eb, p + 1))
            } else {
                choose_rel(E, p + 1, bs, eb, r)
            },
            EvV::Empty(t) => if t.name == "if"@ || t.name == "else-if"@ {
                exists|br: ChooseBranch| #[trigger] branch_made(br, t, Seq::empty()) && choose_rel(E, p + 1, bs.push(br), eb, r)
            } else {
                choose_rel(E, p + 1, bs, eb, r)
            },
            EvV::Start(t) => if t.name == "if"@ || t.name == "else-if"@ {
                ||| r matches Err(e) && body_rel(E, p + 1, t.name, Seq::empty(), Err(e))
                ||| exists|br: ChooseBranch, b: Seq<Element>, q: int|
                    #![trigger branch_made(br, t, b), spans(b, p, q, E.len())]
                    body_rel(E, p + 1, t.name, Seq::empty(), Ok((b, q))) && branch_made(br, t, b) && spans(b, p, q, E.len())
                        && choose_rel(E, q, bs.push(br), eb, r)
            } else if t.name == "else"@ {
                ||| r matches Err(e) && body_rel(E, p + 1, "else"@, Seq::empty(), Err(e))
                ||| exists|b: Seq<Element>, q: int| #[trigger]
                    spans(b, p, q, E.len()) && body_rel(E, p + 1, "else"@, Seq::empty(), Ok((b, q))) && choose_rel(E, q, bs, b, r)
            } else {
                match skip_end(E, p + 1, t.name, 1) {
                    Ok(q) => p < q <= E.len() && choose_rel(E, q, bs, eb, r),
                    Err(e) => r == Err::<(Seq<ChooseBranch>, Seq<Element>, int), ErrV>(e),
                }
            },
            _ => choose_rel(E, p + 1, bs, eb, r),
        }
    } else {
        r == Ok::<(Seq<ChooseBranch>, Seq<Element>, int), ErrV>((bs, eb, p))
    }
}

/// The children of a `<names>`, after those gathered in `k`.
pub open spec fn names_rel(E: Seq<EvV>, p: int, k: NamesKids, r: Result<(NamesKids, int), ErrV>) -> bool
    decreases E.len() - p, 1int,
{
    if 0 <= p < E.len() {
        match E[p] {
            EvV::Failed(m) => r == Err::<(NamesKids, int), ErrV>(ErrV::Xml(m)),
            EvV::Eof => r == Ok::<(NamesKids, int), ErrV>((k, p)),
            EvV::End(n) => if n == "names"@ {
                r == Ok::<(NamesKids, int), ErrV>((k, p + 1))
            } else {
                names_rel(E, p + 1, k, r)
            },
            EvV::Empty(t) => if t.name == "name"@ {
                exists|n: NameElement| #[trigger] name_made(n, t, Seq::empty()) && names_rel(E, p + 1, (Some(n), k.1, k.2, k.3), r)
            } else if t.name == "et-al"@ {
                exists|a: EtAlElement| #[trigger] et_al_from_tag(a, t) && names_rel(E, p + 1, (k.0, Some(a), k.2, k.3), r)
            } else if t.name == "label"@ {
                exists|l: LabelElement| #[trigger] label_from_tag(l, t) && names_rel(E, p + 1, (k.0, k.1, Some(l), k.3), r)
            } else {
                names_rel(E, p + 1, k, r)
            },
            EvV::Start(t) => if t.name == "name"@ {
                ||| r matches Err(e) && name_parts_rel(E, p + 1, Err(e))
                ||| exists|n: NameElement, ps: Seq<NamePart>, q: int|
                    #![trigger name_made(n, t, ps), spans(ps, p, q, E.len())]
                    name_parts_rel(E, p + 1, Ok((ps, q))) && name_made(n, t, ps) && spans(ps, p, q, E.len()) && names_rel(
                        E,
                        q,
                        (Some(n), k.1, k.2, k.3),
                        r,
                    )
            } else if t.name == "et-al"@ {
                exists|a: EtAlElement| #[trigger]
                    et_al_from_tag(a, t) && match skip_end(E, p + 1, "et-al"@, 1) {
                        Ok(q) => p < q <= E.len() && names_rel(E, q, (k.0, Some(a), k.2, k.3), r),
                        Err(e) => r == Err::<(NamesKids, int), ErrV>(e),
                    }
            } else if t.name == "label"@ {
                exists|l: LabelElement| #[trigger]
                    label_from_tag(l, t) && match skip_end(E, p + 1, "label"@, 1) {
                        Ok(q) => p < q <= E.len() && names_rel(E, q, (k.0, k.1, Some(l), k.3), r),
                        Err(e) => r == Err::<(NamesKids, int), ErrV>(e),
                    }
            } else if t.name == "substitute"@ {
                ||| r matches Err(e) && body_rel(E, p + 1, "substitute"@, Seq::empty(), Err(e))
                ||| exists|b: Seq<Element>, q: int| #[trigger]
                    spans(b, p, q, E.len()) && body_rel(E, p + 1, "substitute"@, Seq::empty(), Ok((b, q))) && names_rel(
                        E,
                        q,
                        (k.0, k.1, k.2, b),
                        r,
                    )
            } else {
                match skip_end(E, p + 1, t.name, 1) {
                    Ok(q) => p < q <= E.len() && names_rel(E, q, k, r),
                    Err(e) => r == Err::<(NamesKids, int), ErrV>(e),
                }
            },
            _ => names_rel(E, p + 1, k, r),
        }
    } else {
        r == Ok::<(NamesKids, int), ErrV>((k, p))
    }
}

// ─────────────────────────────────────────────────────────────────
// Locales: <terms>, <term>, <locale>
// ─────────────────────────────────────────────────────────────────

/// What a `<term>`'s content gathers: its `<single>` and `<multiple>`
/// texts and its own (non-blank) text.
pub type TermTexts = (Option<Seq<char>>, Option<Seq<char>>, Option<Seq<char>>);

/// `s` appended to an optional text (`s` alone when there is none).
pub open spec fn join_text(prev: Option<Seq<char>>, s: Seq<char>) -> Seq<char> {
    match prev {
        Some(v) => v + s,
        None => s,
    }
}

/// The content of a `<term>` after `k`, and where it ends.
pub open spec fn term_body_scan(E: Seq<EvV>, p: int, k: TermTexts) -> Result<(TermTexts, int), ErrV>
    decreases E.len() - p,
{
    if 0 <= p < E.len() {
        match E[p] {
            EvV::Failed(m) => Err(ErrV::Xml(m)),
            EvV::Eof => Ok((k, p)),
            EvV::Start(t) => if t.name == "single"@ {
                match read_text(E, p + 1, "single"@, Seq::empty()) {
                    Ok((s, q)) => if p < q <= E.len() {
                        term_body_scan(E, q, (Some(s), k.1, k.2))
                    } else {
                        Ok((k, p))
                    },
                    Err(e) => Err(e),
                }
            } else if t.name == "multiple"@ {
                match read_text(E, p + 1, "multiple"@, Seq::empty()) {
                    Ok((s, q)) => if p < q <= E.len() {
                        term_body_scan(E, q, (k.0, Some(s), k.2))
                    } else {
                        Ok((k, p))
                    },
                    Err(e) => Err(e),
                }
            } else {
                match skip_end(E, p + 1, t.name, 1) {
                    Ok(q) => if p < q <= E.len() {
                        term_body_scan(E, q, k)
                    } else {
                        Ok((k, p))
                    },
                    Err(e) => Err(e),
                }
            },
            EvV::Text(Ok(s)) => if spec_trim(s).len() > 0 {
                term_body_scan(E, p + 1, (k.0, k.1, Some(join_text(k.2, s))))
            } else {
                term_body_scan(E, p + 1, k)
            },
            EvV::Text(Err(m)) => Err(ErrV::Xml(m)),
            EvV::End(n) => if n == "term"@ {
                Ok((k, p + 1))
            } else {
                term_body_scan(E, p + 1, k)
            },
            _ => term_body_scan(E, p + 1, k),
        }
    } else {
        Ok((k, p))
    }
}

/// The body a term's content makes: singular and plural forms when it
/// has both, else its own text (possibly empty).
pub open spec fn term_body_is(b: TermBody, k: TermTexts) -> bool {
    match (k.0, k.1) {
        (Some(s), Some(m)) => b matches TermBody::Plural { single, multiple } && single@ == s && multiple@ == m,
        _ => b matches TermBody::Flat(f) && f@ == (match k.2 {
            Some(v) => v,
            None => Seq::empty(),
        }),
    }
}

/// A `<term>` with the attributes of `t` and content `k`.
pub open spec fn term_made(x: Term, t: TagV, k: TermTexts) -> bool {
    &&& x.name@ == attr_or_empty(t, "name"@)
    &&& x.form == spec_term_form(attr_of(t, "form"@))
    &&& x.gender == lift(attr_of(t, "gender"@), |v: Seq<char>| spec_term_gender_from(v))
    &&& x.gender_form == lift(attr_of(t, "gender-form"@), |v: Seq<char>| spec_term_gender_from(v))
    &&& opt_view(x.match_attr) == attr_of(t, "match"@)
    &&& term_body_is(x.body, k)
}

/// The `<term>`s of a `<terms>`, after `ts`.
pub open spec fn terms_rel(E: Seq<EvV>, p: int, ts: Seq<Term>, r: Result<(Seq<Term>, int), ErrV>) -> bool
    decreases E.len() - p,
{
    if 0 <= p < E.len() {
        match E[p] {
            EvV::Failed(m) => r == Err::<(Seq<Term>, int), ErrV>(ErrV::Xml(m)),
            EvV::Eof => r == Ok::<(Seq<Term>, int), ErrV>((ts, p)),
            EvV::End(n) => if n == "terms"@ {
                r == Ok::<(Seq<Term>, int), ErrV>((ts, p + 1))
            } else {
                terms_rel(E, p + 1, ts, r)
            },
            EvV::Empty(t) => if t.name == "term"@ {
                exists|x: Term| #[trigger] term_made(x, t, (None, None, None)) && terms_rel(E, p + 1, ts.push(x), r)
            } else {
                terms_rel(E, p + 1, ts, r)
            },
            EvV::Start(t) => if t.name == "term"@ {
                ||| r matches Err(e) && term_body_scan(E, p + 1, (None, None, None)) == Err::<(TermTexts, int), ErrV>(e)
                ||| exists|x: Term, k: TermTexts, q: int|
                    #![trigger term_made(x, t, k), spans(k, p, q, E.len())]
                    term_body_scan(E, p + 1, (None, None, None)) == Ok::<(TermTexts, int), ErrV>((k, q)) && term_made(x, t, k)
                        && spans(k, p, q, E.len()) && terms_rel(E, q, ts.push(x), r)
            } else {
                match skip_end(E, p + 1, t.name, 1) {
                    Ok(q) => p < q <= E.len() && terms_rel(E, q, ts, r),
                    Err(e) => r == Err::<(Seq<Term>, int), ErrV>(e),
                }
            },
            _ => terms_rel(E, p + 1, ts, r),
        }
    } else {
        r == Ok::<(Seq<Term>, int), ErrV>((ts, p))
    }
}

/// What a `<locale>` gathers from its children: its style options,
/// terms, and text and numeric date formats (the last of each).
pub type LocaleKids = (StyleOptions, Seq<Term>, Option<DateElement>, Option<DateElement>);

/// A locale's children before any is read.
pub open spec fn locale_start() -> LocaleKids {
    (StyleOptions { punctuation_in_quote: false, limit_day_ordinals_to_day_1: false }, Seq::empty(), None, None)
}

/// A `<date>` format with the attributes of `t` and date parts `ps`.
pub open spec fn date_format_made(d: DateElement, t: TagV, ps: Seq<DatePart>) -> bool {
    date_attrs_from_tag(d, t) && d.date_parts@ == ps
}

/// The children of a `<locale>`, after those gathered in `k`.
pub open spec fn locale_rel(E: Seq<EvV>, p: int, k: LocaleKids, r: Result<(LocaleKids, int), ErrV>) -> bool
    decreases E.len() - p,
{
    if 0 <= p < E.len() {
        match E[p] {
            EvV::Failed(m) => r == Err::<(LocaleKids, int), ErrV>(ErrV::Xml(m)),
            EvV::Eof => r == Ok::<(LocaleKids, int), ErrV>((k, p)),
            EvV::End(n) => if n == "locale"@ {
                r == Ok::<(LocaleKids, int), ErrV>((k, p + 1))
            } else {
                locale_rel(E, p + 1, k, r)
            },
            EvV::Empty(t) => if t.name == "style-options"@ {
                locale_rel(E, p + 1, (style_options_of(t), k.1, k.2, k.3), r)
            } else {
                locale_rel(E, p + 1, k, r)
            },
            EvV::Start(t) => if t.name == "style-options"@ {
                match skip_end(E, p + 1, "style-options"@, 1) {
                    Ok(q) => p < q <= E.len() && locale_rel(E, q, (style_options_of(t), k.1, k.2, k.3), r),
                    Err(e) => r == Err::<(LocaleKids, int), ErrV>(e),
                }
            } else if t.name == "terms"@ {
                ||| r matches Err(e) && terms_rel(E, p + 1, Seq::empty(), Err(e))
                ||| exists|ts: Seq<Term>, q: int| #[trigger]
                    spans(ts, p, q, E.len()) && terms_rel(E, p + 1, Seq::empty(), Ok((ts, q))) && locale_rel(
                        E,
                        q,
                        (k.0, ts, k.2, k.3),
                        r,
                    )
            } else if t.name == "date"@ && attr_of(t, "form"@) == Some("text"@) {
                ||| r matches Err(e) && date_parts_rel(E, p + 1, Err(e))
                ||| exists|d: DateElement, ps: Seq<DatePart>, q: int|
                    #![trigger date_format_made(d, t, ps), spans(ps, p, q, E.len())]
                    date_parts_rel(E, p + 1, Ok((ps, q))) && date_format_made(d, t, ps) && spans(ps, p, q, E.len())
                        && locale_rel(E, q, (k.0, k.1, Some(d), k.3), r)
            } else if t.name == "date"@ && attr_of(t, "form"@) == Some("numeric"@) {
                ||| r matches Err(e) && date_parts_rel(E, p + 1, Err(e))
                ||| exists|d: DateElement, ps: Seq<DatePart>, q: int|
                    #![trigger date_format_made(d, t, ps), spans(ps, p, q, E.len())]
                    date_parts_rel(E, p + 1, Ok((ps, q))) && date_format_made(d, t, ps) && spans(ps, p, q, E.len())
                        && locale_rel(E, q, (k.0, k.1, k.2, Some(d)), r)
            } else {
                match skip_end(E, p + 1, t.name, 1) {
                    Ok(q) => p < q <= E.len() && locale_rel(E, q, k, r),
                    Err(e) => r == Err::<(LocaleKids, int), ErrV>(e),
                }
            },
            _ => locale_rel(E, p + 1, k, r),
        }
    } else {
        r == Ok::<(LocaleKids, int), ErrV>((k, p))
    }
}

/// A `<locale>` with the `xml:lang` of `t` and children `k`.
pub open spec fn locale_made(loc: Locale, t: TagV, k: LocaleKids) -> bool {
    &&& opt_view(loc.lang) == xml_lang_of(t)
    &&& loc.style_options == k.0
    &&& loc.terms@ == k.1
    &&& loc.date_text == k.2
    &&& loc.date_numeric == k.3
}

// ─────────────────────────────────────────────────────────────────
// <citation> and <bibliography>
// ─────────────────────────────────────────────────────────────────

/// What a `<citation>` or `<bibliography>` gathers: its `<layout>`
/// and `<sort>` keys (the last of each).
pub type SectionKids = (Option<Layout>, Seq<SortKey>);

/// A `<layout>` with the attributes of `t` and body `b`.
pub open spec fn layout_made(l: Layout, t: TagV, b: Seq<Element>) -> bool {
    &&& opt_view(l.delimiter) == attr_of(t, "delimiter"@)
    &&& opt_view(l.prefix) == attr_of(t, "prefix"@)
    &&& opt_view(l.suffix) == attr_of(t, "suffix"@)
    &&& l.formatting == formatting_of(t)
    &&& l.body@ == b
}

/// The layout of a section that has none: no attributes, empty body.
pub open spec fn layout_default(l: Layout) -> bool {
    &&& l.delimiter is None
    &&& l.prefix is None
    &&& l.suffix is None
    &&& l.formatting.is_plain()
    &&& l.body@.len() == 0
}

/// The layout read, or the default one.
pub open spec fn layout_is(l: Layout, o: Option<Layout>) -> bool {
    match o {
        Some(x) => l == x,
        None => layout_default(l),
    }
}

/// The children of a section named `parent`, after those in `k`.
pub open spec fn section_rel(E: Seq<EvV>, p: int, parent: Seq<char>, k: SectionKids, r: Result<(SectionKids, int), ErrV>) -> bool
    decreases E.len() - p,
{
    if 0 <= p < E.len() {
        match E[p] {
            EvV::Failed(m) => r == Err::<(SectionKids, int), ErrV>(ErrV::Xml(m)),
            EvV::Eof => r == Ok::<(SectionKids, int), ErrV>((k, p)),
            EvV::End(n) => if n == parent {
                r == Ok::<(SectionKids, int), ErrV>((k, p + 1))
            } else {
                section_rel(E, p + 1, parent, k, r)
            },
            EvV::Start(t) => if t.name == "layout"@ {
                ||| r matches Err(e) && body_rel(E, p + 1, "layout"@, Seq::empty(), Err(e))
                ||| exists|l: Layout, b: Seq<Element>, q: int|
                    #![trigger layout_made(l, t, b), spans(b, p, q, E.len())]
                    body_rel(E, p + 1, "layout"@, Seq::empty(), Ok((b, q))) && layout_made(l, t, b) && spans(b, p, q, E.len())
                        && section_rel(E, q, parent, (Some(l), k.1), r)
            } else if t.name == "sort"@ {
                ||| r matches Err(e) && sort_keys_rel(E, p + 1, Err(e))
                ||| exists|ks: Seq<SortKey>, q: int| #[trigger]
                    spans(ks, p, q, E.len()) && sort_keys_rel(E, p + 1, Ok((ks, q))) && section_rel(E, q, parent, (k.0, ks), r)
            } else {
                match skip_end(E, p + 1, t.name, 1) {
                    Ok(q) => p < q <= E.len() && section_rel(E, q, parent, k, r),
                    Err(e) => r == Err::<(SectionKids, int), ErrV>(e),
                }
            },
            _ => section_rel(E, p + 1, parent, k, r),
        }
    } else {
        r == Ok::<(SectionKids, int), ErrV>((k, p))
    }
}

/// A `<citation>` with the attributes of `t` and children `k`.
pub open spec fn citation_made(c: Citation, t: TagV, k: SectionKids) -> bool {
    &&& layout_is(c.layout, k.0)
    &&& c.sort@ == k.1
    &&& c.et_al_min == u32_attr_of(t, "et-al-min"@)
    &&& c.et_al_use_first == u32_attr_of(t, "et-al-use-first"@)
    &&& c.et_al_subsequent_min == u32_attr_of(t, "et-al-subsequent-min"@)
    &&& c.et_al_subsequent_use_first == u32_attr_of(t, "et-al-subsequent-use-first"@)
    &&& c.et_al_use_last == bool_attr_of(t, "et-al-use-last"@)
    &&& c.disambiguate_add_givenname == bool_attr_of(t, "disambiguate-add-givenname"@)
    &&& c.disambiguate_add_names == bool_attr_of(t, "disambiguate-add-names"@)
    &&& c.disambiguate_add_year_suffix == bool_attr_of(t, "disambiguate-add-year-suffix"@)
    &&& opt_view(c.givenname_disambiguation_rule) == attr_of(t, "givenname-disambiguation-rule"@)
    &&& opt_view(c.collapse) == attr_of(t, "collapse"@)
    &&& opt_view(c.names_delimiter) == attr_of(t, "names-delimiter"@)
    &&& opt_view(c.name_delimiter) == attr_of(t, "name-delimiter"@)
    &&& c.initialize_with_hyphen == bool_attr_of(t, "initialize-with-hyphen"@)
}

/// The citation of a style that has none: every attribute unset.
pub open spec fn citation_default(c: Citation) -> bool {
    &&& layout_default(c.layout)
    &&& c.sort@.len() == 0
    &&& c.et_al_min is None
    &&& c.et_al_use_first is None
    &&& c.et_al_subsequent_min is None
    &&& c.et_al_subsequent_use_first is None
    &&& !c.et_al_use_last
    &&& !c.disambiguate_add_givenname
    &&& !c.disambiguate_add_names
    &&& !c.disambiguate_add_year_suffix
    &&& c.givenname_disambiguation_rule is None
    &&& c.collapse is None
    &&& c.names_delimiter is None
    &&& c.name_delimiter is None
    &&& !c.initialize_with_hyphen
}

/// A `<bibliography>` with the attributes of `t` and children `k`.
pub open spec fn bibliography_made(b: Bibliography, t: TagV, k: SectionKids) -> bool {
    &&& layout_is(b.layout, k.0)
    &&& b.sort@ == k.1
    &&& b.hanging_indent == bool_attr_of(t, "hanging-indent"@)
    &&& opt_view(b.line_spacing) == attr_of(t, "line-spacing"@)
    &&& opt_view(b.entry_spacing) == attr_of(t, "entry-spacing"@)
    &&& opt_view(b.second_field_align) == attr_of(t, "second-field-align"@)
    &&& opt_view(b.subsequent_author_substitute) == attr_of(t, "subsequent-author-substitute"@)
    &&& opt_view(b.subsequent_author_substitute_rule) == attr_of(t, "subsequent-author-substitute-rule"@)
    &&& b.et_al_min == u32_attr_of(t, "et-al-min"@)
    &&& b.et_al_use_first == u32_attr_of(t, "et-al-use-first"@)
    &&& !b.et_al_use_last
    &&& opt_view(b.names_delimiter) == attr_of(t, "names-delimiter"@)
    &&& opt_view(b.name_delimiter) == attr_of(t, "name-delimiter"@)
}

// ─────────────────────────────────────────────────────────────────
// <style>
// ─────────────────────────────────────────────────────────────────

/// A table of macros as plain values: name and body, by name.
pub type MacroTable = Seq<(Seq<char>, Seq<Element>)>;

/// The macros of a style as plain values.
pub open spec fn macros_view(v: Seq<Macro>) -> MacroTable {
    v.map_values(|m: Macro| (m.name@, m.body@))
}

/// The names of a macro table.
pub open spec fn macro_names(s: MacroTable) -> Seq<Seq<char>> {
    s.map_values(|e: (Seq<char>, Seq<Element>)| e.0)
}

/// `s` with the macro `k` set to `v`: its body replaced where `k` is
/// present, else inserted before the first greater name.
pub open spec fn macro_insert(s: MacroTable, k: Seq<char>, v: Seq<Element>) -> MacroTable
    decreases s.len(),
{
    if s.len() == 0 {
        seq![(k, v)]
    } else if s[0].0 == k {
        s.update(0, (k, v))
    } else if seq_lt(k, s[0].0) {
        seq![(k, v)] + s
    } else {
        seq![s[0]] + macro_insert(s.drop_first(), k, v)
    }
}

/// What a `<style>` gathers: its `<citation>`, `<bibliography>`
/// (the last of each), macros, and in-style locales in order.
pub type StyleKids = (Option<Citation>, Option<Bibliography>, MacroTable, Seq<Locale>);

/// A style's children before any is read.
pub open spec fn style_start() -> StyleKids {
    (None, None, Seq::empty(), Seq::empty())
}

/// The children of a `<style>`, after those gathered in `k`.
pub open spec fn style_rel(E: Seq<EvV>, p: int, k: StyleKids, r: Result<(StyleKids, int), ErrV>) -> bool
    decreases E.len() - p,
{
    if 0 <= p < E.len() {
        match E[p] {
            EvV::Failed(m) => r == Err::<(StyleKids, int), ErrV>(ErrV::Xml(m)),
            EvV::Eof => r == Ok::<(StyleKids, int), ErrV>((k, p)),
            EvV::End(n) => if n == "style"@ {
                r == Ok::<(StyleKids, int), ErrV>((k, p + 1))
            } else {
                style_rel(E, p + 1, k, r)
            },
            EvV::Empty(t) => if t.name == "locale"@ {
                exists|loc: Locale| #[trigger]
                    locale_made(loc, t, locale_start()) && style_rel(E, p + 1, (k.0, k.1, k.2, k.3.push(loc)), r)
            } else {
                style_rel(E, p + 1, k, r)
            },
            EvV::Start(t) => if t.name == "citation"@ {
                ||| r matches Err(e) && section_rel(E, p + 1, "citation"@, (None, Seq::empty()), Err(e))
                ||| exists|c: Citation, sk: SectionKids, q: int|
                    #![trigger citation_made(c, t, sk), spans(sk, p, q, E.len())]
                    section_rel(E, p + 1, "citation"@, (None, Seq::empty()), Ok((sk, q))) && citation_made(c, t, sk)
                        && spans(sk, p, q, E.len()) && style_rel(E, q, (Some(c), k.1, k.2, k.3), r)
            } else if t.name == "bibliography"@ {
                ||| r matches Err(e) && section_rel(E, p + 1, "bibliography"@, (None, Seq::empty()), Err(e))
                ||| exists|b: Bibliography, sk: SectionKids, q: int|
                    #![trigger bibliography_made(b, t, sk), spans(sk, p, q, E.len())]
                    section_rel(E, p + 1, "bibliography"@, (None, Seq::empty()), Ok((sk, q))) && bibliography_made(b, t, sk)
                        && spans(sk, p, q, E.len()) && style_rel(E, q, (k.0, Some(b), k.2, k.3), r)
            } else if t.name == "macro"@ {
                match attr_of(t, "name"@) {
                    None => r == Err::<(StyleKids, int), ErrV>(ErrV::MissingAttr("macro"@, "name"@)),
                    Some(name) => {
                        ||| r matches Err(e) && body_rel(E, p + 1, "macro"@, Seq::empty(), Err(e))
                        ||| exists|b: Seq<Element>, q: int| #[trigger]
                            spans(b, p, q, E.len()) && body_rel(E, p + 1, "macro"@, Seq::empty(), Ok((b, q))) && style_rel(
                                E,
                                q,
                                (k.0, k.1, macro_insert(k.2, name, b), k.3),
                                r,
                            )
                    },
                }
            } else if t.name == "locale"@ {
                ||| r matches Err(e) && locale_rel(E, p + 1, locale_start(), Err(e))
                ||| exists|loc: Locale, lk: LocaleKids, q: int|
                    #![trigger locale_made(loc, t, lk), spans(lk, p, q, E.len())]
                    locale_rel(E, p + 1, locale_start(), Ok((lk, q))) && locale_made(loc, t, lk) && spans(lk, p, q, E.len())
                        && style_rel(E, q, (k.0, k.1, k.2, k.3.push(loc)), r)
            } else {
                match skip_end(E, p + 1, t.name, 1) {
                    Ok(q) => p < q <= E.len() && style_rel(E, q, k, r),
                    Err(e) => r == Err::<(StyleKids, int), ErrV>(e),
                }
            },
            _ => style_rel(E, p + 1, k, r),
        }
    } else {
        r == Ok::<(StyleKids, int), ErrV>((k, p))
    }
}

/// A style with lookup id `id`, the attributes of its root tag `t` and
/// the children `k`.
pub open spec fn style_made(s: Style, t: TagV, id: Seq<char>, k: StyleKids) -> bool {
    &&& s.id@ == id
    &&& s.class == (if attr_of(t, "class"@) == Some("note"@) {
        StyleClass::Note
    } else {
        StyleClass::InText
    })
    &&& opt_view(s.default_locale) == attr_of(t, "default-locale"@)
    &&& opt_view(s.initialize_with) == attr_of(t, "initialize-with"@)
    &&& opt_view(s.names_delimiter) == attr_of(t, "names-delimiter"@)
    &&& opt_view(s.demote_non_dropping_particle) == attr_of(t, "demote-non-dropping-particle"@)
    &&& opt_view(s.page_range_format) == attr_of(t, "page-range-format"@)
    &&& match k.0 {
        Some(c) => s.citation == c,
        None => citation_default(s.citation),
    }
    &&& s.bibliography == k.1
    &&& macros_view(s.macros@) == k.2
    &&& s.locale_overrides@ == k.3
}

// ─────────────────────────────────────────────────────────────────
// Documents
// ─────────────────────────────────────────────────────────────────

/// The first start tag named `name` from `p` on, and its position; a
/// read error or the end of the document before it is an error.
pub open spec fn find_root(E: Seq<EvV>, p: int, name: Seq<char>) -> Result<(TagV, int), ErrV>
    decreases E.len() - p,
{
    if 0 <= p < E.len() {
        match E[p] {
            EvV::Start(t) => if t.name == name {
                Ok((t, p))
            } else {
                find_root(E, p + 1, name)
            },
            EvV::Eof => Err(ErrV::MissingRoot(name)),
            EvV::Failed(m) => Err(ErrV::Xml(m)),
            _ => find_root(E, p + 1, name),
        }
    } else {
        Err(ErrV::MissingRoot(name))
    }
}

/// `r` is what reading a CSL style document with events `E` gives,
/// for lookup id `id`: an error before the root `<style>` start tag, or
/// what reading its children from there gives.
pub open spec fn style_doc(E: Seq<EvV>, id: Seq<char>, r: Result<Style, ErrV>) -> bool {
    match find_root(E, 0, "style"@) {
        Err(e) => r == Err::<Style, ErrV>(e),
        Ok((t, p)) => style_from_root(E, t, p, id, r),
    }
}

/// `r` is what reading the style whose root start tag `t` stands at `p`
/// gives.
pub open spec fn style_from_root(E: Seq<EvV>, t: TagV, p: int, id: Seq<char>, r: Result<Style, ErrV>) -> bool {
    ||| r matches Err(e) && style_rel(E, p + 1, style_start(), Err(e))
    ||| r matches Ok(s) && exists|k: StyleKids, q: int|
        #![trigger style_made(s, t, id, k), spans(k, p, q, E.len())]
        style_rel(E, p + 1, style_start(), Ok((k, q))) && style_made(s, t, id, k) && spans(k, p, q, E.len())
}

/// `r` is what reading a CSL locale document with events `E` gives: an
/// error before the root `<locale>` start tag, or what reading its
/// children from there gives.
pub open spec fn locale_doc(E: Seq<EvV>, r: Result<Locale, ErrV>) -> bool {
    match find_root(E, 0, "locale"@) {
        Err(e) => r == Err::<Locale, ErrV>(e),
        Ok((t, p)) => locale_from_root(E, t, p, r),
    }
}

/// `r` is what reading the locale whose root start tag `t` stands at
/// `p` gives.
pub open spec fn locale_from_root(E: Seq<EvV>, t: TagV, p: int, r: Result<Locale, ErrV>) -> bool {
    ||| r matches Err(e) && locale_rel(E, p + 1, locale_start(), Err(e))
    ||| r matches Ok(loc) && exists|k: LocaleKids, q: int|
        #![trigger locale_made(loc, t, k), spans(k, p, q, E.len())]
        locale_rel(E, p + 1, locale_start(), Ok((k, q))) && locale_made(loc, t, k) && spans(k, p, q, E.len())
}

/// The outcome of a document reader, as plain values.
pub open spec fn doc_out<T>(r: Result<T, ParseError>) -> Result<T, ErrV> {
    match r {
        Ok(x) => Ok(x),
        Err(e) => Err(err_view(e)),
    }
}

} // verus!
