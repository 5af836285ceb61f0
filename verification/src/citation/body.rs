//! The element readers of the CSL reader: each reads from a position in
//! the event stream to the end tag of its element and meets its
//! relation in [`crate::citation::grammar`].

use vstd::prelude::*;

use crate::citation::ast::{
    ChooseBranch, ChooseElement, DatePart, Element, EtAlElement, GroupElement, LabelElement, NameElement,
    NamePart, SortKey,
};
use crate::citation::grammar::{
    body_rel, body_start, branch_made, choose_made, choose_out, choose_rel, date_made, group_made,
    is_leaf_name, leaf_element, name_made, names_made, names_out, names_rel, spans, NamesKids, date_parts_rel, err_view, items_rel, name_parts_rel, pos_out, push_opt, read_text, seq_out,
    skip_end, sort_keys_rel, ErrV,
};
use crate::citation::parser::ParseError;
use crate::citation::parser::display_from;
use crate::citation::reader::{
    as_opt_str, et_al_from_tag, label_from_tag, parse_conditions, parse_date_from_attrs, parse_et_al,
    parse_formatting, parse_label, parse_name_from_attrs, parse_names_from_attrs, parse_number,
    parse_text, date_part_from_tag, name_part_from_tag, parse_date_part, parse_name_part, parse_sort_key,
    sort_key_from_tag,
};
use crate::citation::xml::{attr, ev_view, evs_view, tag_view, TagV, XmlEvent, XmlTag};
use crate::text::{chars_of, push_all, str_eq, string_from_chars};

verus! {

/// Skips to just after the end tag of `name`, one such tag being open
/// (nested tags of the same name are counted).
pub fn skip_to_end(evs: &Vec<XmlEvent>, start: usize, name: &str) -> (r: Result<usize, ParseError>)
    requires
        start <= evs@.len(),
    ensures
        pos_out(r) == skip_end(evs_view(evs@), start as int, name@, 1),
        r matches Ok(q) ==> start <= q <= evs@.len(),
{
    let ghost e = evs_view(evs@);
    let mut depth: u128 = 1;
    let mut pos: usize = start;
    while pos < evs.len()
        invariant
            start <= pos <= evs@.len(),
            e == evs_view(evs@),
            1 <= depth <= pos - start + 1,
            skip_end(e, start as int, name@, 1) == skip_end(e, pos as int, name@, depth as nat),
        decreases evs@.len() - pos,
    {
        proof {
            assert(e[pos as int] == ev_view(evs@[pos as int]));
        }
        match &evs[pos] {
            XmlEvent::Failed(m) => {
                return Err(ParseError::Xml(m.clone()));
            },
            XmlEvent::Eof => {
                return Ok(pos);
            },
            XmlEvent::Start(t) => {
                if str_eq(t.name.as_str(), name) {
                    depth = depth + 1;
                }
            },
            XmlEvent::End(n) => {
                if str_eq(n.as_str(), name) {
                    if depth <= 1 {
                        return Ok(pos + 1);
                    }
                    depth = depth - 1;
                }
            },
            _ => {},
        }
        pos = pos + 1;
    }
    Ok(pos)
}

/// Reads the text inside `parent` up to its end tag.
pub fn read_text_to_end(evs: &Vec<XmlEvent>, start: usize, parent: &str) -> (r: Result<(String, usize), ParseError>)
    requires
        start <= evs@.len(),
    ensures
        match r {
            Ok((s, q)) => read_text(evs_view(evs@), start as int, parent@, Seq::empty()) == Ok::<(Seq<char>, int), ErrV>(
                (s@, q as int),
            ) && start <= q <= evs@.len(),
            Err(x) => read_text(evs_view(evs@), start as int, parent@, Seq::empty()) == Err::<(Seq<char>, int), ErrV>(
                err_view(x),
            ),
        },
{
    let ghost e = evs_view(evs@);
    let mut out: Vec<char> = Vec::new();
    let mut pos: usize = start;
    while pos < evs.len()
        invariant
            start <= pos <= evs@.len(),
            e == evs_view(evs@),
            read_text(e, start as int, parent@, Seq::empty()) == read_text(e, pos as int, parent@, out@),
        decreases evs@.len() - pos,
    {
        proof {
            assert(e[pos as int] == ev_view(evs@[pos as int]));
        }
        match &evs[pos] {
            XmlEvent::Failed(m) => {
                return Err(ParseError::Xml(m.clone()));
            },
            XmlEvent::Eof => {
                return Ok((string_from_chars(out.as_slice()), pos));
            },
            XmlEvent::Text(Ok(s)) => {
                push_all(&mut out, chars_of(s.as_str()).as_slice());
            },
            XmlEvent::Text(Err(m)) => {
                return Err(ParseError::Xml(m.clone()));
            },
            XmlEvent::End(n) => {
                if str_eq(n.as_str(), parent) {
                    return Ok((string_from_chars(out.as_slice()), pos + 1));
                }
            },
            _ => {},
        }
        pos = pos + 1;
    }
    Ok((string_from_chars(out.as_slice()), pos))
}

/// Reads the children named `child` of an element named `parent`, each
/// with `item` (those it yields nothing for left out), skipping the
/// other children whole.
fn parse_items<T, F: Fn(&XmlTag) -> Option<T>>(
    evs: &Vec<XmlEvent>,
    start: usize,
    child: &str,
    parent: &str,
    item: F,
    Ghost(rel): Ghost<spec_fn(Option<T>, TagV) -> bool>,
) -> (r: Result<(Vec<T>, usize), ParseError>)
    requires
        start <= evs@.len(),
        forall|t: &XmlTag| #[trigger] item.requires((t,)),
        forall|t: &XmlTag, x: Option<T>| #[trigger] item.ensures((t,), x) ==> rel(x, tag_view(*t)),
    ensures
        items_rel(evs_view(evs@), start as int, child@, parent@, rel, Seq::empty(), seq_out(r)),
        r matches Ok((_, q)) ==> start <= q <= evs@.len(),
{
    let ghost e = evs_view(evs@);
    let mut acc: Vec<T> = Vec::new();
    let mut pos: usize = start;
    loop
        invariant
            start <= pos <= evs@.len(),
            e == evs_view(evs@),
            forall|t: &XmlTag| #[trigger] item.requires((t,)),
            forall|t: &XmlTag, x: Option<T>| #[trigger] item.ensures((t,), x) ==> rel(x, tag_view(*t)),
            forall|r: Result<(Seq<T>, int), ErrV>| #[trigger]
                items_rel(e, pos as int, child@, parent@, rel, acc@, r) ==> items_rel(
                    e,
                    start as int,
                    child@,
                    parent@,
                    rel,
                    Seq::empty(),
                    r,
                ),
        decreases evs@.len() - pos,
    {
        let ghost p0 = pos as int;
        let ghost a0 = acc@;
        if pos >= evs.len() {
            proof {
                assert(items_rel(e, p0, child@, parent@, rel, a0, Ok((a0, p0))));
            }
            return Ok((acc, pos));
        }
        proof {
            assert(e[p0] == ev_view(evs@[p0]));
        }
        match &evs[pos] {
            XmlEvent::Failed(m) => {
                let err = ParseError::Xml(m.clone());
                proof {
                    assert(items_rel(e, p0, child@, parent@, rel, a0, Err(err_view(err))));
                }
                return Err(err);
            },
            XmlEvent::Eof => {
                proof {
                    assert(items_rel(e, p0, child@, parent@, rel, a0, Ok((a0, p0))));
                }
                return Ok((acc, pos));
            },
            XmlEvent::End(n) => {
                if str_eq(n.as_str(), parent) {
                    proof {
                        assert(items_rel(e, p0, child@, parent@, rel, a0, Ok((a0, p0 + 1))));
                    }
                    return Ok((acc, pos + 1));
                }
                pos = pos + 1;
                proof {
                    assert forall|r: Result<(Seq<T>, int), ErrV>| #[trigger]
                        items_rel(e, pos as int, child@, parent@, rel, acc@, r) implies items_rel(
                        e,
                        p0,
                        child@,
                        parent@,
                        rel,
                        a0,
                        r,
                    ) by {}
                }
            },
            XmlEvent::Empty(t) => {
                let ghost tv = tag_view(*t);
                if str_eq(t.name.as_str(), child) {
                    let x = item(t);
                    let ghost xg = x;
                    proof {
                        assert(rel(xg, tv));
                    }
                    match x {
                        Some(v) => acc.push(v),
                        None => {},
                    }
                    pos = pos + 1;
                    proof {
                        assert(acc@ == push_opt(a0, xg));
                        assert forall|r: Result<(Seq<T>, int), ErrV>| #[trigger]
                            items_rel(e, pos as int, child@, parent@, rel, acc@, r) implies items_rel(
                            e,
                            p0,
                            child@,
                            parent@,
                            rel,
                            a0,
                            r,
                        ) by {
                            assert(rel(xg, tv) && items_rel(e, p0 + 1, child@, parent@, rel, push_opt(a0, xg), r));
                        }
                    }
                } else {
                    pos = pos + 1;
                    proof {
                        assert forall|r: Result<(Seq<T>, int), ErrV>| #[trigger]
                            items_rel(e, pos as int, child@, parent@, rel, acc@, r) implies items_rel(
                            e,
                            p0,
                            child@,
                            parent@,
                            rel,
                            a0,
                            r,
                        ) by {}
                    }
                }
            },
            XmlEvent::Start(t) => {
                let ghost tv = tag_view(*t);
                if str_eq(t.name.as_str(), child) {
                    let x = item(t);
                    let ghost xg = x;
                    proof {
                        assert(rel(xg, tv));
                    }
                    match skip_to_end(evs, pos + 1, child) {
                        Ok(q) => {
                            match x {
                                Some(v) => acc.push(v),
                                None => {},
                            }
                            pos = q;
                            proof {
                                assert(acc@ == push_opt(a0, xg));
                                assert forall|r: Result<(Seq<T>, int), ErrV>| #[trigger]
                                    items_rel(e, pos as int, child@, parent@, rel, acc@, r) implies items_rel(
                                    e,
                                    p0,
                                    child@,
                                    parent@,
                                    rel,
                                    a0,
                                    r,
                                ) by {
                                    assert(rel(xg, tv));
                                }
                            }
                        },
                        Err(err) => {
                            proof {
                                assert(rel(xg, tv));
                                assert(items_rel(e, p0, child@, parent@, rel, a0, Err(err_view(err))));
                            }
                            return Err(err);
                        },
                    }
                } else {
                    match skip_to_end(evs, pos + 1, t.name.as_str()) {
                        Ok(q) => {
                            pos = q;
                            proof {
                                assert forall|r: Result<(Seq<T>, int), ErrV>| #[trigger]
                                    items_rel(e, pos as int, child@, parent@, rel, acc@, r) implies items_rel(
                                    e,
                                    p0,
                                    child@,
                                    parent@,
                                    rel,
                                    a0,
                                    r,
                                ) by {}
                            }
                        },
                        Err(err) => {
                            proof {
                                assert(items_rel(e, p0, child@, parent@, rel, a0, Err(err_view(err))));
                            }
                            return Err(err);
                        },
                    }
                }
            },
            _ => {
                pos = pos + 1;
                proof {
                    assert forall|r: Result<(Seq<T>, int), ErrV>| #[trigger]
                        items_rel(e, pos as int, child@, parent@, rel, acc@, r) implies items_rel(
                        e,
                        p0,
                        child@,
                        parent@,
                        rel,
                        a0,
                        r,
                    ) by {}
                }
            },
        }
    }
}

/// Reads the `<name-part>`s of a `<name>`.
pub fn parse_name_parts(evs: &Vec<XmlEvent>, start: usize) -> (r: Result<(Vec<NamePart>, usize), ParseError>)
    requires
        start <= evs@.len(),
    ensures
        name_parts_rel(evs_view(evs@), start as int, seq_out(r)),
        r matches Ok((_, q)) ==> start <= q <= evs@.len(),
{
    parse_items(
        evs,
        start,
        "name-part",
        "name",
        parse_name_part,
        Ghost(|x: Option<NamePart>, t: TagV| name_part_from_tag(x, t)),
    )
}

/// Reads the `<date-part>`s of a `<date>`.
pub fn parse_date_parts(evs: &Vec<XmlEvent>, start: usize) -> (r: Result<(Vec<DatePart>, usize), ParseError>)
    requires
        start <= evs@.len(),
    ensures
        date_parts_rel(evs_view(evs@), start as int, seq_out(r)),
        r matches Ok((_, q)) ==> start <= q <= evs@.len(),
{
    parse_items(
        evs,
        start,
        "date-part",
        "date",
        parse_date_part,
        Ghost(|x: Option<DatePart>, t: TagV| date_part_from_tag(x, t)),
    )
}

/// Reads the `<key>`s of a `<sort>`.
pub fn parse_sort(evs: &Vec<XmlEvent>, start: usize) -> (r: Result<(Vec<SortKey>, usize), ParseError>)
    requires
        start <= evs@.len(),
    ensures
        sort_keys_rel(evs_view(evs@), start as int, seq_out(r)),
        r matches Ok((_, q)) ==> start <= q <= evs@.len(),
{
    parse_items(
        evs,
        start,
        "key",
        "sort",
        parse_sort_key,
        Ghost(|x: Option<SortKey>, t: TagV| sort_key_from_tag(x, t)),
    )
}

// ─────────────────────────────────────────────────────────────────
// Element builders
// ─────────────────────────────────────────────────────────────────

/// The element an empty tag stands for in a body, if it is one.
fn leaf_of(t: &XmlTag) -> (r: Option<Element>)
    ensures
        match r {
            Some(x) => is_leaf_name(tag_view(*t).name) && leaf_element(x, tag_view(*t)),
            None => !is_leaf_name(tag_view(*t).name),
        },
{
    if str_eq(t.name.as_str(), "text") {
        Some(Element::Text(parse_text(t)))
    } else if str_eq(t.name.as_str(), "number") {
        Some(Element::Number(parse_number(t)))
    } else if str_eq(t.name.as_str(), "label") {
        Some(Element::Label(parse_label(t)))
    } else if str_eq(t.name.as_str(), "names") {
        Some(Element::Names(Box::new(parse_names_from_attrs(t))))
    } else if str_eq(t.name.as_str(), "date") {
        Some(Element::Date(Box::new(parse_date_from_attrs(t))))
    } else {
        None
    }
}

/// A `<group>` with the attributes of `t` and body `body`.
fn make_group(t: &XmlTag, body: Vec<Element>) -> (x: Element)
    ensures
        group_made(x, tag_view(*t), body@),
{
    Element::Group(
        GroupElement {
            delimiter: attr(t, "delimiter"),
            prefix: attr(t, "prefix"),
            suffix: attr(t, "suffix"),
            formatting: parse_formatting(t),
            display: display_from(as_opt_str(&attr(t, "display"))),
            body,
        },
    )
}

/// A `<names>` with the attributes of `t` and the given children.
fn make_names(
    t: &XmlTag,
    name: Option<NameElement>,
    et_al: Option<EtAlElement>,
    label: Option<LabelElement>,
    substitute: Vec<Element>,
) -> (x: Element)
    ensures
        names_made(x, tag_view(*t), (name, et_al, label, substitute@)),
{
    let mut n = parse_names_from_attrs(t);
    n.name = name;
    n.et_al = et_al;
    n.label = label;
    n.substitute = substitute;
    Element::Names(Box::new(n))
}

/// A `<date>` with the attributes of `t` and date parts `parts`.
fn make_date(t: &XmlTag, parts: Vec<DatePart>) -> (x: Element)
    ensures
        date_made(x, tag_view(*t), parts@),
{
    let mut d = parse_date_from_attrs(t);
    d.date_parts = parts;
    Element::Date(Box::new(d))
}

/// A `<name>` with the attributes of `t` and name parts `parts`.
fn make_name(t: &XmlTag, parts: Vec<NamePart>) -> (n: NameElement)
    ensures
        name_made(n, tag_view(*t), parts@),
{
    let mut n = parse_name_from_attrs(t);
    n.name_parts = parts;
    n
}

/// An `<if>` / `<else-if>` branch with the conditions of `t` and `body`.
fn make_branch(t: &XmlTag, body: Vec<Element>) -> (b: ChooseBranch)
    ensures
        branch_made(b, tag_view(*t), body@),
{
    ChooseBranch { conditions: parse_conditions(t), body }
}

// ─────────────────────────────────────────────────────────────────
// Bodies
// ─────────────────────────────────────────────────────────────────

/// Reads the elements of a body up to the end tag of `parent`.
pub fn parse_layout_body(evs: &Vec<XmlEvent>, start: usize, parent: &str) -> (r: Result<(Vec<Element>, usize), ParseError>)
    requires
        start <= evs@.len(),
    ensures
        body_rel(evs_view(evs@), start as int, parent@, Seq::empty(), seq_out(r)),
        r matches Ok((_, q)) ==> start <= q <= evs@.len(),
    decreases evs@.len() - start, 1nat,
{
    let ghost e = evs_view(evs@);
    let mut acc: Vec<Element> = Vec::new();
    let mut pos: usize = start;
    loop
        invariant
            start <= pos <= evs@.len(),
            e == evs_view(evs@),
            forall|r: Result<(Seq<Element>, int), ErrV>| #[trigger]
                body_rel(e, pos as int, parent@, acc@, r) ==> body_rel(e, start as int, parent@, Seq::empty(), r),
        decreases evs@.len() - pos,
    {
        let ghost p0 = pos as int;
        let ghost a0 = acc@;
        if pos >= evs.len() {
            proof {
                assert(body_rel(e, p0, parent@, a0, Ok((a0, p0))));
            }
            return Ok((acc, pos));
        }
        proof {
            assert(e[p0] == ev_view(evs@[p0]));
        }
        match &evs[pos] {
            XmlEvent::Failed(m) => {
                let err = ParseError::Xml(m.clone());
                proof {
                    assert(body_rel(e, p0, parent@, a0, Err(err_view(err))));
                }
                return Err(err);
            },
            XmlEvent::Eof => {
                proof {
                    assert(body_rel(e, p0, parent@, a0, Ok((a0, p0))));
                }
                return Ok((acc, pos));
            },
            XmlEvent::End(n) => {
                if str_eq(n.as_str(), parent) {
                    proof {
                        assert(body_rel(e, p0, parent@, a0, Ok((a0, p0 + 1))));
                    }
                    return Ok((acc, pos + 1));
                }
                pos = pos + 1;
                proof {
                    assert forall|r: Result<(Seq<Element>, int), ErrV>| #[trigger]
                        body_rel(e, pos as int, parent@, acc@, r) implies body_rel(e, p0, parent@, a0, r) by {}
                }
            },
            XmlEvent::Empty(t) => {
                let ghost tv = tag_view(*t);
                match leaf_of(t) {
                    Some(x) => {
                        let ghost xg = x;
                        acc.push(x);
                        pos = pos + 1;
                        proof {
                            assert forall|r: Result<(Seq<Element>, int), ErrV>| #[trigger]
                                body_rel(e, pos as int, parent@, acc@, r) implies body_rel(e, p0, parent@, a0, r) by {
                                assert(leaf_element(xg, tv) && body_rel(e, p0 + 1, parent@, a0.push(xg), r));
                            }
                        }
                    },
                    None => {
                        pos = pos + 1;
                        proof {
                            assert forall|r: Result<(Seq<Element>, int), ErrV>| #[trigger]
                                body_rel(e, pos as int, parent@, acc@, r) implies body_rel(e, p0, parent@, a0, r) by {}
                        }
                    },
                }
            },
            XmlEvent::Start(t) => {
                let ghost tv = tag_view(*t);
                match body_step_start(evs, pos, t, Ghost(parent@), Ghost(a0)) {
                    Ok((x, q)) => {
                        match x {
                            Some(v) => acc.push(v),
                            None => {},
                        }
                        pos = q;
                        proof {
                            assert forall|r: Result<(Seq<Element>, int), ErrV>| #[trigger]
                                body_rel(e, pos as int, parent@, acc@, r) implies body_rel(e, p0, parent@, a0, r) by {
                                assert(acc@ == push_opt(a0, x));
                                assert(body_start(e, p0, tv, parent@, a0, r));
                            }
                        }
                    },
                    Err(err) => {
                        proof {
                            assert(body_rel(e, p0, parent@, a0, Err(err_view(err))));
                        }
                        return Err(err);
                    },
                }
            },
            _ => {
                pos = pos + 1;
                proof {
                    assert forall|r: Result<(Seq<Element>, int), ErrV>| #[trigger]
                        body_rel(e, pos as int, parent@, acc@, r) implies body_rel(e, p0, parent@, a0, r) by {}
                }
            },
        }
    }
}

/// Reads the element whose start tag `t` stands at `pos` of a body: the
/// element (none for one skipped) and the position after it.
fn body_step_start(
    evs: &Vec<XmlEvent>,
    pos: usize,
    t: &XmlTag,
    Ghost(parent): Ghost<Seq<char>>,
    Ghost(acc): Ghost<Seq<Element>>,
) -> (res: Result<(Option<Element>, usize), ParseError>)
    requires
        pos < evs@.len(),
    ensures
        match res {
            Ok((x, q)) => pos < q <= evs@.len() && forall|r: Result<(Seq<Element>, int), ErrV>| #[trigger]
                body_rel(evs_view(evs@), q as int, parent, push_opt(acc, x), r) ==> body_start(
                    evs_view(evs@),
                    pos as int,
                    tag_view(*t),
                    parent,
                    acc,
                    r,
                ),
            Err(err) => body_start(evs_view(evs@), pos as int, tag_view(*t), parent, acc, Err(err_view(err))),
        },
    decreases evs@.len() - pos, 0nat,
{
    let ghost e = evs_view(evs@);
    let ghost tv = tag_view(*t);
    let ghost p = pos as int;
    let n = evs.len();
    assert(pos + 1 <= n);
    if str_eq(t.name.as_str(), "text") || str_eq(t.name.as_str(), "number") || str_eq(t.name.as_str(), "label") {
        let x = match leaf_of(t) {
            Some(x) => x,
            None => vstd::pervasive::unreached(),
        };
        match skip_to_end(evs, pos + 1, t.name.as_str()) {
            Ok(q) => {
                proof {
                    assert forall|r: Result<(Seq<Element>, int), ErrV>| #[trigger]
                        body_rel(e, q as int, parent, push_opt(acc, Some(x)), r) implies body_start(e, p, tv, parent, acc, r) by {
                        assert(leaf_element(x, tv));
                    }
                }
                Ok((Some(x), q))
            },
            Err(err) => {
                proof {
                    assert(leaf_element(x, tv));
                }
                Err(err)
            },
        }
    } else if str_eq(t.name.as_str(), "group") {
        match parse_layout_body(evs, pos + 1, "group") {
            Ok((b, q)) => {
                let ghost bv = b@;
                let x = make_group(t, b);
                proof {
                    assert forall|r: Result<(Seq<Element>, int), ErrV>| #[trigger]
                        body_rel(e, q as int, parent, push_opt(acc, Some(x)), r) implies body_start(e, p, tv, parent, acc, r) by {
                        assert(body_rel(e, p + 1, "group"@, Seq::empty(), Ok((bv, q as int))) && group_made(x, tv, bv) && spans(bv, p, q as int, e.len()));
                    }
                }
                Ok((Some(x), q))
            },
            Err(err) => {
                proof {
                    assert(body_rel(e, p + 1, "group"@, Seq::empty(), Err(err_view(err))));
                }
                Err(err)
            },
        }
    } else if str_eq(t.name.as_str(), "choose") {
        match parse_choose(evs, pos + 1) {
            Ok((c, q)) => {
                let ghost bs = c.branches@;
                let ghost eb = c.else_body@;
                let x = Element::Choose(c);
                proof {
                    assert forall|r: Result<(Seq<Element>, int), ErrV>| #[trigger]
                        body_rel(e, q as int, parent, push_opt(acc, Some(x)), r) implies body_start(e, p, tv, parent, acc, r) by {
                        assert(choose_rel(e, p + 1, Seq::empty(), Seq::empty(), Ok((bs, eb, q as int))) && choose_made(x, bs, eb) && spans(x, p, q as int, e.len()));
                    }
                }
                Ok((Some(x), q))
            },
            Err(err) => {
                proof {
                    assert(choose_rel(e, p + 1, Seq::empty(), Seq::empty(), Err(err_view(err))));
                }
                Err(err)
            },
        }
    } else if str_eq(t.name.as_str(), "names") {
        match parse_names_kids(evs, pos + 1) {
            Ok((n, a, l, s, q)) => {
                let ghost k: NamesKids = (n, a, l, s@);
                let x = make_names(t, n, a, l, s);
                proof {
                    assert forall|r: Result<(Seq<Element>, int), ErrV>| #[trigger]
                        body_rel(e, q as int, parent, push_opt(acc, Some(x)), r) implies body_start(e, p, tv, parent, acc, r) by {
                        assert(names_rel(e, p + 1, (None, None, None, Seq::empty()), Ok((k, q as int))) && names_made(x, tv, k) && spans(x, p, q as int, e.len()));
                    }
                }
                Ok((Some(x), q))
            },
            Err(err) => {
                proof {
                    assert(names_rel(e, p + 1, (None, None, None, Seq::empty()), Err(err_view(err))));
                }
                Err(err)
            },
        }
    } else if str_eq(t.name.as_str(), "date") {
        match parse_date_parts(evs, pos + 1) {
            Ok((ps, q)) => {
                let ghost pv = ps@;
                let x = make_date(t, ps);
                proof {
                    assert forall|r: Result<(Seq<Element>, int), ErrV>| #[trigger]
                        body_rel(e, q as int, parent, push_opt(acc, Some(x)), r) implies body_start(e, p, tv, parent, acc, r) by {
                        assert(date_parts_rel(e, p + 1, Ok((pv, q as int))) && date_made(x, tv, pv) && spans(x, p, q as int, e.len()));
                    }
                }
                Ok((Some(x), q))
            },
            Err(err) => {
                proof {
                    assert(date_parts_rel(e, p + 1, Err(err_view(err))));
                }
                Err(err)
            },
        }
    } else {
        match skip_to_end(evs, pos + 1, t.name.as_str()) {
            Ok(q) => {
                proof {
                    assert forall|r: Result<(Seq<Element>, int), ErrV>| #[trigger]
                        body_rel(e, q as int, parent, push_opt(acc, None), r) implies body_start(e, p, tv, parent, acc, r) by {}
                }
                Ok((None, q))
            },
            Err(err) => Err(err),
        }
    }
}

/// Reads the branches of a `<choose>` up to its end tag.
pub fn parse_choose(evs: &Vec<XmlEvent>, start: usize) -> (r: Result<(ChooseElement, usize), ParseError>)
    requires
        start <= evs@.len(),
    ensures
        choose_rel(evs_view(evs@), start as int, Seq::empty(), Seq::empty(), choose_out(r)),
        r matches Ok((_, q)) ==> start <= q <= evs@.len(),
    decreases evs@.len() - start, 1nat,
{
    let ghost e = evs_view(evs@);
    let mut branches: Vec<ChooseBranch> = Vec::new();
    let mut else_body: Vec<Element> = Vec::new();
    let mut pos: usize = start;
    loop
        invariant
            start <= pos <= evs@.len(),
            e == evs_view(evs@),
            forall|r: Result<(Seq<ChooseBranch>, Seq<Element>, int), ErrV>| #[trigger]
                choose_rel(e, pos as int, branches@, else_body@, r) ==> choose_rel(
                    e,
                    start as int,
                    Seq::empty(),
                    Seq::empty(),
                    r,
                ),
        decreases evs@.len() - pos,
    {
        let ghost p0 = pos as int;
        let ghost b0 = branches@;
        let ghost eb0 = else_body@;
        if pos >= evs.len() {
            proof {
                assert(choose_rel(e, p0, b0, eb0, Ok((b0, eb0, p0))));
            }
            return Ok((ChooseElement { branches, else_body }, pos));
        }
        proof {
            assert(e[p0] == ev_view(evs@[p0]));
        }
        match &evs[pos] {
            XmlEvent::Failed(m) => {
                let err = ParseError::Xml(m.clone());
                proof {
                    assert(choose_rel(e, p0, b0, eb0, Err(err_view(err))));
                }
                return Err(err);
            },
            XmlEvent::Eof => {
                proof {
                    assert(choose_rel(e, p0, b0, eb0, Ok((b0, eb0, p0))));
                }
                return Ok((ChooseElement { branches, else_body }, pos));
            },
            XmlEvent::End(n) => {
                if str_eq(n.as_str(), "choose") {
                    proof {
                        assert(choose_rel(e, p0, b0, eb0, Ok((b0, eb0, p0 + 1))));
                    }
                    return Ok((ChooseElement { branches, else_body }, pos + 1));
                }
                pos = pos + 1;
                proof {
                    assert forall|r: Result<(Seq<ChooseBranch>, Seq<Element>, int), ErrV>| #[trigger]
                        choose_rel(e, pos as int, branches@, else_body@, r) implies choose_rel(e, p0, b0, eb0, r) by {}
                }
            },
            XmlEvent::Empty(t) => {
                let ghost tv = tag_view(*t);
                if str_eq(t.name.as_str(), "if") || str_eq(t.name.as_str(), "else-if") {
                    let br = make_branch(t, Vec::new());
                    let ghost bg = br;
                    branches.push(br);
                    pos = pos + 1;
                    proof {
                        assert forall|r: Result<(Seq<ChooseBranch>, Seq<Element>, int), ErrV>| #[trigger]
                            choose_rel(e, pos as int, branches@, else_body@, r) implies choose_rel(e, p0, b0, eb0, r) by {
                            assert(branch_made(bg, tv, Seq::empty()) && choose_rel(e, p0 + 1, b0.push(bg), eb0, r));
                        }
                    }
                } else {
                    pos = pos + 1;
                    proof {
                        assert forall|r: Result<(Seq<ChooseBranch>, Seq<Element>, int), ErrV>| #[trigger]
                            choose_rel(e, pos as int, branches@, else_body@, r) implies choose_rel(e, p0, b0, eb0, r) by {}
                    }
                }
            },
            XmlEvent::Start(t) => {
                let ghost tv = tag_view(*t);
                if str_eq(t.name.as_str(), "if") || str_eq(t.name.as_str(), "else-if") {
                    match parse_layout_body(evs, pos + 1, t.name.as_str()) {
                        Ok((b, q)) => {
                            let ghost bv = b@;
                            let br = make_branch(t, b);
                            let ghost bg = br;
                            branches.push(br);
                            pos = q;
                            proof {
                                assert forall|r: Result<(Seq<ChooseBranch>, Seq<Element>, int), ErrV>| #[trigger]
                                    choose_rel(e, pos as int, branches@, else_body@, r) implies choose_rel(e, p0, b0, eb0, r) by {
                                    assert(body_rel(e, p0 + 1, tv.name, Seq::empty(), Ok((bv, pos as int))) && branch_made(bg, tv, bv) && spans(bv, p0, pos as int, e.len()));
                                }
                            }
                        },
                        Err(err) => {
                            proof {
                                assert(body_rel(e, p0 + 1, tv.name, Seq::empty(), Err(err_view(err))));
                                assert(choose_rel(e, p0, b0, eb0, Err(err_view(err))));
                            }
                            return Err(err);
                        },
                    }
                } else if str_eq(t.name.as_str(), "else") {
                    match parse_layout_body(evs, pos + 1, "else") {
                        Ok((b, q)) => {
                            else_body = b;
                            pos = q;
                            proof {
                                assert forall|r: Result<(Seq<ChooseBranch>, Seq<Element>, int), ErrV>| #[trigger]
                                    choose_rel(e, pos as int, branches@, else_body@, r) implies choose_rel(e, p0, b0, eb0, r) by {
                                    assert(spans(else_body@, p0, pos as int, e.len()) && body_rel(e, p0 + 1, "else"@, Seq::empty(), Ok((else_body@, pos as int))));
                                }
                            }
                        },
                        Err(err) => {
                            proof {
                                assert(body_rel(e, p0 + 1, "else"@, Seq::empty(), Err(err_view(err))));
                                assert(choose_rel(e, p0, b0, eb0, Err(err_view(err))));
                            }
                            return Err(err);
                        },
                    }
                } else {
                    match skip_to_end(evs, pos + 1, t.name.as_str()) {
                        Ok(q) => {
                            pos = q;
                            proof {
                                assert forall|r: Result<(Seq<ChooseBranch>, Seq<Element>, int), ErrV>| #[trigger]
                                    choose_rel(e, pos as int, branches@, else_body@, r) implies choose_rel(e, p0, b0, eb0, r) by {}
                            }
                        },
                        Err(err) => {
                            proof {
                                assert(choose_rel(e, p0, b0, eb0, Err(err_view(err))));
                            }
                            return Err(err);
                        },
                    }
                }
            },
            _ => {
                pos = pos + 1;
                proof {
                    assert forall|r: Result<(Seq<ChooseBranch>, Seq<Element>, int), ErrV>| #[trigger]
                        choose_rel(e, pos as int, branches@, else_body@, r) implies choose_rel(e, p0, b0, eb0, r) by {}
                }
            },
        }
    }
}

/// Reads the children of a `<names>` up to its end tag: its `<name>`,
/// `<et-al>`, `<label>` (the last of each) and `<substitute>` body.
pub fn parse_names_kids(evs: &Vec<XmlEvent>, start: usize) -> (r: Result<
    (Option<NameElement>, Option<EtAlElement>, Option<LabelElement>, Vec<Element>, usize),
    ParseError,
>)
    requires
        start <= evs@.len(),
    ensures
        names_rel(evs_view(evs@), start as int, (None, None, None, Seq::empty()), names_out(r)),
        r matches Ok((_, _, _, _, q)) ==> start <= q <= evs@.len(),
    decreases evs@.len() - start, 1nat,
{
    let ghost e = evs_view(evs@);
    let mut name: Option<NameElement> = None;
    let mut et_al: Option<EtAlElement> = None;
    let mut label: Option<LabelElement> = None;
    let mut substitute: Vec<Element> = Vec::new();
    let mut pos: usize = start;
    loop
        invariant
            start <= pos <= evs@.len(),
            e == evs_view(evs@),
            forall|r: Result<(NamesKids, int), ErrV>| #[trigger]
                names_rel(e, pos as int, (name, et_al, label, substitute@), r) ==> names_rel(
                    e,
                    start as int,
                    (None, None, None, Seq::empty()),
                    r,
                ),
        decreases evs@.len() - pos,
    {
        let ghost p0 = pos as int;
        let ghost k0: NamesKids = (name, et_al, label, substitute@);
        if pos >= evs.len() {
            proof {
                assert(names_rel(e, p0, k0, Ok((k0, p0))));
            }
            return Ok((name, et_al, label, substitute, pos));
        }
        proof {
            assert(e[p0] == ev_view(evs@[p0]));
        }
        match &evs[pos] {
            XmlEvent::Failed(m) => {
                let err = ParseError::Xml(m.clone());
                proof {
                    assert(names_rel(e, p0, k0, Err(err_view(err))));
                }
                return Err(err);
            },
            XmlEvent::Eof => {
                proof {
                    assert(names_rel(e, p0, k0, Ok((k0, p0))));
                }
                return Ok((name, et_al, label, substitute, pos));
            },
            XmlEvent::End(n) => {
                if str_eq(n.as_str(), "names") {
                    proof {
                        assert(names_rel(e, p0, k0, Ok((k0, p0 + 1))));
                    }
                    return Ok((name, et_al, label, substitute, pos + 1));
                }
                pos = pos + 1;
            },
            XmlEvent::Empty(t) => {
                let ghost tv = tag_view(*t);
                if str_eq(t.name.as_str(), "name") {
                    let n = make_name(t, Vec::new());
                    proof {
                        assert(name_made(n, tv, Seq::empty()));
                    }
                    name = Some(n);
                } else if str_eq(t.name.as_str(), "et-al") {
                    let a = parse_et_al(t);
                    proof {
                        assert(et_al_from_tag(a, tv));
                    }
                    et_al = Some(a);
                } else if str_eq(t.name.as_str(), "label") {
                    let l = parse_label(t);
                    proof {
                        assert(label_from_tag(l, tv));
                    }
                    label = Some(l);
                }
                pos = pos + 1;
            },
            XmlEvent::Start(t) => {
                let ghost tv = tag_view(*t);
                if str_eq(t.name.as_str(), "name") {
                    match parse_name_parts(evs, pos + 1) {
                        Ok((ps, q)) => {
                            let ghost pv = ps@;
                            let n = make_name(t, ps);
                            proof {
                                assert(name_parts_rel(e, p0 + 1, Ok((pv, q as int))) && name_made(n, tv, pv) && spans(pv, p0, q as int, e.len()));
                            }
                            name = Some(n);
                            pos = q;
                        },
                        Err(err) => {
                            proof {
                                assert(name_parts_rel(e, p0 + 1, Err(err_view(err))));
                                assert(names_rel(e, p0, k0, Err(err_view(err))));
                            }
                            return Err(err);
                        },
                    }
                } else if str_eq(t.name.as_str(), "et-al") {
                    let a = parse_et_al(t);
                    match skip_to_end(evs, pos + 1, "et-al") {
                        Ok(q) => {
                            proof {
                                assert(et_al_from_tag(a, tv));
                            }
                            et_al = Some(a);
                            pos = q;
                        },
                        Err(err) => {
                            proof {
                                assert(et_al_from_tag(a, tv));
                                assert(names_rel(e, p0, k0, Err(err_view(err))));
                            }
                            return Err(err);
                        },
                    }
                } else if str_eq(t.name.as_str(), "label") {
                    let l = parse_label(t);
                    match skip_to_end(evs, pos + 1, "label") {
                        Ok(q) => {
                            proof {
                                assert(label_from_tag(l, tv));
                            }
                            label = Some(l);
                            pos = q;
                        },
                        Err(err) => {
                            proof {
                                assert(label_from_tag(l, tv));
                                assert(names_rel(e, p0, k0, Err(err_view(err))));
                            }
                            return Err(err);
                        },
                    }
                } else if str_eq(t.name.as_str(), "substitute") {
                    match parse_layout_body(evs, pos + 1, "substitute") {
                        Ok((b, q)) => {
                            proof {
                                assert(spans(b@, p0, q as int, e.len()) && body_rel(e, p0 + 1, "substitute"@, Seq::empty(), Ok((b@, q as int))));
                            }
                            substitute = b;
                            pos = q;
                        },
                        Err(err) => {
                            proof {
                                assert(body_rel(e, p0 + 1, "substitute"@, Seq::empty(), Err(err_view(err))));
                                assert(names_rel(e, p0, k0, Err(err_view(err))));
                            }
                            return Err(err);
                        },
                    }
                } else {
                    match skip_to_end(evs, pos + 1, t.name.as_str()) {
                        Ok(q) => {
                            pos = q;
                        },
                        Err(err) => {
                            proof {
                                assert(names_rel(e, p0, k0, Err(err_view(err))));
                            }
                            return Err(err);
                        },
                    }
                }
            },
            _ => {
                pos = pos + 1;
            },
        }
        proof {
            assert forall|r: Result<(NamesKids, int), ErrV>| #[trigger]
                names_rel(e, pos as int, (name, et_al, label, substitute@), r) implies names_rel(e, p0, k0, r) by {}
        }
    }
}

} // verus!
