//! The document readers of the CSL reader: `<style>` and standalone
//! `<locale>` documents, with their terms, sections and macros. Each
//! meets its relation in [`crate::citation::grammar`].

use vstd::prelude::*;

use crate::citation::ast::{Bibliography, Citation, DateElement, DatePart, Element, Formatting, Layout, Locale, Macro, SortKey, Style, StyleClass, StyleOptions, Term, TermBody};
use crate::citation::body::{parse_date_parts, parse_layout_body, parse_sort, read_text_to_end, skip_to_end};
use crate::citation::grammar::{bibliography_made, body_rel, citation_default, citation_made, layout_default, layout_made, section_rel, sort_keys_rel, SectionKids, macro_insert, macro_names, macros_view, MacroTable, doc_out, find_root, locale_doc, locale_from_root, style_doc, style_from_root, style_made, style_rel, style_start, StyleKids, date_format_made, date_parts_rel, err_view, join_text, locale_made, locale_rel, locale_start, seq_out, spans, term_body_scan, term_made, terms_rel, ErrV, LocaleKids, TermTexts};
use crate::citation::parser::{term_form_from, term_gender_from, ParseError};
use crate::citation::reader::{as_opt_str, attr_or_default, parse_date_from_attrs, parse_formatting, parse_style_options};
use crate::citation::xml::{attr, attr_of, attr_xml_lang, bool_attr, ev_view, evs_view, opt_view, tag_view, u32_attr, xml_event_list, xml_events, TagV, XmlEvent, XmlTag};
use crate::text::{chars_lt, chars_of, lemma_insert_sorted, lemma_seq_lt_total, push_all, seq_lt, str_eq, strictly_sorted, string_from_chars, trim};

verus! {

/// The characters of an optional character buffer.
pub open spec fn chars_opt(o: Option<Vec<char>>) -> Option<Seq<char>> {
    match o {
        Some(v) => Some(v@),
        None => None,
    }
}

// ─────────────────────────────────────────────────────────────────
// Terms
// ─────────────────────────────────────────────────────────────────

/// Reads the content of a `<term>` up to its end tag: its `<single>`
/// and `<multiple>` texts and its own non-blank text.
fn parse_term_body(evs: &Vec<XmlEvent>, start: usize) -> (r: Result<
    (Option<String>, Option<String>, Option<Vec<char>>, usize),
    ParseError,
>)
    requires
        start <= evs@.len(),
    ensures
        match r {
            Ok((a, b, c, q)) => term_body_scan(evs_view(evs@), start as int, (None, None, None)) == Ok::<
                (TermTexts, int),
                ErrV,
            >(((opt_view(a), opt_view(b), chars_opt(c)), q as int)) && start <= q <= evs@.len(),
            Err(e) => term_body_scan(evs_view(evs@), start as int, (None, None, None)) == Err::<(TermTexts, int), ErrV>(
                err_view(e),
            ),
        },
{
    let ghost e = evs_view(evs@);
    let mut single: Option<String> = None;
    let mut multiple: Option<String> = None;
    let mut flat: Option<Vec<char>> = None;
    let mut pos: usize = start;
    while pos < evs.len()
        invariant
            start <= pos <= evs@.len(),
            e == evs_view(evs@),
            term_body_scan(e, start as int, (None, None, None)) == term_body_scan(
                e,
                pos as int,
                (opt_view(single), opt_view(multiple), chars_opt(flat)),
            ),
        decreases evs@.len() - pos,
    {
        proof {
            assert(e[pos as int] == ev_view(evs@[pos as int]));
        }
        match &evs[pos] {
            XmlEvent::Failed(m) => {
                return Err(ParseError::Xml(m.clone()));
            },
            XmlEvent::Eof => {
                return Ok((single, multiple, flat, pos));
            },
            XmlEvent::Start(t) => {
                if str_eq(t.name.as_str(), "single") {
                    match read_text_to_end(evs, pos + 1, "single") {
                        Ok((s, q)) => {
                            single = Some(s);
                            pos = q;
                        },
                        Err(err) => {
                            return Err(err);
                        },
                    }
                } else if str_eq(t.name.as_str(), "multiple") {
                    match read_text_to_end(evs, pos + 1, "multiple") {
                        Ok((s, q)) => {
                            multiple = Some(s);
                            pos = q;
                        },
                        Err(err) => {
                            return Err(err);
                        },
                    }
                } else {
                    match skip_to_end(evs, pos + 1, t.name.as_str()) {
                        Ok(q) => {
                            pos = q;
                        },
                        Err(err) => {
                            return Err(err);
                        },
                    }
                }
            },
            XmlEvent::Text(Ok(s)) => {
                let cs = chars_of(s.as_str());
                let tr = trim(cs.as_slice());
                if tr.len() > 0 {
                    let prev = flat;
                    let ghost pv = chars_opt(prev);
                    let mut f: Vec<char> = match prev {
                        Some(v) => v,
                        None => Vec::new(),
                    };
                    push_all(&mut f, cs.as_slice());
                    proof {
                        assert(f@ == join_text(pv, s@));
                    }
                    flat = Some(f);
                }
                pos = pos + 1;
            },
            XmlEvent::Text(Err(m)) => {
                return Err(ParseError::Xml(m.clone()));
            },
            XmlEvent::End(n) => {
                if str_eq(n.as_str(), "term") {
                    return Ok((single, multiple, flat, pos + 1));
                }
                pos = pos + 1;
            },
            _ => {
                pos = pos + 1;
            },
        }
    }
    Ok((single, multiple, flat, pos))
}

/// A `<term>` with the attributes of `t` and the given content.
fn make_term(t: &XmlTag, single: Option<String>, multiple: Option<String>, flat: Option<Vec<char>>) -> (x: Term)
    ensures
        term_made(x, tag_view(*t), (opt_view(single), opt_view(multiple), chars_opt(flat))),
{
    let body = match (single, multiple) {
        (Some(s), Some(m)) => TermBody::Plural { single: s, multiple: m },
        _ => TermBody::Flat(
            match flat {
                Some(v) => string_from_chars(v.as_slice()),
                None => String::new(),
            },
        ),
    };
    Term {
        name: attr_or_default(t, "name"),
        form: term_form_from(as_opt_str(&attr(t, "form"))),
        gender: term_gender_from(as_opt_str(&attr(t, "gender"))),
        gender_form: term_gender_from(as_opt_str(&attr(t, "gender-form"))),
        match_attr: attr(t, "match"),
        body,
    }
}

/// Reads the `<term>`s of a `<terms>` up to its end tag.
pub fn parse_terms(evs: &Vec<XmlEvent>, start: usize) -> (r: Result<(Vec<Term>, usize), ParseError>)
    requires
        start <= evs@.len(),
    ensures
        terms_rel(evs_view(evs@), start as int, Seq::empty(), seq_out(r)),
        r matches Ok((_, q)) ==> start <= q <= evs@.len(),
{
    let ghost e = evs_view(evs@);
    let mut acc: Vec<Term> = Vec::new();
    let mut pos: usize = start;
    loop
        invariant
            start <= pos <= evs@.len(),
            e == evs_view(evs@),
            forall|r: Result<(Seq<Term>, int), ErrV>| #[trigger]
                terms_rel(e, pos as int, acc@, r) ==> terms_rel(e, start as int, Seq::empty(), r),
        decreases evs@.len() - pos,
    {
        let ghost p0 = pos as int;
        let ghost a0 = acc@;
        if pos >= evs.len() {
            proof {
                assert(terms_rel(e, p0, a0, Ok((a0, p0))));
            }
            return Ok((acc, pos));
        }
        proof {
            assert(e[p0] == ev_view(evs@[p0]));
        }
        match &evs[pos] {
            XmlEvent::Failed(m) => {
                let err = ParseError::Xml(m.clone());
                proof {
                    assert(terms_rel(e, p0, a0, Err(err_view(err))));
                }
                return Err(err);
            },
            XmlEvent::Eof => {
                proof {
                    assert(terms_rel(e, p0, a0, Ok((a0, p0))));
                }
                return Ok((acc, pos));
            },
            XmlEvent::End(n) => {
                if str_eq(n.as_str(), "terms") {
                    proof {
                        assert(terms_rel(e, p0, a0, Ok((a0, p0 + 1))));
                    }
                    return Ok((acc, pos + 1));
                }
                pos = pos + 1;
            },
            XmlEvent::Empty(t) => {
                let ghost tv = tag_view(*t);
                if str_eq(t.name.as_str(), "term") {
                    let x = make_term(t, None, None, None);
                    proof {
                        assert(term_made(x, tv, (None, None, None)));
                    }
                    acc.push(x);
                }
                pos = pos + 1;
            },
            XmlEvent::Start(t) => {
                let ghost tv = tag_view(*t);
                if str_eq(t.name.as_str(), "term") {
                    match parse_term_body(evs, pos + 1) {
                        Ok((a, b, c, q)) => {
                            let ghost k: TermTexts = (opt_view(a), opt_view(b), chars_opt(c));
                            let x = make_term(t, a, b, c);
                            let ghost xg = x;
                            acc.push(x);
                            pos = q;
                            proof {
                                assert forall|r: Result<(Seq<Term>, int), ErrV>| #[trigger]
                                    terms_rel(e, pos as int, acc@, r) implies terms_rel(e, p0, a0, r) by {
                                    assert(term_body_scan(e, p0 + 1, (None, None, None)) == Ok::<(TermTexts, int), ErrV>((k, pos as int)));
                                    assert(term_made(xg, tv, k) && spans(k, p0, pos as int, e.len()) && terms_rel(e, pos as int, a0.push(xg), r));
                                }
                            }
                        },
                        Err(err) => {
                            proof {
                                assert(terms_rel(e, p0, a0, Err(err_view(err))));
                            }
                            return Err(err);
                        },
                    }
                } else {
                    match skip_to_end(evs, pos + 1, t.name.as_str()) {
                        Ok(q) => {
                            pos = q;
                        },
                        Err(err) => {
                            proof {
                                assert(terms_rel(e, p0, a0, Err(err_view(err))));
                            }
                            return Err(err);
                        },
                    }
                }
            },
            _ => {
                pos = pos + 1;
            },
        }
        proof {
            assert forall|r: Result<(Seq<Term>, int), ErrV>| #[trigger]
                terms_rel(e, pos as int, acc@, r) implies terms_rel(e, p0, a0, r) by {}
        }
    }
}

// ─────────────────────────────────────────────────────────────────
// Locales
// ─────────────────────────────────────────────────────────────────

/// The outcome of the `<locale>` children reader, as plain values.
pub open spec fn locale_out(
    r: Result<(StyleOptions, Vec<Term>, Option<DateElement>, Option<DateElement>, usize), ParseError>,
) -> Result<(LocaleKids, int), ErrV> {
    match r {
        Ok((o, ts, dt, dn, q)) => Ok(((o, ts@, dt, dn), q as int)),
        Err(e) => Err(err_view(e)),
    }
}

/// A `<date>` format with the attributes of `t` and date parts `parts`.
fn make_date_format(t: &XmlTag, parts: Vec<DatePart>) -> (d: DateElement)
    ensures
        date_format_made(d, tag_view(*t), parts@),
{
    let mut d = parse_date_from_attrs(t);
    d.date_parts = parts;
    d
}

/// The attribute is present and reads `value`.
fn attr_is(t: &XmlTag, name: &str, value: &str) -> (r: bool)
    ensures
        r == (attr_of(tag_view(*t), name@) == Some(value@)),
{
    match attr(t, name) {
        Some(v) => str_eq(v.as_str(), value),
        None => false,
    }
}

/// Reads the children of a `<locale>` up to its end tag: its style
/// options, terms and date formats.
pub fn parse_locale_kids(evs: &Vec<XmlEvent>, start: usize) -> (r: Result<
    (StyleOptions, Vec<Term>, Option<DateElement>, Option<DateElement>, usize),
    ParseError,
>)
    requires
        start <= evs@.len(),
    ensures
        locale_rel(evs_view(evs@), start as int, locale_start(), locale_out(r)),
        r matches Ok((_, _, _, _, q)) ==> start <= q <= evs@.len(),
{
    let ghost e = evs_view(evs@);
    let mut options = StyleOptions { punctuation_in_quote: false, limit_day_ordinals_to_day_1: false };
    let mut terms: Vec<Term> = Vec::new();
    let mut date_text: Option<DateElement> = None;
    let mut date_numeric: Option<DateElement> = None;
    let mut pos: usize = start;
    loop
        invariant
            start <= pos <= evs@.len(),
            e == evs_view(evs@),
            forall|r: Result<(LocaleKids, int), ErrV>| #[trigger]
                locale_rel(e, pos as int, (options, terms@, date_text, date_numeric), r) ==> locale_rel(
                    e,
                    start as int,
                    locale_start(),
                    r,
                ),
        decreases evs@.len() - pos,
    {
        let ghost p0 = pos as int;
        let ghost k0: LocaleKids = (options, terms@, date_text, date_numeric);
        if pos >= evs.len() {
            proof {
                assert(locale_rel(e, p0, k0, Ok((k0, p0))));
            }
            return Ok((options, terms, date_text, date_numeric, pos));
        }
        proof {
            assert(e[p0] == ev_view(evs@[p0]));
        }
        match &evs[pos] {
            XmlEvent::Failed(m) => {
                let err = ParseError::Xml(m.clone());
                proof {
                    assert(locale_rel(e, p0, k0, Err(err_view(err))));
                }
                return Err(err);
            },
            XmlEvent::Eof => {
                proof {
                    assert(locale_rel(e, p0, k0, Ok((k0, p0))));
                }
                return Ok((options, terms, date_text, date_numeric, pos));
            },
            XmlEvent::End(n) => {
                if str_eq(n.as_str(), "locale") {
                    proof {
                        assert(locale_rel(e, p0, k0, Ok((k0, p0 + 1))));
                    }
                    return Ok((options, terms, date_text, date_numeric, pos + 1));
                }
                pos = pos + 1;
            },
            XmlEvent::Empty(t) => {
                if str_eq(t.name.as_str(), "style-options") {
                    options = parse_style_options(t);
                }
                pos = pos + 1;
            },
            XmlEvent::Start(t) => {
                let ghost tv = tag_view(*t);
                if str_eq(t.name.as_str(), "style-options") {
                    let o = parse_style_options(t);
                    match skip_to_end(evs, pos + 1, "style-options") {
                        Ok(q) => {
                            options = o;
                            pos = q;
                        },
                        Err(err) => {
                            proof {
                                assert(locale_rel(e, p0, k0, Err(err_view(err))));
                            }
                            return Err(err);
                        },
                    }
                } else if str_eq(t.name.as_str(), "terms") {
                    match parse_terms(evs, pos + 1) {
                        Ok((ts, q)) => {
                            proof {
                                assert(spans(ts@, p0, q as int, e.len()) && terms_rel(e, p0 + 1, Seq::empty(), Ok((ts@, q as int))));
                            }
                            terms = ts;
                            pos = q;
                        },
                        Err(err) => {
                            proof {
                                assert(terms_rel(e, p0 + 1, Seq::empty(), Err(err_view(err))));
                                assert(locale_rel(e, p0, k0, Err(err_view(err))));
                            }
                            return Err(err);
                        },
                    }
                } else if str_eq(t.name.as_str(), "date") && attr_is(t, "form", "text") {
                    match parse_date_parts(evs, pos + 1) {
                        Ok((ps, q)) => {
                            let ghost pv = ps@;
                            let d = make_date_format(t, ps);
                            proof {
                                assert(date_parts_rel(e, p0 + 1, Ok((pv, q as int))) && date_format_made(d, tv, pv) && spans(pv, p0, q as int, e.len()));
                            }
                            date_text = Some(d);
                            pos = q;
                        },
                        Err(err) => {
                            proof {
                                assert(date_parts_rel(e, p0 + 1, Err(err_view(err))));
                                assert(locale_rel(e, p0, k0, Err(err_view(err))));
                            }
                            return Err(err);
                        },
                    }
                } else if str_eq(t.name.as_str(), "date") && attr_is(t, "form", "numeric") {
                    match parse_date_parts(evs, pos + 1) {
                        Ok((ps, q)) => {
                            let ghost pv = ps@;
                            let d = make_date_format(t, ps);
                            proof {
                                assert(date_parts_rel(e, p0 + 1, Ok((pv, q as int))) && date_format_made(d, tv, pv) && spans(pv, p0, q as int, e.len()));
                            }
                            date_numeric = Some(d);
                            pos = q;
                        },
                        Err(err) => {
                            proof {
                                assert(date_parts_rel(e, p0 + 1, Err(err_view(err))));
                                assert(locale_rel(e, p0, k0, Err(err_view(err))));
                            }
                            return Err(err);
                        },
                    }
                } else {
                    match skip_to_end(evs, pos + 1, t.name.as_str()) {
                        Ok(q) => {
                            pos = q;
                        },
                        Err(err) => {
                            proof {
                                assert(locale_rel(e, p0, k0, Err(err_view(err))));
                            }
                            return Err(err);
                        },
                    }
                }
            },
            _ => {
                pos = pos + 1;
            },
        }
        proof {
            assert forall|r: Result<(LocaleKids, int), ErrV>| #[trigger]
                locale_rel(e, pos as int, (options, terms@, date_text, date_numeric), r) implies locale_rel(e, p0, k0, r) by {}
        }
    }
}

/// A `<locale>` with the `xml:lang` of `t` and the given children.
fn make_locale(
    t: &XmlTag,
    style_options: StyleOptions,
    terms: Vec<Term>,
    date_text: Option<DateElement>,
    date_numeric: Option<DateElement>,
) -> (loc: Locale)
    ensures
        locale_made(loc, tag_view(*t), (style_options, terms@, date_text, date_numeric)),
{
    Locale { lang: attr_xml_lang(t), style_options, terms, date_text, date_numeric }
}

// ─────────────────────────────────────────────────────────────────
// <citation> and <bibliography>
// ─────────────────────────────────────────────────────────────────

/// The outcome of a section reader, as plain values.
pub open spec fn section_out(r: Result<(Option<Layout>, Vec<SortKey>, usize), ParseError>) -> Result<(SectionKids, int), ErrV> {
    match r {
        Ok((l, ks, q)) => Ok(((l, ks@), q as int)),
        Err(e) => Err(err_view(e)),
    }
}

/// A `<layout>` with the attributes of `t` and body `body`.
fn make_layout(t: &XmlTag, body: Vec<Element>) -> (l: Layout)
    ensures
        layout_made(l, tag_view(*t), body@),
{
    Layout {
        delimiter: attr(t, "delimiter"),
        prefix: attr(t, "prefix"),
        suffix: attr(t, "suffix"),
        formatting: parse_formatting(t),
        body,
    }
}

/// The layout of a section that has none.
fn default_layout() -> (l: Layout)
    ensures
        layout_default(l),
{
    Layout { delimiter: None, prefix: None, suffix: None, formatting: Formatting::plain(), body: Vec::new() }
}

/// Reads the children of a `<citation>` or `<bibliography>` (named
/// `parent`) up to its end tag: its layout and sort keys.
pub fn parse_section(evs: &Vec<XmlEvent>, start: usize, parent: &str) -> (r: Result<
    (Option<Layout>, Vec<SortKey>, usize),
    ParseError,
>)
    requires
        start <= evs@.len(),
    ensures
        section_rel(evs_view(evs@), start as int, parent@, (None, Seq::empty()), section_out(r)),
        r matches Ok((_, _, q)) ==> start <= q <= evs@.len(),
{
    let ghost e = evs_view(evs@);
    let mut layout: Option<Layout> = None;
    let mut sort: Vec<SortKey> = Vec::new();
    let mut pos: usize = start;
    loop
        invariant
            start <= pos <= evs@.len(),
            e == evs_view(evs@),
            forall|r: Result<(SectionKids, int), ErrV>| #[trigger]
                section_rel(e, pos as int, parent@, (layout, sort@), r) ==> section_rel(
                    e,
                    start as int,
                    parent@,
                    (None, Seq::empty()),
                    r,
                ),
        decreases evs@.len() - pos,
    {
        let ghost p0 = pos as int;
        let ghost k0: SectionKids = (layout, sort@);
        if pos >= evs.len() {
            proof {
                assert(section_rel(e, p0, parent@, k0, Ok((k0, p0))));
            }
            return Ok((layout, sort, pos));
        }
        proof {
            assert(e[p0] == ev_view(evs@[p0]));
        }
        match &evs[pos] {
            XmlEvent::Failed(m) => {
                let err = ParseError::Xml(m.clone());
                proof {
                    assert(section_rel(e, p0, parent@, k0, Err(err_view(err))));
                }
                return Err(err);
            },
            XmlEvent::Eof => {
                proof {
                    assert(section_rel(e, p0, parent@, k0, Ok((k0, p0))));
                }
                return Ok((layout, sort, pos));
            },
            XmlEvent::End(n) => {
                if str_eq(n.as_str(), parent) {
                    proof {
                        assert(section_rel(e, p0, parent@, k0, Ok((k0, p0 + 1))));
                    }
                    return Ok((layout, sort, pos + 1));
                }
                pos = pos + 1;
            },
            XmlEvent::Start(t) => {
                let ghost tv = tag_view(*t);
                if str_eq(t.name.as_str(), "layout") {
                    match parse_layout_body(evs, pos + 1, "layout") {
                        Ok((b, q)) => {
                            let ghost bv = b@;
                            let l = make_layout(t, b);
                            proof {
                                assert(body_rel(e, p0 + 1, "layout"@, Seq::empty(), Ok((bv, q as int))) && layout_made(l, tv, bv) && spans(bv, p0, q as int, e.len()));
                            }
                            layout = Some(l);
                            pos = q;
                        },
                        Err(err) => {
                            proof {
                                assert(body_rel(e, p0 + 1, "layout"@, Seq::empty(), Err(err_view(err))));
                                assert(section_rel(e, p0, parent@, k0, Err(err_view(err))));
                            }
                            return Err(err);
                        },
                    }
                } else if str_eq(t.name.as_str(), "sort") {
                    match parse_sort(evs, pos + 1) {
                        Ok((ks, q)) => {
                            proof {
                                assert(spans(ks@, p0, q as int, e.len()) && sort_keys_rel(e, p0 + 1, Ok((ks@, q as int))));
                            }
                            sort = ks;
                            pos = q;
                        },
                        Err(err) => {
                            proof {
                                assert(sort_keys_rel(e, p0 + 1, Err(err_view(err))));
                                assert(section_rel(e, p0, parent@, k0, Err(err_view(err))));
                            }
                            return Err(err);
                        },
                    }
                } else {
                    match skip_to_end(evs, pos + 1, t.name.as_str()) {
                        Ok(q) => {
                            pos = q;
                        },
                        Err(err) => {
                            proof {
                                assert(section_rel(e, p0, parent@, k0, Err(err_view(err))));
                            }
                            return Err(err);
                        },
                    }
                }
            },
            _ => {
                pos = pos + 1;
            },
        }
        proof {
            assert forall|r: Result<(SectionKids, int), ErrV>| #[trigger]
                section_rel(e, pos as int, parent@, (layout, sort@), r) implies section_rel(e, p0, parent@, k0, r) by {}
        }
    }
}

/// A `<citation>` with the attributes of `t` and the given children.
fn make_citation(t: &XmlTag, layout: Option<Layout>, sort: Vec<SortKey>) -> (c: Citation)
    ensures
        citation_made(c, tag_view(*t), (layout, sort@)),
{
    let layout = match layout {
        Some(l) => l,
        None => default_layout(),
    };
    Citation {
        layout,
        sort,
        et_al_min: u32_attr(t, "et-al-min"),
        et_al_use_first: u32_attr(t, "et-al-use-first"),
        et_al_subsequent_min: u32_attr(t, "et-al-subsequent-min"),
        et_al_subsequent_use_first: u32_attr(t, "et-al-subsequent-use-first"),
        et_al_use_last: bool_attr(t, "et-al-use-last"),
        disambiguate_add_givenname: bool_attr(t, "disambiguate-add-givenname"),
        disambiguate_add_names: bool_attr(t, "disambiguate-add-names"),
        disambiguate_add_year_suffix: bool_attr(t, "disambiguate-add-year-suffix"),
        givenname_disambiguation_rule: attr(t, "givenname-disambiguation-rule"),
        collapse: attr(t, "collapse"),
        names_delimiter: attr(t, "names-delimiter"),
        name_delimiter: attr(t, "name-delimiter"),
        initialize_with_hyphen: bool_attr(t, "initialize-with-hyphen"),
    }
}

/// The citation of a style that has none.
fn default_citation() -> (c: Citation)
    ensures
        citation_default(c),
{
    Citation {
        layout: default_layout(),
        sort: Vec::new(),
        et_al_min: None,
        et_al_use_first: None,
        et_al_subsequent_min: None,
        et_al_subsequent_use_first: None,
        et_al_use_last: false,
        disambiguate_add_givenname: false,
        disambiguate_add_names: false,
        disambiguate_add_year_suffix: false,
        givenname_disambiguation_rule: None,
        collapse: None,
        names_delimiter: None,
        name_delimiter: None,
        initialize_with_hyphen: false,
    }
}

/// A `<bibliography>` with the attributes of `t` and the given children.
fn make_bibliography(t: &XmlTag, layout: Option<Layout>, sort: Vec<SortKey>) -> (b: Bibliography)
    ensures
        bibliography_made(b, tag_view(*t), (layout, sort@)),
{
    let layout = match layout {
        Some(l) => l,
        None => default_layout(),
    };
    Bibliography {
        layout,
        sort,
        hanging_indent: bool_attr(t, "hanging-indent"),
        line_spacing: attr(t, "line-spacing"),
        entry_spacing: attr(t, "entry-spacing"),
        second_field_align: attr(t, "second-field-align"),
        subsequent_author_substitute: attr(t, "subsequent-author-substitute"),
        subsequent_author_substitute_rule: attr(t, "subsequent-author-substitute-rule"),
        et_al_min: u32_attr(t, "et-al-min"),
        et_al_use_first: u32_attr(t, "et-al-use-first"),
        et_al_use_last: false,
        names_delimiter: attr(t, "names-delimiter"),
        name_delimiter: attr(t, "name-delimiter"),
    }
}

// ─────────────────────────────────────────────────────────────────
// Macros
// ─────────────────────────────────────────────────────────────────

/// Where `k` goes in a table whose first `i` names are below it and
/// whose `i`-th name is not: the table with it set.
pub proof fn lemma_macro_insert_at(s: MacroTable, k: Seq<char>, v: Seq<Element>, i: int)
    requires
        0 <= i <= s.len(),
        forall|j: int| 0 <= j < i ==> seq_lt(#[trigger] s[j].0, k),
        i < s.len() ==> !seq_lt(s[i].0, k),
    ensures
        macro_insert(s, k, v) == (if i < s.len() && s[i].0 == k {
            s.take(i) + seq![(k, v)] + s.skip(i + 1)
        } else {
            s.take(i) + seq![(k, v)] + s.skip(i)
        }),
    decreases i,
{
    if i == 0 {
        if s.len() == 0 {
            assert(s.take(0) + seq![(k, v)] + s.skip(0) =~= seq![(k, v)]);
        } else {
            lemma_seq_lt_total(s[0].0, k);
            if s[0].0 == k {
                assert(s.take(0) + seq![(k, v)] + s.skip(1) =~= s.update(0, (k, v)));
            } else {
                assert(s.take(0) + seq![(k, v)] + s.skip(0) =~= seq![(k, v)] + s);
            }
        }
    } else {
        lemma_seq_lt_total(s[0].0, k);
        assert(s[0].0 != k);
        let t = s.drop_first();
        assert forall|j: int| 0 <= j < i - 1 implies seq_lt(#[trigger] t[j].0, k) by {
            assert(t[j] == s[j + 1]);
        }
        lemma_macro_insert_at(t, k, v, i - 1);
        if i < s.len() && s[i].0 == k {
            assert(seq![s[0]] + (t.take(i - 1) + seq![(k, v)] + t.skip(i)) =~= s.take(i) + seq![(k, v)] + s.skip(i + 1));
        } else {
            assert(seq![s[0]] + (t.take(i - 1) + seq![(k, v)] + t.skip(i - 1)) =~= s.take(i) + seq![(k, v)] + s.skip(i));
        }
    }
}

/// Sets macro `name` to `body`, keeping the table ordered by name.
fn insert_macro(macros: &mut Vec<Macro>, name: String, body: Vec<Element>)
    requires
        strictly_sorted(macro_names(macros_view(old(macros)@))),
    ensures
        macros_view(final(macros)@) == macro_insert(macros_view(old(macros)@), name@, body@),
        strictly_sorted(macro_names(macros_view(final(macros)@))),
{
    let ghost s = macros_view(macros@);
    let ghost k = name@;
    let ghost v = body@;
    let nc = chars_of(name.as_str());
    let mut i: usize = 0;
    while i < macros.len() && chars_lt(chars_of(macros[i].name.as_str()).as_slice(), nc.as_slice())
        invariant
            i <= macros@.len(),
            macros_view(macros@) == s,
            nc@ == k,
            forall|j: int| 0 <= j < i ==> seq_lt(#[trigger] s[j].0, k),
        decreases macros@.len() - i,
    {
        proof {
            assert(s[i as int].0 == macros@[i as int].name@);
        }
        i = i + 1;
    }
    let ghost names = macro_names(s);
    proof {
        if i < macros@.len() {
            assert(s[i as int].0 == macros@[i as int].name@);
        }
        lemma_macro_insert_at(s, k, v, i as int);
    }
    if i < macros.len() && str_eq(macros[i].name.as_str(), name.as_str()) {
        let _replaced = macros.remove(i);
        macros.insert(i, Macro { name, body });
        proof {
            assert(macros_view(macros@) =~= s.take(i as int) + seq![(k, v)] + s.skip(i as int + 1));
            assert(macro_names(macros_view(macros@)) =~= names);
        }
    } else {
        macros.insert(i, Macro { name, body });
        proof {
            assert(macros_view(macros@) =~= s.take(i as int) + seq![(k, v)] + s.skip(i as int));
            assert forall|j: int| 0 <= j < i implies seq_lt(#[trigger] names[j], k) by {
                assert(names[j] == s[j].0);
            }
            if i < names.len() {
                lemma_seq_lt_total(s[i as int].0, k);
                assert(names[i as int] == s[i as int].0);
            }
            lemma_insert_sorted(names, i as int, k);
            assert(macro_names(macros_view(macros@)) =~= names.insert(i as int, k));
        }
    }
}

// ─────────────────────────────────────────────────────────────────
// <style>
// ─────────────────────────────────────────────────────────────────

/// The outcome of the `<style>` children reader, as plain values.
pub open spec fn style_out(
    r: Result<(Option<Citation>, Option<Bibliography>, Vec<Macro>, Vec<Locale>, usize), ParseError>,
) -> Result<(StyleKids, int), ErrV> {
    match r {
        Ok((c, b, m, l, q)) => Ok(((c, b, macros_view(m@), l@), q as int)),
        Err(e) => Err(err_view(e)),
    }
}

/// Reads the children of a `<style>` up to its end tag: its citation,
/// bibliography, macros and in-style locales.
pub fn parse_style_kids(evs: &Vec<XmlEvent>, start: usize) -> (r: Result<
    (Option<Citation>, Option<Bibliography>, Vec<Macro>, Vec<Locale>, usize),
    ParseError,
>)
    requires
        start <= evs@.len(),
    ensures
        style_rel(evs_view(evs@), start as int, style_start(), style_out(r)),
        match r {
            Ok((_, _, m, _, q)) => start <= q <= evs@.len() && strictly_sorted(macro_names(macros_view(m@))),
            Err(_) => true,
        },
{
    let ghost e = evs_view(evs@);
    let mut citation: Option<Citation> = None;
    let mut bibliography: Option<Bibliography> = None;
    let mut macros: Vec<Macro> = Vec::new();
    let mut locales: Vec<Locale> = Vec::new();
    let mut pos: usize = start;
    proof {
        assert(macros_view(macros@) =~= Seq::empty());
    }
    loop
        invariant
            start <= pos <= evs@.len(),
            e == evs_view(evs@),
            strictly_sorted(macro_names(macros_view(macros@))),
            forall|r: Result<(StyleKids, int), ErrV>| #[trigger]
                style_rel(e, pos as int, (citation, bibliography, macros_view(macros@), locales@), r) ==> style_rel(
                    e,
                    start as int,
                    style_start(),
                    r,
                ),
        decreases evs@.len() - pos,
    {
        let ghost p0 = pos as int;
        let ghost k0: StyleKids = (citation, bibliography, macros_view(macros@), locales@);
        if pos >= evs.len() {
            proof {
                assert(style_rel(e, p0, k0, Ok((k0, p0))));
            }
            return Ok((citation, bibliography, macros, locales, pos));
        }
        proof {
            assert(e[p0] == ev_view(evs@[p0]));
        }
        match &evs[pos] {
            XmlEvent::Failed(m) => {
                let err = ParseError::Xml(m.clone());
                proof {
                    assert(style_rel(e, p0, k0, Err(err_view(err))));
                }
                return Err(err);
            },
            XmlEvent::Eof => {
                proof {
                    assert(style_rel(e, p0, k0, Ok((k0, p0))));
                }
                return Ok((citation, bibliography, macros, locales, pos));
            },
            XmlEvent::End(n) => {
                if str_eq(n.as_str(), "style") {
                    proof {
                        assert(style_rel(e, p0, k0, Ok((k0, p0 + 1))));
                    }
                    return Ok((citation, bibliography, macros, locales, pos + 1));
                }
                pos = pos + 1;
            },
            XmlEvent::Empty(t) => {
                let ghost tv = tag_view(*t);
                if str_eq(t.name.as_str(), "locale") {
                    let loc = make_locale(
                        t,
                        StyleOptions { punctuation_in_quote: false, limit_day_ordinals_to_day_1: false },
                        Vec::new(),
                        None,
                        None,
                    );
                    proof {
                        assert(locale_made(loc, tv, locale_start()));
                    }
                    locales.push(loc);
                }
                pos = pos + 1;
            },
            XmlEvent::Start(t) => {
                let ghost tv = tag_view(*t);
                if str_eq(t.name.as_str(), "citation") {
                    match parse_section(evs, pos + 1, "citation") {
                        Ok((l, ks, q)) => {
                            let ghost sk: SectionKids = (l, ks@);
                            let c = make_citation(t, l, ks);
                            proof {
                                assert(section_rel(e, p0 + 1, "citation"@, (None, Seq::empty()), Ok((sk, q as int))) && citation_made(c, tv, sk) && spans(sk, p0, q as int, e.len()));
                            }
                            citation = Some(c);
                            pos = q;
                        },
                        Err(err) => {
                            proof {
                                assert(style_rel(e, p0, k0, Err(err_view(err))));
                            }
                            return Err(err);
                        },
                    }
                } else if str_eq(t.name.as_str(), "bibliography") {
                    match parse_section(evs, pos + 1, "bibliography") {
                        Ok((l, ks, q)) => {
                            let ghost sk: SectionKids = (l, ks@);
                            let b = make_bibliography(t, l, ks);
                            proof {
                                assert(section_rel(e, p0 + 1, "bibliography"@, (None, Seq::empty()), Ok((sk, q as int))) && bibliography_made(b, tv, sk) && spans(sk, p0, q as int, e.len()));
                            }
                            bibliography = Some(b);
                            pos = q;
                        },
                        Err(err) => {
                            proof {
                                assert(style_rel(e, p0, k0, Err(err_view(err))));
                            }
                            return Err(err);
                        },
                    }
                } else if str_eq(t.name.as_str(), "macro") {
                    let name = match attr(t, "name") {
                        Some(v) => v,
                        None => {
                            let err = ParseError::MissingAttr { element: "macro".to_owned(), attr: "name".to_owned() };
                            proof {
                                assert(style_rel(e, p0, k0, Err(err_view(err))));
                            }
                            return Err(err);
                        },
                    };
                    match parse_layout_body(evs, pos + 1, "macro") {
                        Ok((b, q)) => {
                            proof {
                                assert(spans(b@, p0, q as int, e.len()) && body_rel(e, p0 + 1, "macro"@, Seq::empty(), Ok((b@, q as int))));
                            }
                            insert_macro(&mut macros, name, b);
                            pos = q;
                        },
                        Err(err) => {
                            proof {
                                assert(body_rel(e, p0 + 1, "macro"@, Seq::empty(), Err(err_view(err))));
                                assert(style_rel(e, p0, k0, Err(err_view(err))));
                            }
                            return Err(err);
                        },
                    }
                } else if str_eq(t.name.as_str(), "locale") {
                    match parse_locale_kids(evs, pos + 1) {
                        Ok((o, ts, dt, dn, q)) => {
                            let ghost lk: LocaleKids = (o, ts@, dt, dn);
                            let loc = make_locale(t, o, ts, dt, dn);
                            proof {
                                assert(locale_rel(e, p0 + 1, locale_start(), Ok((lk, q as int))) && locale_made(loc, tv, lk) && spans(lk, p0, q as int, e.len()));
                            }
                            locales.push(loc);
                            pos = q;
                        },
                        Err(err) => {
                            proof {
                                assert(locale_rel(e, p0 + 1, locale_start(), Err(err_view(err))));
                                assert(style_rel(e, p0, k0, Err(err_view(err))));
                            }
                            return Err(err);
                        },
                    }
                } else {
                    match skip_to_end(evs, pos + 1, t.name.as_str()) {
                        Ok(q) => {
                            pos = q;
                        },
                        Err(err) => {
                            proof {
                                assert(style_rel(e, p0, k0, Err(err_view(err))));
                            }
                            return Err(err);
                        },
                    }
                }
            },
            _ => {
                pos = pos + 1;
            },
        }
        proof {
            assert forall|r: Result<(StyleKids, int), ErrV>| #[trigger]
                style_rel(e, pos as int, (citation, bibliography, macros_view(macros@), locales@), r) implies style_rel(
                e,
                p0,
                k0,
                r,
            ) by {}
        }
    }
}

/// A style with the attributes of its root tag `t`, lookup id `id` and
/// the given children.
fn make_style(
    t: &XmlTag,
    id: &str,
    citation: Option<Citation>,
    bibliography: Option<Bibliography>,
    macros: Vec<Macro>,
    locale_overrides: Vec<Locale>,
) -> (s: Style)
    ensures
        style_made(s, tag_view(*t), id@, (citation, bibliography, macros_view(macros@), locale_overrides@)),
{
    let class = if attr_is(t, "class", "note") {
        StyleClass::Note
    } else {
        StyleClass::InText
    };
    let citation = match citation {
        Some(c) => c,
        None => default_citation(),
    };
    Style {
        id: id.to_owned(),
        class,
        default_locale: attr(t, "default-locale"),
        initialize_with: attr(t, "initialize-with"),
        names_delimiter: attr(t, "names-delimiter"),
        demote_non_dropping_particle: attr(t, "demote-non-dropping-particle"),
        page_range_format: attr(t, "page-range-format"),
        citation,
        bibliography,
        macros,
        locale_overrides,
    }
}

// ─────────────────────────────────────────────────────────────────
// Documents
// ─────────────────────────────────────────────────────────────────

/// The position of the first start tag named `name`.
fn find_root_tag(evs: &Vec<XmlEvent>, name: &str) -> (r: Result<usize, ParseError>)
    ensures
        match r {
            Ok(p) => p < evs@.len() && (evs@[p as int] matches XmlEvent::Start(t) && find_root(
                evs_view(evs@),
                0,
                name@,
            ) == Ok::<(TagV, int), ErrV>((tag_view(t), p as int))),
            Err(e) => find_root(evs_view(evs@), 0, name@) == Err::<(TagV, int), ErrV>(err_view(e)),
        },
{
    let ghost e = evs_view(evs@);
    let mut pos: usize = 0;
    while pos < evs.len()
        invariant
            pos <= evs@.len(),
            e == evs_view(evs@),
            find_root(e, 0, name@) == find_root(e, pos as int, name@),
        decreases evs@.len() - pos,
    {
        proof {
            assert(e[pos as int] == ev_view(evs@[pos as int]));
        }
        match &evs[pos] {
            XmlEvent::Start(t) => {
                if str_eq(t.name.as_str(), name) {
                    return Ok(pos);
                }
            },
            XmlEvent::Eof => {
                return Err(ParseError::MissingRoot(name.to_owned()));
            },
            XmlEvent::Failed(m) => {
                return Err(ParseError::Xml(m.clone()));
            },
            _ => {},
        }
        pos = pos + 1;
    }
    Err(ParseError::MissingRoot(name.to_owned()))
}

/// Reads a CSL style from its event stream; `id` is the lookup id the
/// style is filed under (eg. "apa").
pub fn parse_style_events(evs: &Vec<XmlEvent>, id: &str) -> (r: Result<Style, ParseError>)
    ensures
        style_doc(evs_view(evs@), id@, doc_out(r)),
        r matches Ok(s) ==> strictly_sorted(macro_names(macros_view(s.macros@))),
{
    let ghost e = evs_view(evs@);
    let n = evs.len();
    let p = match find_root_tag(evs, "style") {
        Ok(p) => p,
        Err(err) => {
            return Err(err);
        },
    };
    match &evs[p] {
        XmlEvent::Start(t) => {
            let ghost tv = tag_view(*t);
            assert(p + 1 <= n);
            match parse_style_kids(evs, p + 1) {
                Ok((c, b, m, l, q)) => {
                    let ghost k: StyleKids = (c, b, macros_view(m@), l@);
                    let s = make_style(t, id, c, b, m, l);
                    proof {
                        assert(style_rel(e, p + 1, style_start(), Ok((k, q as int))) && style_made(s, tv, id@, k) && spans(k, p as int, q as int, e.len()));
                        assert(style_from_root(e, tv, p as int, id@, Ok(s)));
                    }
                    Ok(s)
                },
                Err(err) => Err(err),
            }
        },
        _ => vstd::pervasive::unreached(),
    }
}

/// Reads a CSL standalone locale from its event stream.
pub fn parse_locale_events(evs: &Vec<XmlEvent>) -> (r: Result<Locale, ParseError>)
    ensures
        locale_doc(evs_view(evs@), doc_out(r)),
{
    let ghost e = evs_view(evs@);
    let n = evs.len();
    let p = match find_root_tag(evs, "locale") {
        Ok(p) => p,
        Err(err) => {
            return Err(err);
        },
    };
    match &evs[p] {
        XmlEvent::Start(t) => {
            let ghost tv = tag_view(*t);
            assert(p + 1 <= n);
            match parse_locale_kids(evs, p + 1) {
                Ok((o, ts, dt, dn, q)) => {
                    let ghost k: LocaleKids = (o, ts@, dt, dn);
                    let loc = make_locale(t, o, ts, dt, dn);
                    proof {
                        assert(locale_rel(e, p + 1, locale_start(), Ok((k, q as int))) && locale_made(loc, tv, k) && spans(k, p as int, q as int, e.len()));
                        assert(locale_from_root(e, tv, p as int, Ok(loc)));
                    }
                    Ok(loc)
                },
                Err(err) => Err(err),
            }
        },
        _ => vstd::pervasive::unreached(),
    }
}

/// Parses a CSL style XML document. `id` is the lookup id (eg. "apa"),
/// not read from the XML.
pub fn parse_style(xml: &str, id: &str) -> (r: Result<Style, ParseError>)
    ensures
        style_doc(xml_event_list(xml@), id@, doc_out(r)),
{
    let evs = xml_events(xml);
    parse_style_events(&evs, id)
}

/// Parses a CSL standalone-locale XML document.
pub fn parse_locale(xml: &str) -> (r: Result<Locale, ParseError>)
    ensures
        locale_doc(xml_event_list(xml@), doc_out(r)),
{
    let evs = xml_events(xml);
    parse_locale_events(&evs)
}

} // verus!
