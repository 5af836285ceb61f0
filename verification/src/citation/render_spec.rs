//! What the CSL renderer computes, as plain values: for one reference,
//! a locale and a style, the token trees of each element and the group
//! scopes it leaves behind.
//!
//! Per `<text>`: resolve the source (variable, term, value or macro),
//! text-case, strip-periods, quotes, then formatting and affixes. A
//! `<group>` is suppressed when it called at least one variable and
//! every such call came back empty. Macro expansion stops at
//! [`MAX_MACRO_DEPTH`] nested expansions.

use vstd::prelude::*;

use crate::citation::ast::{
    ChooseBranch, ChooseElement, Conditions, DateElement, DateForm, DatePart, DatePartsFilter,
    Element, Formatting, GroupElement, LabelElement, Layout, Locale, Macro, MatchKind, NameAnd,
    NameElement, NamesElement, NumberElement, Style, Term, TermForm, TextElement, TextSource,
};
use crate::citation::ir::{spec_transform_case, LeafOp};
use crate::citation::parser::spec_term_form;
use crate::citation::renderer::{
    spec_et_al_thresholds, spec_format_one_name, spec_inline_pipeline, spec_render_date_part,
    spec_term_body_to_string,
};
use crate::citation::tokens::{all_empty, ostr, tokvs_map, TokV};
use crate::citation::{CslItem, DateVar, ExtraField, ExtraValue, NameVar};
use crate::text::{seq_replace, spec_decimal, spec_int_decimal};

verus! {

/// Nested macro expansions allowed; deeper ones render nothing (this
/// stops cycles and hostile styles).
pub const MAX_MACRO_DEPTH: usize = 32;

/// What a render reads: the style, the locale, the reference and its
/// 1-based position (1 for an in-text citation).
pub struct Env {
    pub style: Style,
    pub locale: Locale,
    pub item: CslItem,
    pub position: int,
}

/// The open `<group>` scopes, innermost last: how many variables each
/// has called, and how many of those rendered something.
pub type Scopes = Seq<(usize, usize)>;

/// One more, saturating at the top of `usize`.
pub open spec fn sat_inc(x: usize) -> usize {
    if x < usize::MAX {
        (x + 1) as usize
    } else {
        x
    }
}

/// The scopes after a variable call that rendered (or not): the
/// innermost scope's counts bumped.
pub open spec fn track(sc: Scopes, rendered: bool) -> Scopes {
    if sc.len() == 0 {
        sc
    } else {
        let l = sc.last();
        sc.drop_last().push((sat_inc(l.0), if rendered { sat_inc(l.1) } else { l.1 }))
    }
}

/// No formatting.
pub open spec fn plain() -> Formatting {
    Formatting { font_style: None, font_weight: None, font_variant: None, text_decoration: None, vertical_align: None }
}

/// `inner` with affixes: alone without them, else in a fail-if-empty
/// group that carries them.
pub open spec fn affix_v(inner: TokV, prefix: Option<Seq<char>>, suffix: Option<Seq<char>>) -> Seq<TokV> {
    if prefix is None && suffix is None {
        seq![inner]
    } else {
        seq![
            TokV::Group {
                children: seq![inner],
                delimiter: None,
                prefix,
                suffix,
                formatting: plain(),
                fail_if_empty: true,
            },
        ]
    }
}

/// `inner` wrapped for a `<names>` element: unchanged without prefix,
/// suffix and delimiter, else in a fail-if-empty group carrying them.
pub open spec fn names_wrap_v(names: NamesElement, inner: Seq<TokV>) -> Seq<TokV> {
    if names.prefix is None && names.suffix is None && names.delimiter is None {
        inner
    } else {
        seq![
            TokV::Group {
                children: inner,
                delimiter: ostr(names.delimiter),
                prefix: ostr(names.prefix),
                suffix: ostr(names.suffix),
                formatting: plain(),
                fail_if_empty: true,
            },
        ]
    }
}

// ─────────────────────────────────────────────────────────────────
// Variables and terms
// ─────────────────────────────────────────────────────────────────

/// A page range up to its first `-`, `,` or space.
pub open spec fn first_page(p: Seq<char>) -> Seq<char>
    decreases p.len(),
{
    if p.len() == 0 || p[0] == '-' || p[0] == ',' || p[0] == ' ' {
        Seq::empty()
    } else {
        seq![p[0]] + first_page(p.drop_first())
    }
}

/// The text of the first extra field named `name`, if it holds text.
pub open spec fn extra_text(ex: Seq<ExtraField>, name: Seq<char>) -> Option<Seq<char>>
    decreases ex.len(),
{
    if ex.len() == 0 {
        None
    } else if ex[0].name@ == name {
        match ex[0].value {
            ExtraValue::Text(s) => Some(s@),
            ExtraValue::Json(_) => None,
        }
    } else {
        extra_text(ex.drop_first(), name)
    }
}

/// The raw value of a CSL string variable of the reference.
pub open spec fn variable_raw(env: Env, name: Seq<char>) -> Option<Seq<char>> {
    let it = env.item;
    if name == "title"@ || name == "title-short"@ {
        ostr(it.title)
    } else if name == "container-title"@ {
        ostr(it.container_title)
    } else if name == "container-title-short"@ {
        ostr(it.container_title_short)
    } else if name == "publisher"@ {
        ostr(it.publisher)
    } else if name == "publisher-place"@ {
        ostr(it.publisher_place)
    } else if name == "volume"@ {
        ostr(it.volume)
    } else if name == "issue"@ {
        ostr(it.issue)
    } else if name == "page"@ {
        ostr(it.page)
    } else if name == "page-first"@ {
        match ostr(it.page) {
            Some(p) => Some(first_page(p)),
            None => None,
        }
    } else if name == "DOI"@ {
        ostr(it.doi)
    } else if name == "URL"@ {
        ostr(it.url)
    } else if name == "ISBN"@ {
        ostr(it.isbn)
    } else if name == "edition"@ {
        ostr(it.edition)
    } else if name == "abstract"@ {
        ostr(it.abstract_)
    } else if name == "id"@ || name == "citation-key"@ {
        Some(it.id@)
    } else if name == "type"@ {
        Some(it.item_type@)
    } else if name == "citation-number"@ {
        Some(spec_decimal(env.position as nat))
    } else {
        extra_text(it.extra@, name)
    }
}

/// A CSL string variable of the reference; missing and empty values
/// are both absent.
pub open spec fn spec_resolve_variable(env: Env, name: Seq<char>) -> Option<Seq<char>> {
    match variable_raw(env, name) {
        Some(s) => if s.len() > 0 {
            Some(s)
        } else {
            None
        },
        None => None,
    }
}

/// The first term of `ts` with this name and form.
pub open spec fn find_term(ts: Seq<Term>, name: Seq<char>, form: TermForm) -> Option<Term>
    decreases ts.len(),
{
    if ts.len() == 0 {
        None
    } else if ts[0].name@ == name && ts[0].form == form {
        Some(ts[0])
    } else {
        find_term(ts.drop_first(), name, form)
    }
}

/// The term of the first in-style locale override that applies (no
/// language, or the locale's) and defines it.
pub open spec fn override_term(ovs: Seq<Locale>, lang: Option<Seq<char>>, name: Seq<char>, form: TermForm) -> Option<Term>
    decreases ovs.len(),
{
    if ovs.len() == 0 {
        None
    } else if (ovs[0].lang is None || ostr(ovs[0].lang) == lang) && find_term(ovs[0].terms@, name, form) is Some {
        find_term(ovs[0].terms@, name, form)
    } else {
        override_term(ovs.drop_first(), lang, name, form)
    }
}

/// A term in one form: from the style's overrides first, else the
/// locale.
pub open spec fn term_lookup(style: Style, locale: Locale, name: Seq<char>, form: TermForm) -> Option<Term> {
    match override_term(style.locale_overrides@, ostr(locale.lang), name, form) {
        Some(t) => Some(t),
        None => find_term(locale.terms@, name, form),
    }
}

/// A term in one form, for a render.
pub open spec fn term_in_form(env: Env, name: Seq<char>, form: TermForm) -> Option<Term> {
    term_lookup(env.style, env.locale, name, form)
}

/// The localised text of a term in the asked form, falling back to the
/// long form.
pub open spec fn spec_resolve_term(env: Env, name: Seq<char>, form: TermForm, plural: bool) -> Option<Seq<char>> {
    match term_in_form(env, name, form) {
        Some(t) => Some(spec_term_body_to_string(t.body, plural)),
        None => if form == TermForm::Long {
            None
        } else {
            match term_in_form(env, name, TermForm::Long) {
                Some(t) => Some(spec_term_body_to_string(t.body, plural)),
                None => None,
            }
        },
    }
}

// ─────────────────────────────────────────────────────────────────
// Conditions
// ─────────────────────────────────────────────────────────────────

/// The names of a name variable of the reference (none for others).
pub open spec fn name_var(item: CslItem, name: Seq<char>) -> Seq<NameVar> {
    if name == "author"@ {
        item.author@
    } else if name == "editor"@ {
        item.editor@
    } else if name == "translator"@ {
        item.translator@
    } else {
        Seq::empty()
    }
}

/// The date variable of the reference with this name.
pub open spec fn date_var(item: CslItem, name: Seq<char>) -> Option<DateVar> {
    if name == "issued"@ {
        item.issued
    } else {
        None
    }
}

/// A variable is present: a name list with entries, a date that is
/// set, or a string variable that resolves.
pub open spec fn variable_present(env: Env, name: Seq<char>) -> bool {
    if name == "author"@ {
        env.item.author@.len() > 0
    } else if name == "editor"@ {
        env.item.editor@.len() > 0
    } else if name == "translator"@ {
        env.item.translator@.len() > 0
    } else if name == "issued"@ {
        env.item.issued is Some
    } else {
        spec_resolve_variable(env, name) is Some
    }
}

/// Every character is an ASCII digit.
pub open spec fn ascii_digits(s: Seq<char>) -> bool {
    forall|i: int| 0 <= i < s.len() ==> '0' <= #[trigger] s[i] <= '9'
}

/// The tests of a condition set, in order: variables present, item
/// types, numeric variables, uncertain dates, positions, locators
/// (never met) and `disambiguate` (a passing test when set).
pub open spec fn cond_checks(env: Env, c: Conditions) -> Seq<bool> {
    c.variable@.map_values(|v: String| variable_present(env, v@)) + c.item_type@.map_values(
        |t: String| env.item.item_type@ == t@,
    ) + c.is_numeric@.map_values(
        |v: String|
            match spec_resolve_variable(env, v@) {
                Some(s) => ascii_digits(s),
                None => false,
            },
    ) + c.is_uncertain_date@.map_values(
        |v: String|
            match date_var(env.item, v@) {
                Some(d) => d.circa,
                None => false,
            },
    ) + c.position@.map_values(
        |p: String|
            if p@ == "first"@ {
                env.position == 1
            } else if p@ == "subsequent"@ {
                env.position > 1
            } else {
                false
            },
    ) + c.locator@.map_values(|l: String| false) + (if c.disambiguate {
        seq![true]
    } else {
        Seq::empty()
    })
}

/// A condition set holds: with no tests always; otherwise its tests
/// combined per `match`.
pub open spec fn spec_evaluate_conditions(env: Env, c: Conditions) -> bool {
    let ch = cond_checks(env, c);
    if ch.len() == 0 {
        true
    } else {
        match c.match_kind {
            MatchKind::All => forall|i: int| 0 <= i < ch.len() ==> #[trigger] ch[i],
            MatchKind::Any => exists|i: int| 0 <= i < ch.len() && #[trigger] ch[i],
            MatchKind::NoneOf => forall|i: int| 0 <= i < ch.len() ==> !#[trigger] ch[i],
        }
    }
}

/// The first branch whose conditions hold.
pub open spec fn first_match(env: Env, bs: Seq<ChooseBranch>) -> Option<int>
    decreases bs.len(),
{
    if bs.len() == 0 {
        None
    } else if spec_evaluate_conditions(env, bs[0].conditions) {
        Some(0)
    } else {
        match first_match(env, bs.drop_first()) {
            Some(i) => Some(i + 1),
            None => None,
        }
    }
}

/// The branch found is one of the branches.
pub proof fn lemma_first_match(env: Env, bs: Seq<ChooseBranch>)
    ensures
        first_match(env, bs) matches Some(i) ==> 0 <= i < bs.len(),
    decreases bs.len(),
{
    if bs.len() > 0 {
        lemma_first_match(env, bs.drop_first());
    }
}

// ─────────────────────────────────────────────────────────────────
// Leaf elements: text output, numbers, dates, labels, names
// ─────────────────────────────────────────────────────────────────

/// The output of a `<text>` whose source resolved to `raw`.
pub open spec fn text_out(t: TextElement, raw: Option<Seq<char>>) -> Seq<TokV> {
    match raw {
        None => Seq::empty(),
        Some(s) => affix_v(
            TokV::Text {
                text: spec_inline_pipeline(s, t.text_case, t.strip_periods, t.quotes),
                formatting: t.formatting,
            },
            ostr(t.prefix),
            ostr(t.suffix),
        ),
    }
}

/// A `<number>`: its variable, text-cased, with affixes.
pub open spec fn r_number(env: Env, sc: Scopes, n: NumberElement) -> (Seq<TokV>, Scopes) {
    let raw = spec_resolve_variable(env, n.variable@);
    let sc1 = track(sc, raw is Some);
    match raw {
        None => (Seq::empty(), sc1),
        Some(s) => (
            affix_v(
                TokV::Text {
                    text: match n.text_case {
                        Some(c) => spec_transform_case(s, c),
                        None => s,
                    },
                    formatting: n.formatting,
                },
                ostr(n.prefix),
                ostr(n.suffix),
            ),
            sc1,
        ),
    }
}

/// The rendered date parts, concatenated.
pub open spec fn date_parts_text(ps: Seq<DatePart>, parts: Seq<i32>, filter: Option<DatePartsFilter>) -> Seq<char>
    decreases ps.len(),
{
    if ps.len() == 0 {
        Seq::empty()
    } else {
        date_parts_text(ps.drop_last(), parts, filter) + match spec_render_date_part(ps.last(), parts, filter) {
            Some(s) => s,
            None => Seq::empty(),
        }
    }
}

/// The text of a date with parts `parts`: the element's own date
/// parts, else the locale's text or numeric format (the year alone when
/// the locale has none), else the year alone.
pub open spec fn date_text(env: Env, date: DateElement, parts: Seq<i32>) -> Seq<char> {
    if date.date_parts@.len() > 0 {
        date_parts_text(date.date_parts@, parts, date.date_parts_filter)
    } else if date.form is Some {
        let ld = match date.form {
            Some(DateForm::Text) => env.locale.date_text,
            Some(DateForm::Numeric) => env.locale.date_numeric,
            None => None,
        };
        match ld {
            Some(l) => date_parts_text(l.date_parts@, parts, date.date_parts_filter),
            None => spec_int_decimal(
                if parts.len() > 0 {
                    parts[0] as int
                } else {
                    0
                },
            ),
        }
    } else if parts.len() > 0 {
        spec_int_decimal(parts[0] as int)
    } else {
        Seq::empty()
    }
}

/// A `<date>`: its first date's text (or the date's literal), with
/// affixes.
pub open spec fn r_date(env: Env, sc: Scopes, date: DateElement) -> (Seq<TokV>, Scopes) {
    match date_var(env.item, date.variable@) {
        None => (Seq::empty(), track(sc, false)),
        Some(d) => {
            let sc1 = track(sc, true);
            if d.date_parts@.len() == 0 {
                match ostr(d.literal) {
                    Some(lit) => (
                        affix_v(TokV::Text { text: lit, formatting: date.formatting }, ostr(date.prefix), ostr(date.suffix)),
                        sc1,
                    ),
                    None => (Seq::empty(), sc1),
                }
            } else {
                let s = date_text(env, date, d.date_parts@[0]@);
                if s.len() == 0 {
                    (Seq::empty(), sc1)
                } else {
                    (
                        affix_v(TokV::Text { text: s, formatting: date.formatting }, ostr(date.prefix), ostr(date.suffix)),
                        sc1,
                    )
                }
            }
        },
    }
}

/// A label's term is plural: as `plural` says when it says always or
/// never, else for more than one name, or a page range.
pub open spec fn label_is_plural(item: CslItem, var: Seq<char>, plural: Option<Seq<char>>) -> bool {
    if plural == Some("always"@) {
        true
    } else if plural == Some("never"@) {
        false
    } else if var == "author"@ {
        item.author@.len() > 1
    } else if var == "editor"@ {
        item.editor@.len() > 1
    } else if var == "translator"@ {
        item.translator@.len() > 1
    } else if var == "page"@ {
        match ostr(item.page) {
            Some(p) => p.contains('-') || p.contains(','),
            None => false,
        }
    } else {
        false
    }
}

/// A `<label>`: the term of its variable, periods stripped and
/// text-cased as asked, with affixes.
pub open spec fn label_out(env: Env, l: LabelElement) -> Seq<TokV> {
    let var = match ostr(l.variable) {
        Some(v) => v,
        None => Seq::empty(),
    };
    if var.len() == 0 {
        Seq::empty()
    } else {
        match spec_resolve_term(env, var, spec_term_form(ostr(l.form)), label_is_plural(env.item, var, ostr(l.plural))) {
            None => Seq::empty(),
            Some(text) => {
                let s1 = if l.strip_periods {
                    seq_replace(text, seq!['.'], Seq::empty())
                } else {
                    text
                };
                let s2 = match l.text_case {
                    Some(c) => spec_transform_case(s1, c),
                    None => s1,
                };
                affix_v(TokV::Text { text: s2, formatting: l.formatting }, ostr(l.prefix), ostr(l.suffix))
            },
        }
    }
}

/// What goes before the `k`-th of `n` names: nothing for the first,
/// the delimiter and connector before the last (unless et-al follows),
/// else the delimiter.
pub open spec fn name_sep(k: int, n: int, delim: Seq<char>, conn: Seq<char>, et_al: bool) -> Seq<char> {
    if k == 0 {
        Seq::empty()
    } else if k == n - 1 && !et_al {
        delim + conn + seq![' ']
    } else {
        delim
    }
}

/// The first `j` formatted names, joined.
pub open spec fn joined_names(fs: Seq<Seq<char>>, j: int, delim: Seq<char>, conn: Seq<char>, et_al: bool) -> Seq<char>
    decreases j,
{
    if j <= 0 {
        Seq::empty()
    } else {
        joined_names(fs, j - 1, delim, conn, et_al) + name_sep(j - 1, fs.len() as int, delim, conn, et_al) + fs[j - 1]
    }
}

/// How many names show, and whether et-al follows them.
pub open spec fn names_shown(env: Env, name: Option<NameElement>, total: int) -> (int, bool) {
    match spec_et_al_thresholds(name, env.style.citation) {
        (Some(min), Some(first)) => if (total as u32) >= min {
            (if (first as int) < total { first as int } else { total }, true)
        } else {
            (total, false)
        },
        _ => (total, false),
    }
}

/// The connector before the last name: the localised "and" (or "and"),
/// or `&` when the `<name>` asks for a symbol.
pub open spec fn names_connector(env: Env, name: Option<NameElement>) -> Seq<char> {
    let symbol = match name {
        Some(nm) => nm.and == Some(NameAnd::Symbol),
        None => false,
    };
    if symbol {
        "&"@
    } else {
        match spec_resolve_term(env, "and"@, TermForm::Long, false) {
            Some(s) => s,
            None => "and"@,
        }
    }
}

/// The delimiter between names: the `<name>`'s, else ", ".
pub open spec fn names_delim(name: Option<NameElement>) -> Seq<char> {
    match name {
        Some(nm) => match ostr(nm.delimiter) {
            Some(d) => d,
            None => ", "@,
        },
        None => ", "@,
    }
}

/// The text of the et-al term (its localised form, else "et al.").
pub open spec fn et_al_text(env: Env, names: NamesElement) -> Seq<char> {
    let term = match names.et_al {
        Some(e) => match ostr(e.term) {
            Some(x) => x,
            None => "et-al"@,
        },
        None => "et-al"@,
    };
    match spec_resolve_term(env, term, TermForm::Long, false) {
        Some(s) => s,
        None => "et al."@,
    }
}

/// The text of a list of names: those shown, formatted and joined, and
/// the et-al text when the list is cut.
pub open spec fn names_text(env: Env, names: NamesElement, name: Option<NameElement>, people: Seq<NameVar>) -> Seq<char> {
    let (visible, use_et_al) = names_shown(env, name, people.len() as int);
    let fs = people.take(visible).map_values(|n: NameVar| spec_format_one_name(name, n));
    let delim = names_delim(name);
    let base = joined_names(fs, fs.len() as int, delim, names_connector(env, name), use_et_al);
    if use_et_al {
        base + delim + et_al_text(env, names)
    } else {
        base
    }
}

/// The names of the first listed variable that has any.
pub open spec fn first_people(item: CslItem, vars: Seq<String>) -> Option<Seq<NameVar>>
    decreases vars.len(),
{
    if vars.len() == 0 {
        None
    } else if name_var(item, vars[0]@).len() > 0 {
        Some(name_var(item, vars[0]@))
    } else {
        first_people(item, vars.drop_first())
    }
}

/// The body of the first macro named `name`.
pub open spec fn macro_lookup(ms: Seq<Macro>, name: Seq<char>) -> Option<Seq<Element>>
    decreases ms.len(),
{
    if ms.len() == 0 {
        None
    } else if ms[0].name@ == name {
        Some(ms[0].body@)
    } else {
        macro_lookup(ms.drop_first(), name)
    }
}

// ─────────────────────────────────────────────────────────────────
// Elements
// ─────────────────────────────────────────────────────────────────

/// A list of elements, in order, at macro depth `depth`.
pub open spec fn r_elems(env: Env, depth: int, sc: Scopes, body: Seq<Element>) -> (Seq<TokV>, Scopes)
    decreases MAX_MACRO_DEPTH - depth, body, 1int,
{
    if body.len() == 0 {
        (Seq::empty(), sc)
    } else {
        let (a, sc1) = r_elem(env, depth, sc, body[0]);
        let (b, sc2) = r_elems(env, depth, sc1, body.subrange(1, body.len() as int));
        (a + b, sc2)
    }
}

/// One element.
pub open spec fn r_elem(env: Env, depth: int, sc: Scopes, e: Element) -> (Seq<TokV>, Scopes)
    decreases MAX_MACRO_DEPTH - depth, e, 2int,
{
    match e {
        Element::Text(_) => r_text(env, depth, sc, e),
        Element::Number(n) => r_number(env, sc, n),
        Element::Group(g) => r_group(env, depth, sc, g),
        Element::Choose(c) => r_choose(env, depth, sc, c),
        Element::Names(n) => r_names(env, depth, sc, *n, n.name),
        Element::Date(d) => r_date(env, sc, *d),
        Element::Label(l) => (label_out(env, l), sc),
    }
}

/// A `<text>` (the element `e`).
pub open spec fn r_text(env: Env, depth: int, sc: Scopes, e: Element) -> (Seq<TokV>, Scopes)
    decreases MAX_MACRO_DEPTH - depth, e, 1int,
{
    match e {
        Element::Text(t) => match t.source {
            TextSource::Variable(n) => {
                let v = spec_resolve_variable(env, n@);
                (text_out(t, v), track(sc, v is Some))
            },
            TextSource::Macro(n) => r_macro(env, depth, sc, e),
            TextSource::Term(n) => (text_out(t, spec_resolve_term(env, n@, spec_term_form(ostr(t.form)), false)), sc),
            TextSource::Value(s) => (
                text_out(
                    t,
                    if s@.len() == 0 {
                        None
                    } else {
                        Some(s@)
                    },
                ),
                sc,
            ),
        },
        _ => (Seq::empty(), sc),
    }
}

/// A `<text macro="…">` (the element `e`): the macro's body one level
/// deeper, nothing when every token is empty, else text-cased, periods
/// stripped, and grouped with the element's formatting and affixes when
/// it has any.
pub open spec fn r_macro(env: Env, depth: int, sc: Scopes, e: Element) -> (Seq<TokV>, Scopes)
    decreases MAX_MACRO_DEPTH - depth, e, 0int,
{
    match e {
        Element::Text(t) => match t.source {
            TextSource::Macro(name) => if depth < 0 || depth >= MAX_MACRO_DEPTH {
                (Seq::empty(), sc)
            } else {
                match macro_lookup(env.style.macros@, name@) {
                    None => (Seq::empty(), sc),
                    Some(body) => {
                        let (toks, sc1) = r_elems(env, depth + 1, sc, body);
                        if all_empty(toks) {
                            (Seq::empty(), sc1)
                        } else {
                            (macro_out(t, toks), sc1)
                        }
                    },
                }
            },
            _ => (Seq::empty(), sc),
        },
        _ => (Seq::empty(), sc),
    }
}

/// The tokens of an expanded macro as its `<text>` shapes them:
/// text-cased, periods stripped, and grouped with its formatting and
/// affixes when it has any.
pub open spec fn macro_out(t: TextElement, toks: Seq<TokV>) -> Seq<TokV> {
    let t1 = match t.text_case {
        Some(c) => tokvs_map(toks, LeafOp::Case(c)),
        None => toks,
    };
    let t2 = if t.strip_periods {
        tokvs_map(t1, LeafOp::StripPeriods)
    } else {
        t1
    };
    if !t.formatting.is_plain() || t.prefix is Some || t.suffix is Some {
        seq![
            TokV::Group {
                children: t2,
                delimiter: None,
                prefix: ostr(t.prefix),
                suffix: ostr(t.suffix),
                formatting: t.formatting,
                fail_if_empty: true,
            },
        ]
    } else {
        t2
    }
}

/// A `<group>`: its body in a scope of its own; suppressed (and counted
/// as a failed variable call outside) when it called variables and none
/// rendered; counted as a rendered call outside when it called some;
/// nothing when every token is empty.
pub open spec fn r_group(env: Env, depth: int, sc: Scopes, g: GroupElement) -> (Seq<TokV>, Scopes)
    decreases MAX_MACRO_DEPTH - depth, g, 1int,
{
    let (children, sc1) = r_elems(env, depth, sc.push((0usize, 0usize)), g.body@);
    let top: (usize, usize) = if sc1.len() > 0 {
        sc1.last()
    } else {
        (0usize, 0usize)
    };
    let sc2 = if sc1.len() > 0 {
        sc1.drop_last()
    } else {
        sc1
    };
    if top.0 > 0 && top.1 == 0 {
        (Seq::empty(), track(sc2, false))
    } else {
        let sc3 = if top.0 > 0 {
            track(sc2, true)
        } else {
            sc2
        };
        if all_empty(children) {
            (Seq::empty(), sc3)
        } else {
            (
                seq![
                    TokV::Group {
                        children,
                        delimiter: ostr(g.delimiter),
                        prefix: ostr(g.prefix),
                        suffix: ostr(g.suffix),
                        formatting: g.formatting,
                        fail_if_empty: true,
                    },
                ],
                sc3,
            )
        }
    }
}

/// A `<choose>`: the body of the first branch whose conditions hold,
/// else the `else` body.
pub open spec fn r_choose(env: Env, depth: int, sc: Scopes, c: ChooseElement) -> (Seq<TokV>, Scopes)
    decreases MAX_MACRO_DEPTH - depth, c, 1int,
{
    match first_match(env, c.branches@) {
        Some(i) => {
            proof {
                lemma_first_match(env, c.branches@);
                assert(decreases_to!(c => c.branches));
                assert(decreases_to!(c.branches => c.branches@));
                assert(decreases_to!(c.branches@ => c.branches@[i]));
                assert(decreases_to!(c.branches@[i] => c.branches@[i].body));
                assert(decreases_to!(c.branches@[i].body => c.branches@[i].body@));
            }
            r_elems(env, depth, sc, c.branches@[i].body@)
        },
        None => r_elems(env, depth, sc, c.else_body@),
    }
}

/// A `<names>` with the `<name>` in effect `name`: the first listed
/// variable with names, formatted (a rendered variable call); else,
/// after a failed call when it lists any, the first substitute that
/// renders something.
pub open spec fn r_names(env: Env, depth: int, sc: Scopes, names: NamesElement, name: Option<NameElement>) -> (Seq<TokV>, Scopes)
    decreases MAX_MACRO_DEPTH - depth, names, 1int,
{
    match first_people(env.item, names.variables@) {
        Some(people) => (
            names_wrap_v(names, seq![TokV::Text { text: names_text(env, names, name, people), formatting: names.formatting }]),
            track(sc, true),
        ),
        None => {
            let sc1 = if names.variables@.len() > 0 {
                track(sc, false)
            } else {
                sc
            };
            r_subst(env, depth, sc1, names, name, names.substitute@)
        },
    }
}

/// The first of the substitutes `subs` that renders something, wrapped
/// for `names`; a nested `<names>` without a `<name>` of its own takes
/// the one in effect.
pub open spec fn r_subst(
    env: Env,
    depth: int,
    sc: Scopes,
    names: NamesElement,
    name: Option<NameElement>,
    subs: Seq<Element>,
) -> (Seq<TokV>, Scopes)
    decreases MAX_MACRO_DEPTH - depth, subs, 1int,
{
    if subs.len() == 0 {
        (Seq::empty(), sc)
    } else {
        let (toks, sc1) = match subs[0] {
            Element::Names(child) => if child.name is None && name is Some {
                r_names(env, depth, sc, *child, name)
            } else {
                r_elem(env, depth, sc, subs[0])
            },
            _ => r_elem(env, depth, sc, subs[0]),
        };
        if !all_empty(toks) {
            (names_wrap_v(names, toks), sc1)
        } else {
            r_subst(env, depth, sc1, names, name, subs.subrange(1, subs.len() as int))
        }
    }
}

/// A `<layout>`: its body, in a group with its affixes and delimiter
/// when it has any (never suppressed).
pub open spec fn r_layout(env: Env, depth: int, sc: Scopes, layout: Layout) -> (Seq<TokV>, Scopes) {
    let (children, sc1) = r_elems(env, depth, sc, layout.body@);
    if layout.prefix is None && layout.suffix is None && layout.delimiter is None {
        (children, sc1)
    } else {
        (
            seq![
                TokV::Group {
                    children,
                    delimiter: ostr(layout.delimiter),
                    prefix: ostr(layout.prefix),
                    suffix: ostr(layout.suffix),
                    formatting: layout.formatting,
                    fail_if_empty: false,
                },
            ],
            sc1,
        )
    }
}

} // verus!
