//! The CSL renderer: a style's layout and one reference to IR tokens,
//! meeting the specification in [`crate::citation::render_spec`].

use vstd::prelude::*;

use crate::citation::ast::{ChooseElement, Conditions, DateElement, DateForm, DatePart, DatePartsFilter, Element, Formatting, GroupElement, LabelElement, Layout, Locale, MatchKind, NameAnd, NameElement, NamesElement, NumberElement, Style, Term, TermForm, TextElement, TextSource};
use crate::citation::ir::{transform_case, LeafOp, Token};
use crate::citation::reader::as_opt_str;
use crate::citation::render_spec::{first_match, first_people, macro_lookup, r_choose, r_elem, r_elems, r_group, r_layout, r_macro, r_names, r_subst, r_text, MAX_MACRO_DEPTH, affix_v, date_parts_text, date_text, et_al_text, joined_names, label_out, name_sep, name_var, names_connector, names_delim, names_shown, names_text, names_wrap_v, plain, r_date, r_number, text_out, ascii_digits, cond_checks, date_var, extra_text, find_term, first_page, label_is_plural, override_term, spec_evaluate_conditions, spec_resolve_term, spec_resolve_variable, term_lookup, track, variable_present, variable_raw, Env, Scopes};
use crate::citation::renderer::{affixes_wrap, apply_inline_pipeline, et_al_thresholds, format_one_name, names_wrapped, parse_term_form, render_date_part, spec_format_one_name, term_body_to_string, wrap_names_affixes, wrap_with_affixes};
use crate::citation::tokens::{lemma_toks_view, lemma_toks_view_add, map_all, ostr, tok_view, tokens_all_empty, toks_view, TokV};
use crate::citation::{CslItem, DateVar, ExtraValue, NameVar};
use crate::text::{chars_of, decimal_string, int_decimal_string, push_all, replace_all, seq_replace, str_eq, string_from_chars};

verus! {

/// Per-render state: the style, locale and reference read, the
/// reference's 1-based position (1 for an in-text citation), the
/// current macro expansion depth, and one `(variables called,
/// variables rendered)` count per open `<group>`, innermost last.
pub struct RenderContext<'a> {
    pub style: &'a Style,
    pub locale: &'a Locale,
    pub item: &'a CslItem,
    pub position: usize,
    pub macro_depth: usize,
    pub is_bibliography: bool,
    pub group_scopes: Vec<(usize, usize)>,
}

/// What a render through `c` reads.
pub open spec fn env_of(c: RenderContext) -> Env {
    Env { style: *c.style, locale: *c.locale, item: *c.item, position: c.position as int }
}

/// `b` is `a` with at most its group scopes changed.
pub open spec fn same_env(a: RenderContext, b: RenderContext) -> bool {
    &&& a.style == b.style
    &&& a.locale == b.locale
    &&& a.item == b.item
    &&& a.position == b.position
    &&& a.macro_depth == b.macro_depth
    &&& a.is_bibliography == b.is_bibliography
}

impl<'a> RenderContext<'a> {
    /// Records one variable call and whether it rendered something, in
    /// the innermost open group.
    pub fn track_variable(&mut self, rendered: bool)
        ensures
            same_env(*old(self), *final(self)),
            final(self).group_scopes@ == track(old(self).group_scopes@, rendered),
    {
        let n = self.group_scopes.len();
        if n > 0 {
            let (a, r) = self.group_scopes[n - 1];
            let a2 = if a < usize::MAX {
                a + 1
            } else {
                a
            };
            let r2 = if rendered && r < usize::MAX {
                r + 1
            } else {
                r
            };
            let _ = self.group_scopes.pop();
            self.group_scopes.push((a2, r2));
            assert(self.group_scopes@ =~= track(old(self).group_scopes@, rendered));
        }
    }
}

// ─────────────────────────────────────────────────────────────────
// Variables
// ─────────────────────────────────────────────────────────────────

/// A page range up to its first `-`, `,` or space.
fn page_first(p: &str) -> (r: String)
    ensures
        r@ == first_page(p@),
{
    let cs = chars_of(p);
    let mut i: usize = 0;
    assert(cs@.subrange(0, cs@.len() as int) =~= cs@);
    assert(cs@.subrange(0, 0) =~= Seq::<char>::empty());
    while i < cs.len() && cs[i] != '-' && cs[i] != ',' && cs[i] != ' '
        invariant
            i <= cs@.len(),
            cs@ == p@,
            first_page(p@) == cs@.subrange(0, i as int) + first_page(cs@.subrange(i as int, cs@.len() as int)),
        decreases cs@.len() - i,
    {
        assert(cs@.subrange(i as int, cs@.len() as int).drop_first() =~= cs@.subrange(i + 1, cs@.len() as int));
        assert(cs@.subrange(0, i + 1) =~= cs@.subrange(0, i as int).push(cs@[i as int]));
        i = i + 1;
    }
    assert(first_page(cs@.subrange(i as int, cs@.len() as int)) == Seq::<char>::empty());
    string_from_chars(&cs.as_slice()[0..i])
}

/// The text of the first extra field named `name`, if it holds text.
fn extra_lookup(item: &CslItem, name: &str) -> (r: Option<String>)
    ensures
        ostr(r) == extra_text(item.extra@, name@),
{
    let mut i: usize = 0;
    assert(item.extra@.subrange(0, item.extra@.len() as int) =~= item.extra@);
    while i < item.extra.len()
        invariant
            i <= item.extra@.len(),
            extra_text(item.extra@, name@) == extra_text(item.extra@.subrange(i as int, item.extra@.len() as int), name@),
        decreases item.extra@.len() - i,
    {
        assert(item.extra@.subrange(i as int, item.extra@.len() as int).drop_first() =~= item.extra@.subrange(
            i + 1,
            item.extra@.len() as int,
        ));
        if str_eq(item.extra[i].name.as_str(), name) {
            return match &item.extra[i].value {
                ExtraValue::Text(s) => Some(s.clone()),
                ExtraValue::Json(_) => None,
            };
        }
        i = i + 1;
    }
    None
}

/// An optional string, copied.
fn copy_opt(o: &Option<String>) -> (r: Option<String>)
    ensures
        ostr(r) == ostr(*o),
{
    match o {
        Some(s) => Some(s.clone()),
        None => None,
    }
}

/// The raw value of a CSL string variable of the reference.
fn variable_value(ctx: &RenderContext, name: &str) -> (r: Option<String>)
    ensures
        ostr(r) == variable_raw(env_of(*ctx), name@),
{
    let it = ctx.item;
    if str_eq(name, "title") || str_eq(name, "title-short") {
        copy_opt(&it.title)
    } else if str_eq(name, "container-title") {
        copy_opt(&it.container_title)
    } else if str_eq(name, "container-title-short") {
        copy_opt(&it.container_title_short)
    } else if str_eq(name, "publisher") {
        copy_opt(&it.publisher)
    } else if str_eq(name, "publisher-place") {
        copy_opt(&it.publisher_place)
    } else if str_eq(name, "volume") {
        copy_opt(&it.volume)
    } else if str_eq(name, "issue") {
        copy_opt(&it.issue)
    } else if str_eq(name, "page") {
        copy_opt(&it.page)
    } else if str_eq(name, "page-first") {
        match &it.page {
            Some(p) => Some(page_first(p.as_str())),
            None => None,
        }
    } else if str_eq(name, "DOI") {
        copy_opt(&it.doi)
    } else if str_eq(name, "URL") {
        copy_opt(&it.url)
    } else if str_eq(name, "ISBN") {
        copy_opt(&it.isbn)
    } else if str_eq(name, "edition") {
        copy_opt(&it.edition)
    } else if str_eq(name, "abstract") {
        copy_opt(&it.abstract_)
    } else if str_eq(name, "id") || str_eq(name, "citation-key") {
        Some(it.id.clone())
    } else if str_eq(name, "type") {
        Some(it.item_type.clone())
    } else if str_eq(name, "citation-number") {
        Some(decimal_string(ctx.position as u64))
    } else {
        extra_lookup(it, name)
    }
}

/// Resolves a CSL string variable against the reference; missing and
/// empty values are both `None`.
pub fn resolve_variable(ctx: &RenderContext, name: &str) -> (r: Option<String>)
    ensures
        ostr(r) == spec_resolve_variable(env_of(*ctx), name@),
{
    match variable_value(ctx, name) {
        Some(s) => if s.as_str().is_empty() {
            None
        } else {
            Some(s)
        },
        None => None,
    }
}

// ─────────────────────────────────────────────────────────────────
// Terms
// ─────────────────────────────────────────────────────────────────

/// The two term forms are the same.
fn same_form(a: TermForm, b: TermForm) -> (r: bool)
    ensures
        r == (a == b),
{
    match (a, b) {
        (TermForm::Long, TermForm::Long) => true,
        (TermForm::Short, TermForm::Short) => true,
        (TermForm::Verb, TermForm::Verb) => true,
        (TermForm::VerbShort, TermForm::VerbShort) => true,
        (TermForm::Symbol, TermForm::Symbol) => true,
        _ => false,
    }
}

/// The first term of `ts` with this name and form.
fn find_term_in<'b>(ts: &'b Vec<Term>, name: &str, form: TermForm) -> (r: Option<&'b Term>)
    ensures
        match r {
            Some(t) => find_term(ts@, name@, form) == Some(*t),
            None => find_term(ts@, name@, form) is None,
        },
{
    let mut i: usize = 0;
    assert(ts@.subrange(0, ts@.len() as int) =~= ts@);
    while i < ts.len()
        invariant
            i <= ts@.len(),
            find_term(ts@, name@, form) == find_term(ts@.subrange(i as int, ts@.len() as int), name@, form),
        decreases ts@.len() - i,
    {
        assert(ts@.subrange(i as int, ts@.len() as int).drop_first() =~= ts@.subrange(i + 1, ts@.len() as int));
        if str_eq(ts[i].name.as_str(), name) && same_form(ts[i].form, form) {
            return Some(&ts[i]);
        }
        i = i + 1;
    }
    None
}

/// The two optional language tags are equal.
fn same_lang(a: &Option<String>, b: &Option<String>) -> (r: bool)
    ensures
        r == (ostr(*a) == ostr(*b)),
{
    match (a, b) {
        (Some(x), Some(y)) => str_eq(x.as_str(), y.as_str()),
        (None, None) => true,
        _ => false,
    }
}

/// A term in one form: from the style's overrides first, else the
/// locale.
fn lookup_term<'b>(style: &'b Style, locale: &'b Locale, name: &str, form: TermForm) -> (r: Option<&'b Term>)
    ensures
        match r {
            Some(t) => term_lookup(*style, *locale, name@, form) == Some(*t),
            None => term_lookup(*style, *locale, name@, form) is None,
        },
{
    let ovs = &style.locale_overrides;
    let mut i: usize = 0;
    assert(ovs@.subrange(0, ovs@.len() as int) =~= ovs@);
    while i < ovs.len()
        invariant
            i <= ovs@.len(),
            *ovs == style.locale_overrides,
            override_term(ovs@, ostr(locale.lang), name@, form) == override_term(
                ovs@.subrange(i as int, ovs@.len() as int),
                ostr(locale.lang),
                name@,
                form,
            ),
        decreases ovs@.len() - i,
    {
        assert(ovs@.subrange(i as int, ovs@.len() as int).drop_first() =~= ovs@.subrange(i + 1, ovs@.len() as int));
        let ov = &ovs[i];
        if ov.lang.is_none() || same_lang(&ov.lang, &locale.lang) {
            match find_term_in(&ov.terms, name, form) {
                Some(t) => {
                    return Some(t);
                },
                None => {},
            }
        }
        i = i + 1;
    }
    find_term_in(&locale.terms, name, form)
}

/// Resolves a CSL term to its localised text, trying the asked form and
/// then the long form.
pub fn resolve_term(ctx: &RenderContext, name: &str, form: TermForm, plural: bool) -> (r: Option<String>)
    ensures
        ostr(r) == spec_resolve_term(env_of(*ctx), name@, form, plural),
{
    match lookup_term(ctx.style, ctx.locale, name, form) {
        Some(t) => Some(term_body_to_string(&t.body, plural)),
        None => if same_form(form, TermForm::Long) {
            None
        } else {
            match lookup_term(ctx.style, ctx.locale, name, TermForm::Long) {
                Some(t) => Some(term_body_to_string(&t.body, plural)),
                None => None,
            }
        },
    }
}

// ─────────────────────────────────────────────────────────────────
// Conditions
// ─────────────────────────────────────────────────────────────────

/// The string contains the character.
fn has_char(s: &str, c: char) -> (r: bool)
    ensures
        r == s@.contains(c),
{
    let cs = chars_of(s);
    let mut i: usize = 0;
    while i < cs.len()
        invariant
            i <= cs@.len(),
            cs@ == s@,
            forall|j: int| 0 <= j < i ==> cs@[j] != c,
        decreases cs@.len() - i,
    {
        if cs[i] == c {
            return true;
        }
        i = i + 1;
    }
    false
}

/// Whether a label's term is plural.
fn label_plural(item: &CslItem, var: &str, plural: Option<&str>) -> (r: bool)
    ensures
        r == label_is_plural(
            *item,
            var@,
            match plural {
                Some(p) => Some(p@),
                None => None,
            },
        ),
{
    match plural {
        Some(p) => {
            if str_eq(p, "always") {
                return true;
            } else if str_eq(p, "never") {
                return false;
            }
        },
        None => {},
    }
    if str_eq(var, "author") {
        item.author.len() > 1
    } else if str_eq(var, "editor") {
        item.editor.len() > 1
    } else if str_eq(var, "translator") {
        item.translator.len() > 1
    } else if str_eq(var, "page") {
        match &item.page {
            Some(p) => has_char(p.as_str(), '-') || has_char(p.as_str(), ','),
            None => false,
        }
    } else {
        false
    }
}

/// Whether a variable is present on the reference.
fn is_variable_present(ctx: &RenderContext, name: &str) -> (r: bool)
    ensures
        r == variable_present(env_of(*ctx), name@),
{
    if str_eq(name, "author") {
        ctx.item.author.len() > 0
    } else if str_eq(name, "editor") {
        ctx.item.editor.len() > 0
    } else if str_eq(name, "translator") {
        ctx.item.translator.len() > 0
    } else if str_eq(name, "issued") {
        ctx.item.issued.is_some()
    } else {
        resolve_variable(ctx, name).is_some()
    }
}

/// The date variable of the reference with this name.
fn date_var_of<'b>(item: &'b CslItem, name: &str) -> (r: Option<&'b DateVar>)
    ensures
        match r {
            Some(d) => date_var(*item, name@) == Some(*d),
            None => date_var(*item, name@) is None,
        },
{
    if str_eq(name, "issued") {
        match &item.issued {
            Some(d) => Some(d),
            None => None,
        }
    } else {
        None
    }
}

/// Every character is an ASCII digit.
fn all_ascii_digits(s: &str) -> (r: bool)
    ensures
        r == ascii_digits(s@),
{
    let cs = chars_of(s);
    let mut i: usize = 0;
    while i < cs.len()
        invariant
            i <= cs@.len(),
            cs@ == s@,
            forall|j: int| 0 <= j < i ==> '0' <= #[trigger] cs@[j] <= '9',
        decreases cs@.len() - i,
    {
        if cs[i] < '0' || cs[i] > '9' {
            return false;
        }
        i = i + 1;
    }
    true
}

/// The tests of a condition set, in order.
fn condition_checks(ctx: &RenderContext, c: &Conditions) -> (r: Vec<bool>)
    ensures
        r@ == cond_checks(env_of(*ctx), *c),
{
    let ghost env = env_of(*ctx);
    let mut out: Vec<bool> = Vec::new();
    let mut i: usize = 0;
    while i < c.variable.len()
        invariant
            i <= c.variable@.len(),
            env == env_of(*ctx),
            out@ =~= c.variable@.subrange(0, i as int).map_values(|v: String| variable_present(env, v@)),
        decreases c.variable@.len() - i,
    {
        out.push(is_variable_present(ctx, c.variable[i].as_str()));
        i = i + 1;
    }
    let ghost s1 = out@;
    assert(s1 =~= c.variable@.map_values(|v: String| variable_present(env, v@)));
    i = 0;
    while i < c.item_type.len()
        invariant
            i <= c.item_type@.len(),
            env == env_of(*ctx),
            out@ =~= s1 + c.item_type@.subrange(0, i as int).map_values(|t: String| env.item.item_type@ == t@),
        decreases c.item_type@.len() - i,
    {
        out.push(str_eq(ctx.item.item_type.as_str(), c.item_type[i].as_str()));
        i = i + 1;
    }
    let ghost s2 = out@;
    assert(s2 =~= s1 + c.item_type@.map_values(|t: String| env.item.item_type@ == t@));
    i = 0;
    while i < c.is_numeric.len()
        invariant
            i <= c.is_numeric@.len(),
            env == env_of(*ctx),
            out@ =~= s2 + c.is_numeric@.subrange(0, i as int).map_values(
                |v: String|
                    match spec_resolve_variable(env, v@) {
                        Some(s) => ascii_digits(s),
                        None => false,
                    },
            ),
        decreases c.is_numeric@.len() - i,
    {
        let b = match resolve_variable(ctx, c.is_numeric[i].as_str()) {
            Some(s) => all_ascii_digits(s.as_str()),
            None => false,
        };
        out.push(b);
        i = i + 1;
    }
    let ghost s3 = out@;
    assert(s3 =~= s2 + c.is_numeric@.map_values(
        |v: String|
            match spec_resolve_variable(env, v@) {
                Some(s) => ascii_digits(s),
                None => false,
            },
    ));
    i = 0;
    while i < c.is_uncertain_date.len()
        invariant
            i <= c.is_uncertain_date@.len(),
            env == env_of(*ctx),
            out@ =~= s3 + c.is_uncertain_date@.subrange(0, i as int).map_values(
                |v: String|
                    match date_var(env.item, v@) {
                        Some(d) => d.circa,
                        None => false,
                    },
            ),
        decreases c.is_uncertain_date@.len() - i,
    {
        let b = match date_var_of(ctx.item, c.is_uncertain_date[i].as_str()) {
            Some(d) => d.circa,
            None => false,
        };
        out.push(b);
        i = i + 1;
    }
    let ghost s4 = out@;
    assert(s4 =~= s3 + c.is_uncertain_date@.map_values(
        |v: String|
            match date_var(env.item, v@) {
                Some(d) => d.circa,
                None => false,
            },
    ));
    i = 0;
    while i < c.position.len()
        invariant
            i <= c.position@.len(),
            env == env_of(*ctx),
            out@ =~= s4 + c.position@.subrange(0, i as int).map_values(
                |p: String|
                    if p@ == "first"@ {
                        env.position == 1
                    } else if p@ == "subsequent"@ {
                        env.position > 1
                    } else {
                        false
                    },
            ),
        decreases c.position@.len() - i,
    {
        let p = c.position[i].as_str();
        let b = if str_eq(p, "first") {
            ctx.position == 1
        } else if str_eq(p, "subsequent") {
            ctx.position > 1
        } else {
            false
        };
        out.push(b);
        i = i + 1;
    }
    let ghost s5 = out@;
    assert(s5 =~= s4 + c.position@.map_values(
        |p: String|
            if p@ == "first"@ {
                env.position == 1
            } else if p@ == "subsequent"@ {
                env.position > 1
            } else {
                false
            },
    ));
    i = 0;
    while i < c.locator.len()
        invariant
            i <= c.locator@.len(),
            out@ =~= s5 + c.locator@.subrange(0, i as int).map_values(|l: String| false),
        decreases c.locator@.len() - i,
    {
        out.push(false);
        i = i + 1;
    }
    let ghost s6 = out@;
    assert(s6 =~= s5 + c.locator@.map_values(|l: String| false));
    if c.disambiguate {
        out.push(true);
    }
    assert(out@ =~= cond_checks(env, *c));
    out
}

/// Whether a condition set holds for the reference.
fn evaluate_conditions(ctx: &RenderContext, c: &Conditions) -> (r: bool)
    ensures
        r == spec_evaluate_conditions(env_of(*ctx), *c),
{
    let ch = condition_checks(ctx, c);
    if ch.len() == 0 {
        return true;
    }
    let mut i: usize = 0;
    match c.match_kind {
        MatchKind::All => {
            while i < ch.len()
                invariant
                    i <= ch@.len(),
                    ch@ == cond_checks(env_of(*ctx), *c),
                    ch@.len() > 0,
                    c.match_kind == MatchKind::All,
                    forall|j: int| 0 <= j < i ==> #[trigger] ch@[j],
                decreases ch@.len() - i,
            {
                if !ch[i] {
                    assert(!ch@[i as int]);
                    return false;
                }
                i = i + 1;
            }
            true
        },
        MatchKind::Any => {
            while i < ch.len()
                invariant
                    i <= ch@.len(),
                    ch@ == cond_checks(env_of(*ctx), *c),
                    ch@.len() > 0,
                    c.match_kind == MatchKind::Any,
                    forall|j: int| 0 <= j < i ==> !#[trigger] ch@[j],
                decreases ch@.len() - i,
            {
                if ch[i] {
                    assert(ch@[i as int]);
                    return true;
                }
                i = i + 1;
            }
            false
        },
        MatchKind::NoneOf => {
            while i < ch.len()
                invariant
                    i <= ch@.len(),
                    ch@ == cond_checks(env_of(*ctx), *c),
                    ch@.len() > 0,
                    c.match_kind == MatchKind::NoneOf,
                    forall|j: int| 0 <= j < i ==> !#[trigger] ch@[j],
                decreases ch@.len() - i,
            {
                if ch[i] {
                    assert(ch@[i as int]);
                    return false;
                }
                i = i + 1;
            }
            true
        },
    }
}

// ─────────────────────────────────────────────────────────────────
// Token outputs
// ─────────────────────────────────────────────────────────────────

/// What a render through `c0` gave: `c1` differs from it in its group
/// scopes only, and the tokens and scopes are those `spec` gives.
pub open spec fn rendered(c0: RenderContext, c1: RenderContext, r: Seq<Token>, spec: (Seq<TokV>, Scopes)) -> bool {
    same_env(c0, c1) && toks_view(r) == spec.0 && c1.group_scopes@ == spec.1
}

/// Affix wrapping as plain values.
proof fn lemma_affix_view(inner: Token, p: Option<Seq<char>>, s: Option<Seq<char>>, r: Seq<Token>)
    requires
        affixes_wrap(inner, p, s, r),
    ensures
        toks_view(r) == affix_v(tok_view(inner), p, s),
{
    lemma_toks_view(r);
    if p is None && s is None {
        assert(toks_view(r) =~= seq![tok_view(inner)]);
    } else {
        let g = r[0];
        let children = g->Group_children;
        lemma_toks_view(children@);
        assert(toks_view(children@) =~= seq![tok_view(inner)]);
        assert(g->Group_formatting == plain());
        assert(toks_view(r) =~= affix_v(tok_view(inner), p, s));
    }
}

/// `<names>` wrapping as plain values.
proof fn lemma_names_wrap_view(names: NamesElement, inner: Seq<Token>, r: Seq<Token>)
    requires
        names_wrapped(names, inner, r),
    ensures
        toks_view(r) == names_wrap_v(names, toks_view(inner)),
{
    lemma_toks_view(r);
    if !(names.prefix is None && names.suffix is None && names.delimiter is None) {
        assert(r[0]->Group_formatting == plain());
        assert(toks_view(r) =~= names_wrap_v(names, toks_view(inner)));
    }
}

/// The view of a one-token list.
proof fn lemma_one_view(t: Token)
    ensures
        toks_view(seq![t]) == seq![tok_view(t)],
{
    lemma_toks_view(seq![t]);
    assert(toks_view(seq![t]) =~= seq![tok_view(t)]);
}

/// An optional string slice as plain value.
pub open spec fn sview(o: Option<&str>) -> Option<Seq<char>> {
    match o {
        Some(s) => Some(s@),
        None => None,
    }
}

/// The string slice of an optional string, as plain value.
proof fn lemma_as_opt(o: Option<String>, r: Option<&str>)
    requires
        match r {
            Some(s) => o matches Some(x) && s@ == x@,
            None => o is None,
        },
    ensures
        sview(r) == ostr(o),
{
}

/// The tokens of a `<text>` whose source resolved to `raw`.
fn text_tokens(text: &TextElement, raw: Option<String>) -> (r: Vec<Token>)
    ensures
        toks_view(r@) == text_out(*text, ostr(raw)),
{
    match raw {
        None => Vec::new(),
        Some(s0) => {
            let mut s = s0;
            apply_inline_pipeline(&mut s, text.text_case, text.strip_periods, text.quotes);
            let inner = Token::Text { text: s, formatting: text.formatting };
            let p = as_opt_str(&text.prefix);
            let q = as_opt_str(&text.suffix);
            proof {
                lemma_as_opt(text.prefix, p);
                lemma_as_opt(text.suffix, q);
            }
            let r = wrap_with_affixes(inner, p, q);
            proof {
                lemma_affix_view(inner, sview(p), sview(q), r@);
            }
            r
        },
    }
}

/// A text token with affixes.
fn affixed_text(s: String, formatting: Formatting, prefix: &Option<String>, suffix: &Option<String>) -> (r: Vec<Token>)
    ensures
        toks_view(r@) == affix_v(TokV::Text { text: s@, formatting }, ostr(*prefix), ostr(*suffix)),
{
    let inner = Token::Text { text: s, formatting };
    let p = as_opt_str(prefix);
    let q = as_opt_str(suffix);
    proof {
        lemma_as_opt(*prefix, p);
        lemma_as_opt(*suffix, q);
    }
    let r = wrap_with_affixes(inner, p, q);
    proof {
        lemma_affix_view(inner, sview(p), sview(q), r@);
    }
    r
}

// ─────────────────────────────────────────────────────────────────
// Leaf elements
// ─────────────────────────────────────────────────────────────────

/// Renders a `<number>`.
fn render_number(ctx: &mut RenderContext, num: &NumberElement) -> (r: Vec<Token>)
    ensures
        rendered(*old(ctx), *final(ctx), r@, r_number(env_of(*old(ctx)), old(ctx).group_scopes@, *num)),
{
    let raw = resolve_variable(ctx, num.variable.as_str());
    ctx.track_variable(raw.is_some());
    match raw {
        None => Vec::new(),
        Some(v) => {
            let s = match num.text_case {
                Some(case) => transform_case(v.as_str(), case),
                None => v,
            };
            affixed_text(s, num.formatting, &num.prefix, &num.suffix)
        },
    }
}

/// The rendered date parts, concatenated.
fn date_parts_string(ps: &Vec<DatePart>, parts: &[i32], filter: &Option<DatePartsFilter>) -> (r: String)
    ensures
        r@ == date_parts_text(ps@, parts@, *filter),
{
    let mut out: Vec<char> = Vec::new();
    let mut i: usize = 0;
    while i < ps.len()
        invariant
            i <= ps@.len(),
            out@ == date_parts_text(ps@.subrange(0, i as int), parts@, *filter),
        decreases ps@.len() - i,
    {
        assert(ps@.subrange(0, i + 1).drop_last() =~= ps@.subrange(0, i as int));
        match render_date_part(&ps[i], parts, filter) {
            Some(s) => push_all(&mut out, chars_of(s.as_str()).as_slice()),
            None => {},
        }
        i = i + 1;
    }
    assert(ps@.subrange(0, ps@.len() as int) =~= ps@);
    string_from_chars(out.as_slice())
}

/// The text of a date with parts `parts`.
fn date_string(ctx: &RenderContext, date: &DateElement, parts: &[i32]) -> (r: String)
    ensures
        r@ == date_text(env_of(*ctx), *date, parts@),
{
    if date.date_parts.len() > 0 {
        date_parts_string(&date.date_parts, parts, &date.date_parts_filter)
    } else if date.form.is_some() {
        let ld = match date.form {
            Some(DateForm::Text) => &ctx.locale.date_text,
            Some(DateForm::Numeric) => &ctx.locale.date_numeric,
            None => &ctx.locale.date_text,
        };
        match ld {
            Some(l) => date_parts_string(&l.date_parts, parts, &date.date_parts_filter),
            None => {
                let y: i32 = if parts.len() > 0 {
                    parts[0]
                } else {
                    0
                };
                int_decimal_string(y as i64)
            },
        }
    } else if parts.len() > 0 {
        int_decimal_string(parts[0] as i64)
    } else {
        String::new()
    }
}

/// Renders a `<date>`.
fn render_date(ctx: &mut RenderContext, date: &DateElement) -> (r: Vec<Token>)
    ensures
        rendered(*old(ctx), *final(ctx), r@, r_date(env_of(*old(ctx)), old(ctx).group_scopes@, *date)),
{
    let item = ctx.item;
    let d = match date_var_of(item, date.variable.as_str()) {
        None => {
            ctx.track_variable(false);
            return Vec::new();
        },
        Some(d) => d,
    };
    ctx.track_variable(true);
    if d.date_parts.len() == 0 {
        return match &d.literal {
            Some(lit) => affixed_text(lit.clone(), date.formatting, &date.prefix, &date.suffix),
            None => Vec::new(),
        };
    }
    let s = date_string(ctx, date, d.date_parts[0].as_slice());
    if s.as_str().is_empty() {
        return Vec::new();
    }
    affixed_text(s, date.formatting, &date.prefix, &date.suffix)
}

/// Removes every `.`.
fn strip_dots(s: &str) -> (r: String)
    ensures
        r@ == seq_replace(s@, seq!['.'], Seq::empty()),
{
    let cs = chars_of(s);
    let mut pat: Vec<char> = Vec::new();
    pat.push('.');
    assert(pat@ =~= seq!['.']);
    let rep: Vec<char> = Vec::new();
    string_from_chars(replace_all(cs.as_slice(), pat.as_slice(), rep.as_slice()).as_slice())
}

/// Renders a `<label>`: the term of its variable.
fn render_label(ctx: &RenderContext, label: &LabelElement) -> (r: Vec<Token>)
    ensures
        toks_view(r@) == label_out(env_of(*ctx), *label),
{
    let var = match &label.variable {
        Some(v) => v.as_str(),
        None => {
            return Vec::new();
        },
    };
    if var.is_empty() {
        return Vec::new();
    }
    let pl = as_opt_str(&label.plural);
    let fm = as_opt_str(&label.form);
    proof {
        lemma_as_opt(label.plural, pl);
        lemma_as_opt(label.form, fm);
    }
    let plural = label_plural(ctx.item, var, pl);
    let form = parse_term_form(fm);
    match resolve_term(ctx, var, form, plural) {
        None => Vec::new(),
        Some(text) => {
            let s1 = if label.strip_periods {
                strip_dots(text.as_str())
            } else {
                text
            };
            let s2 = match label.text_case {
                Some(c) => transform_case(s1.as_str(), c),
                None => s1,
            };
            affixed_text(s2, label.formatting, &label.prefix, &label.suffix)
        },
    }
}

// ─────────────────────────────────────────────────────────────────
// Names
// ─────────────────────────────────────────────────────────────────

/// The names of a name variable of the reference.
fn name_var_of<'b>(item: &'b CslItem, name: &str) -> (r: Option<&'b Vec<NameVar>>)
    ensures
        match r {
            Some(v) => v@ == name_var(*item, name@),
            None => name_var(*item, name@).len() == 0,
        },
{
    if str_eq(name, "author") {
        Some(&item.author)
    } else if str_eq(name, "editor") {
        Some(&item.editor)
    } else if str_eq(name, "translator") {
        Some(&item.translator)
    } else {
        None
    }
}

/// An optional reference as an optional value.
pub open spec fn oref<T>(o: Option<&T>) -> Option<T> {
    match o {
        Some(x) => Some(*x),
        None => None,
    }
}

/// The connector before the last name.
fn connector(ctx: &RenderContext, name: Option<&NameElement>) -> (r: String)
    ensures
        r@ == names_connector(env_of(*ctx), oref(name)),
{
    let symbol = match name {
        Some(nm) => match nm.and {
            Some(NameAnd::Symbol) => true,
            _ => false,
        },
        None => false,
    };
    if symbol {
        "&".to_owned()
    } else {
        match resolve_term(ctx, "and", TermForm::Long, false) {
            Some(s) => s,
            None => "and".to_owned(),
        }
    }
}

/// The text of the et-al term.
fn et_al_string(ctx: &RenderContext, names: &NamesElement) -> (r: String)
    ensures
        r@ == et_al_text(env_of(*ctx), *names),
{
    let term: &str = match &names.et_al {
        Some(e) => match &e.term {
            Some(x) => x.as_str(),
            None => "et-al",
        },
        None => "et-al",
    };
    match resolve_term(ctx, term, TermForm::Long, false) {
        Some(s) => s,
        None => "et al.".to_owned(),
    }
}

/// Renders one name variable's names as a single text token.
fn render_one_names_var(
    ctx: &RenderContext,
    names: &NamesElement,
    name: Option<&NameElement>,
    people: &Vec<NameVar>,
) -> (r: Vec<Token>)
    ensures
        toks_view(r@) == seq![
            TokV::Text { text: names_text(env_of(*ctx), *names, oref(name), people@), formatting: names.formatting },
        ],
{
    let ghost env = env_of(*ctx);
    let total = people.len();
    let (et_al_min, et_al_use_first) = et_al_thresholds(name, names.formatting, &ctx.style.citation);
    let (visible, use_et_al): (usize, bool) = match (et_al_min, et_al_use_first) {
        (Some(min), Some(first)) => if (total as u32) >= min {
            (
                if (first as usize) < total {
                    first as usize
                } else {
                    total
                },
                true,
            )
        } else {
            (total, false)
        },
        _ => (total, false),
    };
    proof {
        assert((visible as int, use_et_al) == names_shown(env, oref(name), people@.len() as int));
    }
    let ghost fsv = people@.take(visible as int).map_values(|n: NameVar| spec_format_one_name(oref(name), n));
    let delim: String = match name {
        Some(nm) => match &nm.delimiter {
            Some(d) => d.clone(),
            None => ", ".to_owned(),
        },
        None => ", ".to_owned(),
    };
    let conn = connector(ctx, name);
    let mut out: Vec<char> = Vec::new();
    let mut i: usize = 0;
    while i < visible
        invariant
            i <= visible <= people@.len(),
            fsv == people@.take(visible as int).map_values(|n: NameVar| spec_format_one_name(oref(name), n)),
            fsv.len() == visible,
            out@ == joined_names(fsv, i as int, delim@, conn@, use_et_al),
        decreases visible - i,
    {
        if i > 0 {
            push_all(&mut out, chars_of(delim.as_str()).as_slice());
            if i == visible - 1 && !use_et_al {
                push_all(&mut out, chars_of(conn.as_str()).as_slice());
                out.push(' ');
            }
        }
        let f = format_one_name(name, &people[i]);
        push_all(&mut out, chars_of(f.as_str()).as_slice());
        proof {
            assert(fsv[i as int] == spec_format_one_name(oref(name), people@[i as int]));
            assert(out@ =~= joined_names(fsv, i as int, delim@, conn@, use_et_al) + name_sep(
                i as int,
                fsv.len() as int,
                delim@,
                conn@,
                use_et_al,
            ) + fsv[i as int]);
        }
        i = i + 1;
    }
    if use_et_al {
        push_all(&mut out, chars_of(delim.as_str()).as_slice());
        let e = et_al_string(ctx, names);
        push_all(&mut out, chars_of(e.as_str()).as_slice());
    }
    proof {
        assert(delim@ == names_delim(oref(name)));
        assert(out@ =~= names_text(env, *names, oref(name), people@));
    }
    let mut r: Vec<Token> = Vec::new();
    r.push(Token::Text { text: string_from_chars(out.as_slice()), formatting: names.formatting });
    proof {
        lemma_one_view(r@[0]);
        assert(r@ =~= seq![r@[0]]);
    }
    r
}

// ─────────────────────────────────────────────────────────────────
// Elements
// ─────────────────────────────────────────────────────────────────

/// The body of the first macro of the style named `name`.
fn macro_body<'b>(style: &'b Style, name: &str) -> (r: Option<&'b Vec<Element>>)
    ensures
        match r {
            Some(b) => macro_lookup(style.macros@, name@) == Some(b@),
            None => macro_lookup(style.macros@, name@) is None,
        },
{
    let ms = &style.macros;
    let mut i: usize = 0;
    assert(ms@.subrange(0, ms@.len() as int) =~= ms@);
    while i < ms.len()
        invariant
            i <= ms@.len(),
            *ms == style.macros,
            macro_lookup(ms@, name@) == macro_lookup(ms@.subrange(i as int, ms@.len() as int), name@),
        decreases ms@.len() - i,
    {
        assert(ms@.subrange(i as int, ms@.len() as int).drop_first() =~= ms@.subrange(i + 1, ms@.len() as int));
        if str_eq(ms[i].name.as_str(), name) {
            return Some(&ms[i].body);
        }
        i = i + 1;
    }
    None
}

/// Renders a list of elements in order, one token list after another.
pub fn render_elements(ctx: &mut RenderContext, body: &Vec<Element>) -> (r: Vec<Token>)
    ensures
        rendered(
            *old(ctx),
            *final(ctx),
            r@,
            r_elems(env_of(*old(ctx)), old(ctx).macro_depth as int, old(ctx).group_scopes@, body@),
        ),
    decreases MAX_MACRO_DEPTH - old(ctx).macro_depth, body@, 1int,
{
    let ghost c0 = *ctx;
    let ghost env = env_of(*ctx);
    let ghost d = ctx.macro_depth as int;
    let mut out: Vec<Token> = Vec::new();
    let mut i: usize = 0;
    assert(body@.subrange(0, body@.len() as int) =~= body@);
    while i < body.len()
        invariant
            i <= body@.len(),
            c0 == *old(ctx),
            same_env(c0, *ctx),
            env == env_of(c0),
            d == c0.macro_depth as int,
            r_elems(env, d, c0.group_scopes@, body@).0 == toks_view(out@) + r_elems(
                env,
                d,
                ctx.group_scopes@,
                body@.subrange(i as int, body@.len() as int),
            ).0,
            r_elems(env, d, c0.group_scopes@, body@).1 == r_elems(
                env,
                d,
                ctx.group_scopes@,
                body@.subrange(i as int, body@.len() as int),
            ).1,
        decreases body@.len() - i,
    {
        let ghost sc = ctx.group_scopes@;
        let ghost rest = body@.subrange(i as int, body@.len() as int);
        assert(rest[0] == body@[i as int]);
        assert(rest.subrange(1, rest.len() as int) =~= body@.subrange(i + 1, body@.len() as int));
        let ghost o0 = out@;
        proof {
            assert(decreases_to!(body@ => body@[i as int]));
        }
        let mut t = render_element(ctx, &body[i]);
        proof {
            lemma_toks_view_add(o0, t@);
        }
        out.append(&mut t);
        i = i + 1;
    }
    out
}

/// Renders one element.
pub fn render_element(ctx: &mut RenderContext, elem: &Element) -> (r: Vec<Token>)
    ensures
        rendered(
            *old(ctx),
            *final(ctx),
            r@,
            r_elem(env_of(*old(ctx)), old(ctx).macro_depth as int, old(ctx).group_scopes@, *elem),
        ),
    decreases MAX_MACRO_DEPTH - old(ctx).macro_depth, *elem, 2int,
{
    match elem {
        Element::Text(t) => render_text(ctx, t, Ghost(*elem)),
        Element::Number(n) => render_number(ctx, n),
        Element::Group(g) => render_group(ctx, g),
        Element::Choose(c) => render_choose(ctx, c),
        Element::Names(n) => render_names(ctx, n, n.name.as_ref()),
        Element::Date(d) => render_date(ctx, d),
        Element::Label(l) => render_label(ctx, l),
    }
}

/// Renders a `<text>` (the element `e`).
fn render_text(ctx: &mut RenderContext, text: &TextElement, Ghost(e): Ghost<Element>) -> (r: Vec<Token>)
    requires
        e == Element::Text(*text),
    ensures
        rendered(*old(ctx), *final(ctx), r@, r_text(env_of(*old(ctx)), old(ctx).macro_depth as int, old(ctx).group_scopes@, e)),
    decreases MAX_MACRO_DEPTH - old(ctx).macro_depth, e, 1int,
{
    match &text.source {
        TextSource::Variable(name) => {
            let v = resolve_variable(ctx, name.as_str());
            ctx.track_variable(v.is_some());
            text_tokens(text, v)
        },
        TextSource::Macro(name) => render_macro(ctx, name.as_str(), text, Ghost(e)),
        TextSource::Term(name) => {
            let fm = as_opt_str(&text.form);
            proof {
                lemma_as_opt(text.form, fm);
            }
            let form = parse_term_form(fm);
            let v = resolve_term(ctx, name.as_str(), form, false);
            text_tokens(text, v)
        },
        TextSource::Value(s) => {
            let v = if s.as_str().is_empty() {
                None
            } else {
                Some(s.clone())
            };
            text_tokens(text, v)
        },
    }
}

/// Renders `<text macro="name">` (the element `e`).
fn render_macro(ctx: &mut RenderContext, name: &str, text: &TextElement, Ghost(e): Ghost<Element>) -> (r: Vec<Token>)
    requires
        e == Element::Text(*text),
        text.source matches TextSource::Macro(n) && n@ == name@,
    ensures
        rendered(*old(ctx), *final(ctx), r@, r_macro(env_of(*old(ctx)), old(ctx).macro_depth as int, old(ctx).group_scopes@, e)),
    decreases MAX_MACRO_DEPTH - old(ctx).macro_depth, e, 0int,
{
    if ctx.macro_depth >= MAX_MACRO_DEPTH {
        return Vec::new();
    }
    let style = ctx.style;
    let body = match macro_body(style, name) {
        None => {
            return Vec::new();
        },
        Some(b) => b,
    };
    ctx.macro_depth = ctx.macro_depth + 1;
    let mut tokens = render_elements(ctx, body);
    ctx.macro_depth = ctx.macro_depth - 1;
    if tokens_all_empty(&tokens) {
        return Vec::new();
    }
    match text.text_case {
        Some(case) => {
            tokens = map_all(tokens, &LeafOp::Case(case));
        },
        None => {},
    }
    if text.strip_periods {
        tokens = map_all(tokens, &LeafOp::StripPeriods);
    }
    if !text.formatting.is_empty() || text.prefix.is_some() || text.suffix.is_some() {
        let mut r: Vec<Token> = Vec::new();
        r.push(
            Token::Group {
                children: tokens,
                delimiter: None,
                prefix: text.prefix.clone(),
                suffix: text.suffix.clone(),
                formatting: text.formatting,
                fail_if_empty: true,
            },
        );
        proof {
            lemma_one_view(r@[0]);
            assert(r@ =~= seq![r@[0]]);
        }
        return r;
    }
    tokens
}

/// Renders a `<group>`.
fn render_group(ctx: &mut RenderContext, group: &GroupElement) -> (r: Vec<Token>)
    ensures
        rendered(*old(ctx), *final(ctx), r@, r_group(env_of(*old(ctx)), old(ctx).macro_depth as int, old(ctx).group_scopes@, *group)),
    decreases MAX_MACRO_DEPTH - old(ctx).macro_depth, *group, 1int,
{
    ctx.group_scopes.push((0, 0));
    proof {
        assert(decreases_to!(*group => group.body));
        assert(decreases_to!(group.body => group.body@));
    }
    let children = render_elements(ctx, &group.body);
    let (attempted, rendered_count) = match ctx.group_scopes.pop() {
        Some(x) => x,
        None => (0, 0),
    };
    if attempted > 0 && rendered_count == 0 {
        ctx.track_variable(false);
        return Vec::new();
    }
    if attempted > 0 {
        ctx.track_variable(true);
    }
    if tokens_all_empty(&children) {
        return Vec::new();
    }
    let mut r: Vec<Token> = Vec::new();
    r.push(
        Token::Group {
            children,
            delimiter: group.delimiter.clone(),
            prefix: group.prefix.clone(),
            suffix: group.suffix.clone(),
            formatting: group.formatting,
            fail_if_empty: true,
        },
    );
    proof {
        lemma_one_view(r@[0]);
        assert(r@ =~= seq![r@[0]]);
    }
    r
}

/// Renders a `<choose>`: the first branch whose conditions hold, else
/// the `else` body.
fn render_choose(ctx: &mut RenderContext, choose: &ChooseElement) -> (r: Vec<Token>)
    ensures
        rendered(*old(ctx), *final(ctx), r@, r_choose(env_of(*old(ctx)), old(ctx).macro_depth as int, old(ctx).group_scopes@, *choose)),
    decreases MAX_MACRO_DEPTH - old(ctx).macro_depth, *choose, 1int,
{
    let ghost env = env_of(*ctx);
    let bs = &choose.branches;
    let mut i: usize = 0;
    assert(bs@.subrange(0, bs@.len() as int) =~= bs@);
    while i < bs.len()
        invariant
            i <= bs@.len(),
            *bs == choose.branches,
            *ctx == *old(ctx),
            env == env_of(*ctx),
            first_match(env, bs@) == (match first_match(env, bs@.subrange(i as int, bs@.len() as int)) {
                Some(k) => Some(k + i),
                None => None,
            }),
        decreases bs@.len() - i,
    {
        assert(bs@.subrange(i as int, bs@.len() as int)[0] == bs@[i as int]);
        assert(bs@.subrange(i as int, bs@.len() as int).drop_first() =~= bs@.subrange(i + 1, bs@.len() as int));
        if evaluate_conditions(ctx, &bs[i].conditions) {
            proof {
                assert(decreases_to!(*choose => choose.branches));
                assert(decreases_to!(choose.branches => choose.branches@));
                assert(decreases_to!(choose.branches@ => choose.branches@[i as int]));
                assert(decreases_to!(choose.branches@[i as int] => choose.branches@[i as int].body));
                assert(decreases_to!(choose.branches@[i as int].body => choose.branches@[i as int].body@));
            }
            return render_elements(ctx, &bs[i].body);
        }
        i = i + 1;
    }
    proof {
        assert(decreases_to!(*choose => choose.else_body));
        assert(decreases_to!(choose.else_body => choose.else_body@));
    }
    render_elements(ctx, &choose.else_body)
}

/// Renders a `<names>` with the `<name>` in effect `name`.
fn render_names(ctx: &mut RenderContext, names: &NamesElement, name: Option<&NameElement>) -> (r: Vec<Token>)
    ensures
        rendered(
            *old(ctx),
            *final(ctx),
            r@,
            r_names(env_of(*old(ctx)), old(ctx).macro_depth as int, old(ctx).group_scopes@, *names, oref(name)),
        ),
    decreases MAX_MACRO_DEPTH - old(ctx).macro_depth, *names, 1int,
{
    let ghost c0 = *ctx;
    let ghost env = env_of(*ctx);
    let ghost d = ctx.macro_depth as int;
    let item = ctx.item;
    let vars = &names.variables;
    let mut i: usize = 0;
    assert(vars@.subrange(0, vars@.len() as int) =~= vars@);
    while i < vars.len()
        invariant
            i <= vars@.len(),
            *vars == names.variables,
            item == c0.item,
            *ctx == c0,
            c0 == *old(ctx),
            first_people(*item, vars@) == first_people(*item, vars@.subrange(i as int, vars@.len() as int)),
        decreases vars@.len() - i,
    {
        assert(vars@.subrange(i as int, vars@.len() as int)[0] == vars@[i as int]);
        assert(vars@.subrange(i as int, vars@.len() as int).drop_first() =~= vars@.subrange(i + 1, vars@.len() as int));
        match name_var_of(item, vars[i].as_str()) {
            Some(people) => {
                if people.len() > 0 {
                    let t = render_one_names_var(ctx, names, name, people);
                    ctx.track_variable(true);
                    let r = wrap_names_affixes(names, t);
                    proof {
                        lemma_names_wrap_view(*names, t@, r@);
                    }
                    return r;
                }
            },
            None => {},
        }
        i = i + 1;
    }
    if vars.len() > 0 {
        ctx.track_variable(false);
    }
    let subs = &names.substitute;
    let mut j: usize = 0;
    assert(subs@.subrange(0, subs@.len() as int) =~= subs@);
    proof {
        assert(decreases_to!(*names => names.substitute));
        assert(decreases_to!(names.substitute => names.substitute@));
    }
    while j < subs.len()
        invariant
            j <= subs@.len(),
            *subs == names.substitute,
            c0 == *old(ctx),
            same_env(c0, *ctx),
            env == env_of(c0),
            d == c0.macro_depth as int,
            decreases_to!(*names => subs@),
            r_names(env, d, c0.group_scopes@, *names, oref(name)) == r_subst(
                env,
                d,
                ctx.group_scopes@,
                *names,
                oref(name),
                subs@.subrange(j as int, subs@.len() as int),
            ),
        decreases subs@.len() - j,
    {
        let ghost rest = subs@.subrange(j as int, subs@.len() as int);
        assert(rest[0] == subs@[j as int]);
        assert(rest.subrange(1, rest.len() as int) =~= subs@.subrange(j + 1, subs@.len() as int));
        let elem = &subs[j];
        let toks = match elem {
            Element::Names(child) => if child.name.is_none() && name.is_some() {
                proof {
                    assert(decreases_to!(subs@ => subs@[j as int]));
                    assert(decreases_to!(subs@[j as int] => *child));
                }
                render_names(ctx, child, name)
            } else {
                proof {
                    assert(decreases_to!(subs@ => subs@[j as int]));
                }
                render_element(ctx, elem)
            },
            _ => {
                proof {
                    assert(decreases_to!(subs@ => subs@[j as int]));
                }
                render_element(ctx, elem)
            },
        };
        if !tokens_all_empty(&toks) {
            let r = wrap_names_affixes(names, toks);
            proof {
                lemma_names_wrap_view(*names, toks@, r@);
            }
            return r;
        }
        j = j + 1;
    }
    Vec::new()
}

/// Renders a `<layout>` body; the layout's affixes and delimiter wrap
/// it in a group that is never suppressed.
pub fn render_layout(ctx: &mut RenderContext, layout: &Layout) -> (r: Vec<Token>)
    ensures
        rendered(*old(ctx), *final(ctx), r@, r_layout(env_of(*old(ctx)), old(ctx).macro_depth as int, old(ctx).group_scopes@, *layout)),
{
    let children = render_elements(ctx, &layout.body);
    if layout.prefix.is_none() && layout.suffix.is_none() && layout.delimiter.is_none() {
        return children;
    }
    let mut r: Vec<Token> = Vec::new();
    r.push(
        Token::Group {
            children,
            delimiter: layout.delimiter.clone(),
            prefix: layout.prefix.clone(),
            suffix: layout.suffix.clone(),
            formatting: layout.formatting,
            fail_if_empty: false,
        },
    );
    proof {
        lemma_one_view(r@[0]);
        assert(r@ =~= seq![r@[0]]);
    }
    r
}

} // verus!
