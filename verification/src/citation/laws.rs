//! Properties of the CSL reader and renderer as a whole.

use vstd::prelude::*;

use crate::citation::ast::{Element, GroupElement, Layout};
use crate::citation::grammar::{macro_insert, macro_names, MacroTable};
use crate::citation::ast::{FontStyle, FontWeight, Formatting, NameElement, NameForm, TextCase, VerticalAlign};
use crate::citation::format::{html_escape, Html, OutputFormat};
use crate::citation::ir::{spec_is_stop_word, spec_ser_token, Token};
use crate::citation::parser::spec_text_case_from;
use crate::citation::renderer::{spaced, spec_format_one_name};
use crate::citation::NameVar;
use crate::text::spec_trim;
use crate::citation::render::{rendered, RenderContext};
use crate::citation::render_spec::{r_elems, r_group, r_layout, r_macro, Env, Scopes, MAX_MACRO_DEPTH};
use crate::citation::tokens::{toks_view, TokV};
use crate::text::{lemma_seq_lt_total, lemma_seq_lt_trans, seq_lt, strictly_sorted};

verus! {

/// The body a macro table holds under `k`.
pub open spec fn table_get(s: MacroTable, k: Seq<char>) -> Option<Seq<Element>>
    decreases s.len(),
{
    if s.len() == 0 {
        None
    } else if s[0].0 == k {
        Some(s[0].1)
    } else {
        table_get(s.drop_first(), k)
    }
}

/// A style's macros behave as a map ordered by name: setting a macro
/// keeps the names distinct and in increasing order, the name then
/// holds the body last set, and every other name keeps its body; its
/// names are those of before and the one set.
pub proof fn law_macro_insert(s: MacroTable, k: Seq<char>, v: Seq<Element>, j: Seq<char>)
    requires
        strictly_sorted(macro_names(s)),
    ensures
        strictly_sorted(macro_names(macro_insert(s, k, v))),
        table_get(macro_insert(s, k, v), k) == Some(v),
        j != k ==> table_get(macro_insert(s, k, v), j) == table_get(s, j),
        forall|i: int|
            0 <= i < macro_insert(s, k, v).len() ==> (#[trigger] macro_insert(s, k, v)[i]).0 == k || macro_names(
                s,
            ).contains(macro_insert(s, k, v)[i].0),
    decreases s.len(),
{
    let r = macro_insert(s, k, v);
    if s.len() == 0 {
        assert(macro_names(r) =~= seq![k]);
        assert(r.drop_first() =~= Seq::<(Seq<char>, Seq<Element>)>::empty());
        if j != k {
            assert(table_get(r, j) == table_get(r.drop_first(), j));
        }
    } else if s[0].0 == k {
        assert(macro_names(r) =~= macro_names(s));
        assert(r.drop_first() =~= s.drop_first());
        if j != k {
            assert(table_get(r, j) == table_get(r.drop_first(), j));
        }
        assert forall|i: int| 0 <= i < r.len() implies (#[trigger] r[i]).0 == k || macro_names(s).contains(r[i].0) by {
            if i > 0 {
                assert(macro_names(s)[i] == r[i].0);
            }
        }
    } else if seq_lt(k, s[0].0) {
        assert(r.drop_first() =~= s);
        let ns = macro_names(s);
        assert forall|a: int, b: int| 0 <= a < b < macro_names(r).len() implies seq_lt(
            macro_names(r)[a],
            macro_names(r)[b],
        ) by {
            if a == 0 {
                if b > 1 {
                    lemma_seq_lt_trans(k, ns[0], ns[b - 1]);
                }
            } else {
                assert(macro_names(r)[a] == ns[a - 1]);
                assert(macro_names(r)[b] == ns[b - 1]);
            }
        }
        assert forall|i: int| 0 <= i < r.len() implies (#[trigger] r[i]).0 == k || macro_names(s).contains(r[i].0) by {
            if i > 0 {
                assert(ns[i - 1] == r[i].0);
            }
        }
        lemma_seq_lt_total(k, s[0].0);
        assert(table_get(r, k) == Some(v));
    } else {
        let t = s.drop_first();
        let ns = macro_names(s);
        lemma_seq_lt_total(k, s[0].0);
        assert(seq_lt(s[0].0, k));
        assert(macro_names(t) =~= ns.drop_first());
        law_macro_insert(t, k, v, j);
        let rt = macro_insert(t, k, v);
        assert(r == seq![s[0]] + rt);
        assert(r.drop_first() =~= rt);
        assert(r[0] == s[0]);
        if j != k {
            if s[0].0 == j {
                assert(table_get(r, j) == Some(s[0].1));
            } else {
                assert(table_get(r, j) == table_get(rt, j));
                assert(table_get(s, j) == table_get(t, j));
            }
        }
        assert forall|a: int, b: int| 0 <= a < b < macro_names(r).len() implies seq_lt(
            macro_names(r)[a],
            macro_names(r)[b],
        ) by {
            if a == 0 {
                let x = rt[b - 1].0;
                assert(macro_names(r)[b] == x);
                assert(macro_names(r)[0] == ns[0]);
                if x == k {
                } else {
                    assert(macro_names(t).contains(x));
                    let m = choose|m: int| 0 <= m < macro_names(t).len() && macro_names(t)[m] == x;
                    assert(ns[m + 1] == x);
                    assert(seq_lt(ns[0], ns[m + 1]));
                }
            } else {
                assert(macro_names(r)[a] == macro_names(rt)[a - 1]);
                assert(macro_names(r)[b] == macro_names(rt)[b - 1]);
            }
        }
        assert forall|i: int| 0 <= i < r.len() implies (#[trigger] r[i]).0 == k || macro_names(s).contains(r[i].0) by {
            if i == 0 {
                assert(ns[0] == r[0].0);
            } else {
                let x = rt[i - 1].0;
                assert(r[i].0 == x);
                if x != k {
                    let m = choose|m: int| 0 <= m < macro_names(t).len() && macro_names(t)[m] == x;
                    assert(ns[m + 1] == x);
                }
            }
        }
    }
}

/// Macro expansion stops at the depth cap: a macro reached at
/// [`MAX_MACRO_DEPTH`] nested expansions renders nothing and leaves the
/// group scopes as they were.
pub proof fn law_macro_depth_cap(env: Env, depth: int, sc: Scopes, e: Element)
    requires
        depth >= MAX_MACRO_DEPTH,
    ensures
        r_macro(env, depth, sc, e) == (Seq::<TokV>::empty(), sc),
{
}

/// A layout is never suppressed: with a prefix, suffix or delimiter it
/// renders exactly one group carrying them around its rendered body,
/// even when that body is empty.
pub proof fn law_layout_always_renders(env: Env, depth: int, sc: Scopes, layout: Layout)
    requires
        layout.prefix is Some || layout.suffix is Some || layout.delimiter is Some,
    ensures
        r_layout(env, depth, sc, layout).0.len() == 1,
        r_layout(env, depth, sc, layout).0[0] matches TokV::Group { children, fail_if_empty, .. } && !fail_if_empty
            && children == r_elems(env, depth, sc, layout.body@).0,
{
}

/// A group that called at least one variable, none of which rendered,
/// is suppressed whatever else it holds, and counts as one failed
/// variable call in the group around it.
pub proof fn law_group_suppressed(env: Env, depth: int, sc: Scopes, g: GroupElement)
    requires
        ({
            let sc1 = r_elems(env, depth, sc.push((0usize, 0usize)), g.body@).1;
            sc1.len() > 0 && sc1.last().0 > 0 && sc1.last().1 == 0
        }),
    ensures
        r_group(env, depth, sc, g).0.len() == 0,
{
}

/// Rendering is deterministic: two renders of the same layout from the
/// same context give the same tokens and leave the same group scopes.
pub proof fn law_render_deterministic(
    c0: RenderContext,
    c1: RenderContext,
    r1: Seq<Token>,
    c2: RenderContext,
    r2: Seq<Token>,
    layout: Layout,
)
    requires
        rendered(c0, c1, r1, r_layout(crate::citation::render::env_of(c0), c0.macro_depth as int, c0.group_scopes@, layout)),
        rendered(c0, c2, r2, r_layout(crate::citation::render::env_of(c0), c0.macro_depth as int, c0.group_scopes@, layout)),
    ensures
        toks_view(r1) == toks_view(r2),
        c1.group_scopes@ == c2.group_scopes@,
{
}

/// The English stop words that title case keeps lowercase mid-title
/// are exactly these: a, an, and, as, at, but, by, down, for, from, if,
/// in, into, nor, of, on, onto, or, out, over, so, the, till, to, up,
/// via, with, yet.
pub proof fn law_title_stop_words(w: Seq<char>)
    ensures
        spec_is_stop_word(w) <==> seq![
            "a"@, "an"@, "and"@, "as"@, "at"@, "but"@, "by"@, "down"@, "for"@, "from"@,
            "if"@, "in"@, "into"@, "nor"@, "of"@, "on"@, "onto"@, "or"@, "out"@, "over"@,
            "so"@, "the"@, "till"@, "to"@, "up"@, "via"@, "with"@, "yet"@,
        ].contains(w),
{
    let l: Seq<Seq<char>> = seq![
        "a"@, "an"@, "and"@, "as"@, "at"@, "but"@, "by"@, "down"@, "for"@, "from"@,
        "if"@, "in"@, "into"@, "nor"@, "of"@, "on"@, "onto"@, "or"@, "out"@, "over"@,
        "so"@, "the"@, "till"@, "to"@, "up"@, "via"@, "with"@, "yet"@,
    ];
    if spec_is_stop_word(w) {
        let i: int = if w == "a"@ { 0 } else if w == "an"@ { 1 } else if w == "and"@ { 2 } else if w == "as"@ {
            3
        } else if w == "at"@ { 4 } else if w == "but"@ { 5 } else if w == "by"@ { 6 } else if w == "down"@ {
            7
        } else if w == "for"@ { 8 } else if w == "from"@ { 9 } else if w == "if"@ { 10 } else if w == "in"@ {
            11
        } else if w == "into"@ { 12 } else if w == "nor"@ { 13 } else if w == "of"@ { 14 } else if w
            == "on"@ { 15 } else if w == "onto"@ { 16 } else if w == "or"@ { 17 } else if w == "out"@ {
            18
        } else if w == "over"@ { 19 } else if w == "so"@ { 20 } else if w == "the"@ { 21 } else if w
            == "till"@ { 22 } else if w == "to"@ { 23 } else if w == "up"@ { 24 } else if w == "via"@ {
            25
        } else if w == "with"@ { 26 } else { 27 };
        assert(l[i] == w);
    }
    if l.contains(w) {
        let i = choose|i: int| 0 <= i < l.len() && l[i] == w;
        assert(spec_is_stop_word(l[i]));
    }
}

/// Each `text-case` keyword names the transform of the same name, and no
/// other value names one.
pub proof fn law_text_case_keywords(s: Seq<char>)
    ensures
        spec_text_case_from("lowercase"@) == Some(TextCase::Lowercase),
        spec_text_case_from("uppercase"@) == Some(TextCase::Uppercase),
        spec_text_case_from("capitalize-first"@) == Some(TextCase::CapitalizeFirst),
        spec_text_case_from("capitalize-all"@) == Some(TextCase::Capitalize),
        spec_text_case_from("sentence"@) == Some(TextCase::Sentence),
        spec_text_case_from("title"@) == Some(TextCase::Title),
        s != "lowercase"@ && s != "uppercase"@ && s != "capitalize-first"@ && s != "capitalize-all"@ && s
            != "sentence"@ && s != "title"@ ==> spec_text_case_from(s) is None,
{
    reveal_strlit("lowercase");
    reveal_strlit("uppercase");
    reveal_strlit("capitalize-first");
    reveal_strlit("capitalize-all");
    reveal_strlit("sentence");
    reveal_strlit("title");
    assert("lowercase"@[0] == 'l' && "uppercase"@[0] == 'u' && "capitalize-first"@[0] == 'c'
        && "capitalize-all"@[0] == 'c' && "sentence"@[0] == 's' && "title"@[0] == 't');
    assert("capitalize-first"@.len() != "capitalize-all"@.len());
}

/// In sort order a personal name is the family name, then the separator
/// the `<name>` element sets or, when it sets none, ", ", then the given
/// name (no particle, no suffix, given name written in full).
pub proof fn law_sort_order_name(nm: NameElement, n: NameVar)
    requires
        nm.name_as_sort_order is Some,
        nm.form != Some(NameForm::Short),
        nm.initialize_with is None,
        n.literal is None,
        n.suffix is None,
        n.non_dropping_particle is None,
        n.family is Some,
        n.given matches Some(g) && g@.len() > 0,
    ensures
        spec_format_one_name(Some(nm), n) == n.family->Some_0@ + (match nm.sort_separator {
            Some(sep) => sep@,
            None => ", "@,
        }) + n.given->Some_0@,
{
    assert(spec_trim(Seq::<char>::empty()) =~= Seq::<char>::empty());
    assert(spaced(Seq::<char>::empty()) =~= Seq::<char>::empty());
}

/// A non-empty text token with bold weight (and no italic or
/// superscript) is written as the format's bold markup of its escaped
/// text: in HTML, `<b>` + escaped text + `</b>`.
pub proof fn law_bold_text<F: OutputFormat>(text: String, f: Formatting, fmt: F)
    requires
        text@.len() > 0,
        f.font_weight == Some(FontWeight::Bold),
        f.font_style is None,
        f.vertical_align != Some(VerticalAlign::Sup),
    ensures
        spec_ser_token(Token::Text { text, formatting: f }, fmt) == fmt.spec_bold(fmt.spec_escape(text@)),
        spec_ser_token(Token::Text { text, formatting: f }, Html) == "<b>"@ + html_escape(text@) + "</b>"@,
{
}

/// How a non-empty text token's formatting is written in HTML: no
/// formatting leaves the escaped text; italic (or oblique) wraps it in
/// `<i>`, bold in `<b>`, superscript in `<sup>`, nested in that order
/// from the inside out.
pub proof fn law_html_formatting(text: String, f: Formatting)
    requires
        text@.len() > 0,
    ensures
        ({
            let e = html_escape(text@);
            let i = if f.font_style == Some(FontStyle::Italic) || f.font_style == Some(FontStyle::Oblique) {
                "<i>"@ + e + "</i>"@
            } else {
                e
            };
            let b = if f.font_weight == Some(FontWeight::Bold) { "<b>"@ + i + "</b>"@ } else { i };
            spec_ser_token(Token::Text { text, formatting: f }, Html) == (if f.vertical_align == Some(
                VerticalAlign::Sup,
            ) {
                "<sup>"@ + b + "</sup>"@
            } else {
                b
            })
        }),
{
}

/// In display order (no `name-as-sort-order`) a personal name is the
/// given name, a space, then the family name (no particle, no suffix,
/// given name written in full).
pub proof fn law_display_order_name(nm: NameElement, n: NameVar)
    requires
        nm.name_as_sort_order is None,
        nm.form != Some(NameForm::Short),
        nm.initialize_with is None,
        n.literal is None,
        n.suffix is None,
        n.non_dropping_particle is None,
        n.family is Some,
        n.given matches Some(g) && g@.len() > 0,
    ensures
        spec_format_one_name(Some(nm), n) == n.given->Some_0@ + " "@ + n.family->Some_0@,
{
    assert(spec_trim(Seq::<char>::empty()) =~= Seq::<char>::empty());
    assert(spaced(Seq::<char>::empty()) =~= Seq::<char>::empty());
}

} // verus!
