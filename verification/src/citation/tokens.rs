//! Token trees as plain values, the view the renderer is specified in,
//! with the emptiness and leaf-transform facts of the IR carried over.

use vstd::prelude::*;

use crate::citation::ast::Formatting;
use crate::citation::ir::{
    leaves_mapped, lemma_child_decreases, spec_leaf_op, token_is_empty, LeafOp, Token,
};

verus! {

/// A token tree as plain values.
pub enum TokV {
    Text { text: Seq<char>, formatting: Formatting },
    Group {
        children: Seq<TokV>,
        delimiter: Option<Seq<char>>,
        prefix: Option<Seq<char>>,
        suffix: Option<Seq<char>>,
        formatting: Formatting,
        fail_if_empty: bool,
    },
    Link { label: Seq<char>, href: Seq<char>, formatting: Formatting },
}

/// The characters of an optional string.
pub open spec fn ostr(o: Option<String>) -> Option<Seq<char>> {
    match o {
        Some(s) => Some(s@),
        None => None,
    }
}

/// The plain form of a token.
pub open spec fn tok_view(t: Token) -> TokV
    decreases t, 0int,
{
    match t {
        Token::Text { text, formatting } => TokV::Text { text: text@, formatting },
        Token::Group { children, delimiter, prefix, suffix, formatting, fail_if_empty } => {
            proof {
                assert(decreases_to!(t => children));
                assert(decreases_to!(children => children@));
            }
            TokV::Group {
                children: toks_view(children@),
                delimiter: ostr(delimiter),
                prefix: ostr(prefix),
                suffix: ostr(suffix),
                formatting,
                fail_if_empty,
            }
        },
        Token::Link { label, href, formatting } => TokV::Link { label: label@, href: href@, formatting },
    }
}

/// The plain forms of a list of tokens.
pub open spec fn toks_view(s: Seq<Token>) -> Seq<TokV>
    decreases s, 1int,
{
    if s.len() == 0 {
        Seq::empty()
    } else {
        seq![tok_view(s[0])] + toks_view(s.subrange(1, s.len() as int))
    }
}

/// `toks_view` maps each token to its plain form.
pub proof fn lemma_toks_view(s: Seq<Token>)
    ensures
        toks_view(s).len() == s.len(),
        forall|i: int| 0 <= i < s.len() ==> #[trigger] toks_view(s)[i] == tok_view(s[i]),
    decreases s.len(),
{
    if s.len() > 0 {
        lemma_toks_view(s.subrange(1, s.len() as int));
        assert forall|i: int| 0 <= i < s.len() implies #[trigger] toks_view(s)[i] == tok_view(s[i]) by {
            if i > 0 {
                assert(s.subrange(1, s.len() as int)[i - 1] == s[i]);
            }
        }
    }
}

/// The plain forms of two lists one after the other.
pub proof fn lemma_toks_view_add(a: Seq<Token>, b: Seq<Token>)
    ensures
        toks_view(a + b) == toks_view(a) + toks_view(b),
{
    lemma_toks_view(a);
    lemma_toks_view(b);
    lemma_toks_view(a + b);
    assert(toks_view(a + b) =~= toks_view(a) + toks_view(b));
}

/// A plain token contributes no visible text.
pub open spec fn tokv_empty(v: TokV) -> bool
    decreases v,
{
    match v {
        TokV::Text { text, .. } => text.len() == 0,
        TokV::Group { children, .. } => forall|i: int| 0 <= i < children.len() ==> tokv_empty(#[trigger] children[i]),
        TokV::Link { label, .. } => label.len() == 0,
    }
}

/// Every token of the list contributes no visible text.
pub open spec fn all_empty(s: Seq<TokV>) -> bool {
    forall|i: int| 0 <= i < s.len() ==> tokv_empty(#[trigger] s[i])
}

/// Emptiness of a token is emptiness of its plain form.
pub proof fn lemma_empty_view(t: Token)
    ensures
        token_is_empty(t) == tokv_empty(tok_view(t)),
    decreases t,
{
    match t {
        Token::Group { children, delimiter, prefix, suffix, formatting, fail_if_empty } => {
            lemma_toks_view(children@);
            assert(tok_view(t) == TokV::Group {
                children: toks_view(children@),
                delimiter: ostr(delimiter),
                prefix: ostr(prefix),
                suffix: ostr(suffix),
                formatting,
                fail_if_empty,
            });
            assert forall|i: int| 0 <= i < children@.len() implies token_is_empty(#[trigger] children@[i]) == tokv_empty(
                toks_view(children@)[i],
            ) by {
                lemma_child_decreases(t, i);
                lemma_empty_view(children@[i]);
            }
            if token_is_empty(t) {
                assert forall|i: int| 0 <= i < toks_view(children@).len() implies tokv_empty(#[trigger] toks_view(children@)[i]) by {
                    assert(token_is_empty(children@[i]));
                }
            } else {
                let i = choose|i: int| 0 <= i < children@.len() && !token_is_empty(#[trigger] children@[i]);
                assert(!tokv_empty(toks_view(children@)[i]));
            }
        },
        _ => {},
    }
}

/// `v` with `op` applied to every leaf text.
pub open spec fn tokv_map(v: TokV, op: LeafOp) -> TokV
    decreases v, 0int,
{
    match v {
        TokV::Text { text, formatting } => TokV::Text { text: spec_leaf_op(op, text), formatting },
        TokV::Group { children, delimiter, prefix, suffix, formatting, fail_if_empty } => TokV::Group {
            children: tokvs_map(children, op),
            delimiter,
            prefix,
            suffix,
            formatting,
            fail_if_empty,
        },
        TokV::Link { label, href, formatting } => TokV::Link { label: spec_leaf_op(op, label), href, formatting },
    }
}

/// Every token of the list with `op` applied to its leaf texts.
pub open spec fn tokvs_map(s: Seq<TokV>, op: LeafOp) -> Seq<TokV>
    decreases s, 1int,
{
    if s.len() == 0 {
        Seq::empty()
    } else {
        seq![tokv_map(s[0], op)] + tokvs_map(s.subrange(1, s.len() as int), op)
    }
}

/// `tokvs_map` maps each token.
pub proof fn lemma_tokvs_map(s: Seq<TokV>, op: LeafOp)
    ensures
        tokvs_map(s, op).len() == s.len(),
        forall|i: int| 0 <= i < s.len() ==> #[trigger] tokvs_map(s, op)[i] == tokv_map(s[i], op),
    decreases s.len(),
{
    if s.len() > 0 {
        lemma_tokvs_map(s.subrange(1, s.len() as int), op);
        assert forall|i: int| 0 <= i < s.len() implies #[trigger] tokvs_map(s, op)[i] == tokv_map(s[i], op) by {
            if i > 0 {
                assert(s.subrange(1, s.len() as int)[i - 1] == s[i]);
            }
        }
    }
}

/// A leaf transform of a token is the transform of its plain form.
pub proof fn lemma_mapped_view(a: Token, b: Token, op: LeafOp)
    requires
        leaves_mapped(a, b, op),
    ensures
        tok_view(b) == tokv_map(tok_view(a), op),
    decreases a,
{
    match a {
        Token::Group { children: c1, .. } => {
            let c2 = b->Group_children;
            lemma_toks_view(c1@);
            lemma_toks_view(c2@);
            lemma_tokvs_map(toks_view(c1@), op);
            assert forall|i: int| 0 <= i < c1@.len() implies toks_view(c2@)[i] == #[trigger] tokvs_map(
                toks_view(c1@),
                op,
            )[i] by {
                lemma_child_decreases(a, i);
                lemma_mapped_view(c1@[i], c2@[i], op);
            }
            assert(toks_view(c2@) =~= tokvs_map(toks_view(c1@), op));
        },
        _ => {},
    }
}

/// Whether every token of a list contributes no visible text.
pub fn tokens_all_empty(ts: &Vec<Token>) -> (r: bool)
    ensures
        r == all_empty(toks_view(ts@)),
{
    proof {
        lemma_toks_view(ts@);
    }
    let mut i: usize = 0;
    while i < ts.len()
        invariant
            i <= ts@.len(),
            toks_view(ts@).len() == ts@.len(),
            forall|j: int| 0 <= j < ts@.len() ==> #[trigger] toks_view(ts@)[j] == tok_view(ts@[j]),
            forall|j: int| 0 <= j < i ==> tokv_empty(#[trigger] toks_view(ts@)[j]),
        decreases ts@.len() - i,
    {
        proof {
            lemma_empty_view(ts@[i as int]);
        }
        if !ts[i].is_empty() {
            assert(!tokv_empty(toks_view(ts@)[i as int]));
            return false;
        }
        i = i + 1;
    }
    true
}

/// Every token of a list with `op` applied to its leaf texts.
pub fn map_all(ts: Vec<Token>, op: &LeafOp) -> (r: Vec<Token>)
    ensures
        toks_view(r@) == tokvs_map(toks_view(ts@), *op),
{
    let ghost orig = ts@;
    let mut rest = ts;
    let mut out: Vec<Token> = Vec::new();
    while rest.len() > 0
        invariant
            out@.len() + rest@.len() == orig.len(),
            rest@ == orig.subrange(out@.len() as int, orig.len() as int),
            forall|i: int| 0 <= i < out@.len() ==> leaves_mapped(orig[i], #[trigger] out@[i], *op),
        decreases rest@.len(),
    {
        let c = rest.remove(0);
        assert(c == orig[out@.len() as int]);
        let m = c.map_leaves(op);
        out.push(m);
        assert(rest@ =~= orig.subrange(out@.len() as int, orig.len() as int));
    }
    proof {
        lemma_toks_view(orig);
        lemma_toks_view(out@);
        lemma_tokvs_map(toks_view(orig), *op);
        assert forall|i: int| 0 <= i < orig.len() implies toks_view(out@)[i] == #[trigger] tokvs_map(
            toks_view(orig),
            *op,
        )[i] by {
            lemma_mapped_view(orig[i], out@[i], *op);
        }
        assert(toks_view(out@) =~= tokvs_map(toks_view(orig), *op));
    }
    out
}

} // verus!
