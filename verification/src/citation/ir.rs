//! The renderer's intermediate representation: a token tree whose leaves
//! carry text and formatting, and its serialisation through an output
//! format (HTML or plain text).

use vstd::prelude::*;

use crate::citation::ast::{FontStyle, FontWeight, Formatting, TextCase, VerticalAlign};
use crate::text::{
    char_lowercase, char_uppercase, chars_eq, chars_of, lowercase_of, push_all, replace_all,
    seq_replace, spec_is_whitespace, split_whitespace, split_words, str_lowercase,
    str_uppercase, string_from_chars, to_lowercase, to_uppercase, trim_end, trim_end_char,
    uppercase_of, is_whitespace,
};
use crate::citation::format::OutputFormat;

verus! {

/// One node of the renderer IR.
#[derive(Debug, PartialEq, Eq)]
pub enum Token {
    /// Atomic text span with its own formatting.
    Text { text: String, formatting: Formatting },
    /// Children joined by `delimiter`, wrapped in `prefix` / `suffix`,
    /// formatted as a whole. With `fail_if_empty`, a group whose
    /// children are all empty is suppressed entirely.
    Group {
        children: Vec<Token>,
        delimiter: Option<String>,
        prefix: Option<String>,
        suffix: Option<String>,
        formatting: Formatting,
        fail_if_empty: bool,
    },
    /// A hyperlink span.
    Link { label: String, href: String, formatting: Formatting },
}

/// A token contributes no visible text: an empty text or link label, or
/// a group all of whose children are empty.
pub open spec fn token_is_empty(t: Token) -> bool
    decreases t,
{
    match t {
        Token::Text { text, .. } => text@.len() == 0,
        Token::Group { children, .. } => forall|i: int|
            0 <= i < children@.len() ==> token_is_empty(#[trigger] children@[i]),
        Token::Link { label, .. } => label@.len() == 0,
    }
}

/// A group's children are structurally smaller than the group.
pub proof fn lemma_child_decreases(t: Token, i: int)
    requires
        t is Group,
        0 <= i < t->Group_children@.len(),
    ensures
        decreases_to!(t => t->Group_children@[i]),
{
    let v = t->Group_children;
    assert(decreases_to!(t => v));
    assert(decreases_to!(v => v@));
    assert(decreases_to!(v@ => v@[i]));
}

impl Token {
    /// `true` when this token contributes no visible text.
    pub fn is_empty(&self) -> (r: bool)
        ensures
            r == token_is_empty(*self),
        decreases self,
    {
        match self {
            Token::Text { text, .. } => text.as_str().unicode_len() == 0,
            Token::Group { children, .. } => {
                let mut i: usize = 0;
                while i < children.len()
                    invariant
                        i <= children@.len(),
                        *self is Group,
                        *children == self->Group_children,
                        forall|j: int| 0 <= j < i ==> token_is_empty(#[trigger] children@[j]),
                    decreases children@.len() - i,
                {
                    proof {
                        lemma_child_decreases(*self, i as int);
                    }
                    if !children[i].is_empty() {
                        assert(!token_is_empty(children@[i as int]));
                        return false;
                    }
                    i += 1;
                }
                true
            },
            Token::Link { label, .. } => label.as_str().unicode_len() == 0,
        }
    }
}


// ─────────────────────────────────────────────────────────────────
// Text case
// ─────────────────────────────────────────────────────────────────

/// Concatenation of the lowercase mappings of every character.
pub open spec fn chars_lowercase(s: Seq<char>) -> Seq<char>
    decreases s.len(),
{
    if s.len() == 0 {
        Seq::empty()
    } else {
        char_lowercase(s[0]) + chars_lowercase(s.subrange(1, s.len() as int))
    }
}

/// First character uppercased, the rest unchanged.
pub open spec fn spec_capitalize_first(s: Seq<char>) -> Seq<char> {
    if s.len() == 0 {
        s
    } else {
        char_uppercase(s[0]) + s.subrange(1, s.len() as int)
    }
}

/// Uppercases the first character of every whitespace-separated word,
/// `at_start` telling whether the next character starts a word.
pub open spec fn spec_capitalize_words_from(s: Seq<char>, at_start: bool) -> Seq<char>
    decreases s.len(),
{
    if s.len() == 0 {
        s
    } else if spec_is_whitespace(s[0]) {
        seq![s[0]] + spec_capitalize_words_from(s.subrange(1, s.len() as int), true)
    } else if at_start {
        char_uppercase(s[0]) + spec_capitalize_words_from(s.subrange(1, s.len() as int), false)
    } else {
        seq![s[0]] + spec_capitalize_words_from(s.subrange(1, s.len() as int), false)
    }
}

/// First character uppercased, every other character lowercased.
pub open spec fn spec_sentence_case(s: Seq<char>) -> Seq<char> {
    if s.len() == 0 {
        s
    } else {
        char_uppercase(s[0]) + chars_lowercase(s.subrange(1, s.len() as int))
    }
}

/// The English stop words that title case keeps lowercase mid-string.
pub open spec fn spec_is_stop_word(w: Seq<char>) -> bool {
    ||| w == "a"@ ||| w == "an"@ ||| w == "and"@ ||| w == "as"@ ||| w == "at"@
    ||| w == "but"@ ||| w == "by"@ ||| w == "down"@ ||| w == "for"@ ||| w == "from"@
    ||| w == "if"@ ||| w == "in"@ ||| w == "into"@ ||| w == "nor"@ ||| w == "of"@
    ||| w == "on"@ ||| w == "onto"@ ||| w == "or"@ ||| w == "out"@ ||| w == "over"@
    ||| w == "so"@ ||| w == "the"@ ||| w == "till"@ ||| w == "to"@ ||| w == "up"@
    ||| w == "via"@ ||| w == "with"@ ||| w == "yet"@
}

/// The hyphen-separated parts of a word (one part when it has no
/// hyphen; empty parts where hyphens meet or stand at an end).
pub open spec fn spec_hyphen_parts(w: Seq<char>) -> Seq<Seq<char>>
    decreases w.len(),
{
    if w.len() == 0 {
        seq![Seq::<char>::empty()]
    } else {
        let prev = spec_hyphen_parts(w.drop_last());
        if w.last() == '-' {
            prev.push(Seq::<char>::empty())
        } else {
            prev.update(prev.len() - 1, prev.last().push(w.last()))
        }
    }
}

/// A part of a title word: capitalised when `cap` holds or it is not a
/// stop word, otherwise lowercased.
pub open spec fn spec_title_part(p: Seq<char>, cap: bool) -> Seq<char> {
    if cap || !spec_is_stop_word(str_lowercase(p)) {
        spec_capitalize_first(p)
    } else {
        str_lowercase(p)
    }
}

/// Parts `j..` of a title word rejoined by hyphens: the first part is
/// capitalised when `first_cap` holds, the last one when `last_cap`
/// holds, the others when they are not stop words.
pub open spec fn spec_title_parts_from(ps: Seq<Seq<char>>, j: int, first_cap: bool, last_cap: bool) -> Seq<char>
    decreases ps.len() - j,
{
    if j < 0 || j >= ps.len() {
        Seq::empty()
    } else {
        (if j > 0 {
            seq!['-']
        } else {
            Seq::empty()
        }) + spec_title_part(ps[j], (j == 0 && first_cap) || (j == ps.len() - 1 && last_cap))
            + spec_title_parts_from(ps, j + 1, first_cap, last_cap)
    }
}

/// Word `i` of a title, hyphens taken as word boundaries: its first part
/// is capitalised when it is the first word or follows a word ending in
/// a colon, its last part when it is the last word.
pub open spec fn spec_title_word(words: Seq<Seq<char>>, i: int, last: int) -> Seq<char> {
    spec_title_parts_from(spec_hyphen_parts(words[i]), 0, i == 0 || spec_after_colon(words, i), i == last)
}

/// Word `i` follows a word that ends in a colon.
pub open spec fn spec_after_colon(words: Seq<Seq<char>>, i: int) -> bool {
    i > 0 && words[i - 1].len() > 0 && words[i - 1].last() == ':'
}

/// Title-cased words `i..`, each preceded by a space except the first.
pub open spec fn spec_title_from(words: Seq<Seq<char>>, i: int, last: int) -> Seq<char>
    decreases words.len() - i,
{
    if i < 0 || i >= words.len() {
        Seq::empty()
    } else {
        (if i > 0 {
            seq![' ']
        } else {
            Seq::empty()
        }) + spec_title_word(words, i, last) + spec_title_from(words, i + 1, last)
    }
}

/// Title case: the whitespace-separated words rejoined by single spaces;
/// hyphens separate words too. A word is capitalised when it is the
/// first or last word of the title, follows a colon, or is not a stop
/// word; a stop word elsewhere is lowercased.
pub open spec fn spec_title_case(s: Seq<char>) -> Seq<char> {
    let words = split_whitespace(s);
    spec_title_from(words, 0, if words.len() == 0 { 0 } else { words.len() - 1 })
}

/// What a `text-case` transform makes of a string.
pub open spec fn spec_transform_case(s: Seq<char>, case: TextCase) -> Seq<char> {
    match case {
        TextCase::Lowercase => str_lowercase(s),
        TextCase::Uppercase => str_uppercase(s),
        TextCase::CapitalizeFirst => spec_capitalize_first(s),
        TextCase::Capitalize => spec_capitalize_words_from(s, true),
        TextCase::Sentence => spec_sentence_case(s),
        TextCase::Title => spec_title_case(s),
    }
}

/// Uppercases the first character.
pub fn capitalize_first(s: &[char]) -> (r: Vec<char>)
    ensures
        r@ == spec_capitalize_first(s@),
{
    let mut out: Vec<char> = Vec::new();
    if s.len() == 0 {
        return out;
    }
    let up = uppercase_of(s[0]);
    push_all(&mut out, up.as_slice());
    let mut i: usize = 1;
    while i < s.len()
        invariant
            1 <= i <= s@.len(),
            out@ == char_uppercase(s@[0]) + s@.subrange(1, i as int),
        decreases s@.len() - i,
    {
        out.push(s[i]);
        assert(s@.subrange(1, i + 1) == s@.subrange(1, i as int).push(s@[i as int]));
        i += 1;
    }
    out
}

/// Uppercases the first character of every whitespace-separated word.
pub fn capitalize_each_word(s: &[char]) -> (r: Vec<char>)
    ensures
        r@ == spec_capitalize_words_from(s@, true),
{
    let mut out: Vec<char> = Vec::new();
    let mut at_word_start = true;
    let mut i: usize = 0;
    assert(s@.subrange(0, s@.len() as int) =~= s@);
    while i < s.len()
        invariant
            i <= s@.len(),
            out@ + spec_capitalize_words_from(s@.subrange(i as int, s@.len() as int), at_word_start)
                == spec_capitalize_words_from(s@, true),
        decreases s@.len() - i,
    {
        let ghost rest = s@.subrange(i as int, s@.len() as int);
        let ghost before = out@;
        assert(rest.subrange(1, rest.len() as int) == s@.subrange(i + 1, s@.len() as int));
        let c = s[i];
        if is_whitespace(c) {
            at_word_start = true;
            out.push(c);
            assert(before + (seq![c] + spec_capitalize_words_from(
                s@.subrange(i + 1, s@.len() as int),
                true,
            )) =~= out@ + spec_capitalize_words_from(s@.subrange(i + 1, s@.len() as int), true));
        } else if at_word_start {
            let up = uppercase_of(c);
            push_all(&mut out, up.as_slice());
            at_word_start = false;
            assert(before + (char_uppercase(c) + spec_capitalize_words_from(
                s@.subrange(i + 1, s@.len() as int),
                false,
            )) =~= out@ + spec_capitalize_words_from(s@.subrange(i + 1, s@.len() as int), false));
        } else {
            out.push(c);
            assert(before + (seq![c] + spec_capitalize_words_from(
                s@.subrange(i + 1, s@.len() as int),
                false,
            )) =~= out@ + spec_capitalize_words_from(s@.subrange(i + 1, s@.len() as int), false));
        }
        i += 1;
    }
    assert(out@ =~= out@ + spec_capitalize_words_from(
        s@.subrange(i as int, s@.len() as int),
        at_word_start,
    ));
    out
}

/// First character uppercased, the rest lowercased character by
/// character.
pub fn sentence_case(s: &[char]) -> (r: Vec<char>)
    ensures
        r@ == spec_sentence_case(s@),
{
    let mut out: Vec<char> = Vec::new();
    if s.len() == 0 {
        return out;
    }
    let up = uppercase_of(s[0]);
    push_all(&mut out, up.as_slice());
    let mut i: usize = 1;
    while i < s.len()
        invariant
            1 <= i <= s@.len(),
            out@ + chars_lowercase(s@.subrange(i as int, s@.len() as int)) == char_uppercase(s@[0])
                + chars_lowercase(s@.subrange(1, s@.len() as int)),
        decreases s@.len() - i,
    {
        let ghost rest = s@.subrange(i as int, s@.len() as int);
        let ghost before = out@;
        assert(rest.subrange(1, rest.len() as int) == s@.subrange(i + 1, s@.len() as int));
        let low = lowercase_of(s[i]);
        push_all(&mut out, low.as_slice());
        assert(before + (char_lowercase(s@[i as int]) + chars_lowercase(
            s@.subrange(i + 1, s@.len() as int),
        )) =~= out@ + chars_lowercase(s@.subrange(i + 1, s@.len() as int)));
        i += 1;
    }
    assert(out@ =~= out@ + chars_lowercase(s@.subrange(i as int, s@.len() as int)));
    out
}

/// `true` iff `w` is one of the title-case stop words.
pub fn is_stop_word(w: &[char]) -> (r: bool)
    ensures
        r == spec_is_stop_word(w@),
{
    chars_eq(w, chars_of("a").as_slice()) || chars_eq(w, chars_of("an").as_slice()) || chars_eq(
        w,
        chars_of("and").as_slice(),
    ) || chars_eq(w, chars_of("as").as_slice()) || chars_eq(w, chars_of("at").as_slice())
        || chars_eq(w, chars_of("but").as_slice()) || chars_eq(w, chars_of("by").as_slice())
        || chars_eq(w, chars_of("down").as_slice()) || chars_eq(w, chars_of("for").as_slice())
        || chars_eq(w, chars_of("from").as_slice()) || chars_eq(w, chars_of("if").as_slice())
        || chars_eq(w, chars_of("in").as_slice()) || chars_eq(w, chars_of("into").as_slice())
        || chars_eq(w, chars_of("nor").as_slice()) || chars_eq(w, chars_of("of").as_slice())
        || chars_eq(w, chars_of("on").as_slice()) || chars_eq(w, chars_of("onto").as_slice())
        || chars_eq(w, chars_of("or").as_slice()) || chars_eq(w, chars_of("out").as_slice())
        || chars_eq(w, chars_of("over").as_slice()) || chars_eq(w, chars_of("so").as_slice())
        || chars_eq(w, chars_of("the").as_slice()) || chars_eq(w, chars_of("till").as_slice())
        || chars_eq(w, chars_of("to").as_slice()) || chars_eq(w, chars_of("up").as_slice())
        || chars_eq(w, chars_of("via").as_slice()) || chars_eq(w, chars_of("with").as_slice())
        || chars_eq(w, chars_of("yet").as_slice())
}

/// The hyphen-separated parts of a word.
fn hyphen_parts(w: &[char]) -> (r: Vec<Vec<char>>)
    ensures
        r@.len() == spec_hyphen_parts(w@).len(),
        forall|k: int| 0 <= k < r@.len() ==> (#[trigger] r@[k])@ == spec_hyphen_parts(w@)[k],
{
    let mut done: Vec<Vec<char>> = Vec::new();
    let mut cur: Vec<char> = Vec::new();
    let mut i: usize = 0;
    assert(w@.take(0) =~= Seq::<char>::empty());
    while i < w.len()
        invariant
            i <= w@.len(),
            spec_hyphen_parts(w@.take(i as int)).len() == done@.len() + 1,
            forall|k: int| 0 <= k < done@.len() ==> (#[trigger] done@[k])@ == spec_hyphen_parts(w@.take(i as int))[k],
            cur@ == spec_hyphen_parts(w@.take(i as int)).last(),
        decreases w@.len() - i,
    {
        let ghost prev = spec_hyphen_parts(w@.take(i as int));
        assert(w@.take(i + 1).drop_last() =~= w@.take(i as int));
        assert(w@.take(i + 1).last() == w@[i as int]);
        if w[i] == '-' {
            done.push(cur);
            cur = Vec::new();
            proof {
                let now = spec_hyphen_parts(w@.take(i + 1));
                assert(now == prev.push(Seq::<char>::empty()));
                assert forall|k: int| 0 <= k < done@.len() implies (#[trigger] done@[k])@ == now[k] by {
                    if k < done@.len() - 1 {
                        assert(now[k] == prev[k]);
                    }
                }
            }
        } else {
            cur.push(w[i]);
            proof {
                let now = spec_hyphen_parts(w@.take(i + 1));
                assert(now == prev.update(prev.len() - 1, prev.last().push(w@[i as int])));
                assert forall|k: int| 0 <= k < done@.len() implies (#[trigger] done@[k])@ == now[k] by {
                    assert(now[k] == prev[k]);
                }
            }
        }
        i += 1;
    }
    assert(w@.take(w@.len() as int) =~= w@);
    let ghost total = spec_hyphen_parts(w@);
    done.push(cur);
    proof {
        assert forall|k: int| 0 <= k < done@.len() implies (#[trigger] done@[k])@ == total[k] by {
            if k == done@.len() - 1 {
                assert(total[k] == total.last());
            }
        }
    }
    done
}

/// One part of a title word (see [`spec_title_part`]).
fn title_part(p: &[char], cap: bool) -> (r: Vec<char>)
    ensures
        r@ == spec_title_part(p@, cap),
{
    let lower = to_lowercase(string_from_chars(p).as_str());
    let lower_chars = chars_of(lower.as_str());
    if cap || !is_stop_word(lower_chars.as_slice()) {
        capitalize_first(p)
    } else {
        lower_chars
    }
}

/// A title word from its parts (see [`spec_title_parts_from`]).
fn title_word(w: &[char], first_cap: bool, last_cap: bool) -> (r: Vec<char>)
    ensures
        r@ == spec_title_parts_from(spec_hyphen_parts(w@), 0, first_cap, last_cap),
{
    let parts = hyphen_parts(w);
    let ghost ps = spec_hyphen_parts(w@);
    let n = parts.len();
    let mut out: Vec<char> = Vec::new();
    let mut j: usize = 0;
    while j < n
        invariant
            n == parts@.len(),
            ps == spec_hyphen_parts(w@),
            parts@.len() == ps.len(),
            forall|k: int| 0 <= k < parts@.len() ==> (#[trigger] parts@[k])@ == ps[k],
            j <= n,
            out@ + spec_title_parts_from(ps, j as int, first_cap, last_cap) == spec_title_parts_from(
                ps,
                0,
                first_cap,
                last_cap,
            ),
        decreases n - j,
    {
        let ghost before = out@;
        if j > 0 {
            out.push('-');
        }
        let cap = (j == 0 && first_cap) || (j + 1 == n && last_cap);
        let t = title_part(parts[j].as_slice(), cap);
        push_all(&mut out, t.as_slice());
        assert(before + spec_title_parts_from(ps, j as int, first_cap, last_cap) =~= out@ + spec_title_parts_from(
            ps,
            j + 1,
            first_cap,
            last_cap,
        ));
        j += 1;
    }
    assert(out@ =~= out@ + spec_title_parts_from(ps, j as int, first_cap, last_cap));
    out
}

/// Title case (see [`spec_title_case`]).
pub fn title_case(s: &[char]) -> (r: Vec<char>)
    ensures
        r@ == spec_title_case(s@),
{
    let words = split_words(s);
    let ghost ws = split_whitespace(s@);
    let last: usize = if words.len() == 0 { 0 } else { words.len() - 1 };
    let mut out: Vec<char> = Vec::new();
    let mut i: usize = 0;
    while i < words.len()
        invariant
            i <= words@.len(),
            ws == split_whitespace(s@),
            words@.len() == ws.len(),
            forall|k: int| 0 <= k < words@.len() ==> (#[trigger] words@[k])@ == ws[k],
            last == (if ws.len() == 0 { 0 } else { ws.len() - 1 }),
            out@ + spec_title_from(ws, i as int, last as int) == spec_title_case(s@),
        decreases words@.len() - i,
    {
        let ghost before = out@;
        if i > 0 {
            out.push(' ');
        }
        let after_colon = i > 0 && words[i - 1].len() > 0 && words[i - 1][words[i - 1].len() - 1] == ':';
        proof {
            if i > 0 {
                assert(words@[i - 1]@ == ws[i - 1]);
            }
            assert(after_colon == spec_after_colon(ws, i as int));
        }
        let word = title_word(words[i].as_slice(), i == 0 || after_colon, i == last);
        push_all(&mut out, word.as_slice());
        assert(before + spec_title_from(ws, i as int, last as int) =~= out@ + spec_title_from(
            ws,
            i + 1,
            last as int,
        ));
        i += 1;
    }
    assert(out@ =~= out@ + spec_title_from(ws, i as int, last as int));
    out
}

/// Applies a `text-case` transform to a string.
pub fn transform_case(s: &str, case: TextCase) -> (r: String)
    ensures
        r@ == spec_transform_case(s@, case),
{
    match case {
        TextCase::Lowercase => to_lowercase(s),
        TextCase::Uppercase => to_uppercase(s),
        TextCase::CapitalizeFirst => string_from_chars(capitalize_first(chars_of(s).as_slice()).as_slice()),
        TextCase::Capitalize => string_from_chars(capitalize_each_word(chars_of(s).as_slice()).as_slice()),
        TextCase::Sentence => string_from_chars(sentence_case(chars_of(s).as_slice()).as_slice()),
        TextCase::Title => string_from_chars(title_case(chars_of(s).as_slice()).as_slice()),
    }
}


// ─────────────────────────────────────────────────────────────────
// Leaf transforms
// ─────────────────────────────────────────────────────────────────

/// A transform of every leaf text of a token tree.
pub enum LeafOp {
    Case(TextCase),
    StripPeriods,
}

/// What a leaf transform makes of one leaf text.
pub open spec fn spec_leaf_op(op: LeafOp, s: Seq<char>) -> Seq<char> {
    match op {
        LeafOp::Case(case) => spec_transform_case(s, case),
        LeafOp::StripPeriods => seq_replace(s, seq!['.'], Seq::empty()),
    }
}

/// `b` is `a` with every leaf text (text and link label) transformed by
/// `op`; the shape, formatting, affixes, delimiters and hrefs unchanged.
pub open spec fn leaves_mapped(a: Token, b: Token, op: LeafOp) -> bool
    decreases a,
{
    match a {
        Token::Text { text: t1, formatting: f1 } => match b {
            Token::Text { text: t2, formatting: f2 } => f1 == f2 && t2@ == spec_leaf_op(op, t1@),
            _ => false,
        },
        Token::Group {
            children: c1,
            delimiter: d1,
            prefix: p1,
            suffix: s1,
            formatting: f1,
            fail_if_empty: e1,
        } => match b {
            Token::Group {
                children: c2,
                delimiter: d2,
                prefix: p2,
                suffix: s2,
                formatting: f2,
                fail_if_empty: e2,
            } => {
                &&& d1 == d2
                &&& p1 == p2
                &&& s1 == s2
                &&& f1 == f2
                &&& e1 == e2
                &&& c1@.len() == c2@.len()
                &&& forall|i: int|
                    0 <= i < c1@.len() ==> leaves_mapped(#[trigger] c1@[i], c2@[i], op)
            },
            _ => false,
        },
        Token::Link { label: l1, href: h1, formatting: f1 } => match b {
            Token::Link { label: l2, href: h2, formatting: f2 } => h1 == h2 && f1 == f2 && l2@
                == spec_leaf_op(op, l1@),
            _ => false,
        },
    }
}

fn leaf_apply(s: &String, op: &LeafOp) -> (r: String)
    ensures
        r@ == spec_leaf_op(*op, s@),
{
    match op {
        LeafOp::Case(case) => transform_case(s.as_str(), *case),
        LeafOp::StripPeriods => {
            let cs = chars_of(s.as_str());
            let pat: Vec<char> = vec!['.'];
            let rep: Vec<char> = Vec::new();
            assert(pat@ == seq!['.']);
            string_from_chars(replace_all(cs.as_slice(), pat.as_slice(), rep.as_slice()).as_slice())
        },
    }
}

impl Token {
    /// This token with `op` applied to every leaf text.
    pub fn map_leaves(self, op: &LeafOp) -> (r: Token)
        ensures
            leaves_mapped(self, r, *op),
        decreases self,
    {
        let ghost orig = self;
        match self {
            Token::Text { text, formatting } => Token::Text { text: leaf_apply(&text, op), formatting },
            Token::Link { label, href, formatting } => Token::Link {
                label: leaf_apply(&label, op),
                href,
                formatting,
            },
            Token::Group { children, delimiter, prefix, suffix, formatting, fail_if_empty } => {
                let ghost cs = children@;
                let mut rest = children;
                let mut out: Vec<Token> = Vec::new();
                while rest.len() > 0
                    invariant
                        orig is Group,
                        orig == self,
                        cs == orig->Group_children@,
                        out@.len() + rest@.len() == cs.len(),
                        rest@ == cs.subrange(out@.len() as int, cs.len() as int),
                        forall|i: int|
                            0 <= i < out@.len() ==> leaves_mapped(cs[i], #[trigger] out@[i], *op),
                    decreases rest@.len(),
                {
                    let c = rest.remove(0);
                    assert(c == cs[out@.len() as int]);
                    proof {
                        lemma_child_decreases(orig, out@.len() as int);
                    }
                    let m = c.map_leaves(op);
                    out.push(m);
                    assert(rest@ =~= cs.subrange(out@.len() as int, cs.len() as int));
                }
                Token::Group { children: out, delimiter, prefix, suffix, formatting, fail_if_empty }
            },
        }
    }

    /// Applies `case` to every leaf text, preserving the tree's shape and
    /// formatting.
    pub fn apply_text_case(&mut self, case: TextCase)
        ensures
            leaves_mapped(*old(self), *final(self), LeafOp::Case(case)),
    {
        let mut tmp = Token::Text { text: String::new(), formatting: Formatting::plain() };
        std::mem::swap(&mut tmp, self);
        let op = LeafOp::Case(case);
        let mapped = tmp.map_leaves(&op);
        *self = mapped;
    }

    /// Removes every `.` from every leaf text.
    pub fn strip_periods(&mut self)
        ensures
            leaves_mapped(*old(self), *final(self), LeafOp::StripPeriods),
    {
        let mut tmp = Token::Text { text: String::new(), formatting: Formatting::plain() };
        std::mem::swap(&mut tmp, self);
        let op = LeafOp::StripPeriods;
        let mapped = tmp.map_leaves(&op);
        *self = mapped;
    }
}


// ─────────────────────────────────────────────────────────────────
// Serialisation
// ─────────────────────────────────────────────────────────────────

/// Italic (for italic or oblique), then bold, then superscript wrapping
/// of `s` as `f` asks; other attributes have no output.
pub open spec fn spec_apply_formatting<F: OutputFormat>(s: Seq<char>, f: Formatting, fmt: F) -> Seq<
    char,
> {
    let a = if f.font_style == Some(FontStyle::Italic) || f.font_style == Some(FontStyle::Oblique) {
        fmt.spec_italic(s)
    } else {
        s
    };
    let b = if f.font_weight == Some(FontWeight::Bold) {
        fmt.spec_bold(a)
    } else {
        a
    };
    if f.vertical_align == Some(VerticalAlign::Sup) {
        fmt.spec_superscript(b)
    } else {
        b
    }
}

/// Punctuation collapse: `.. ` → `. `, `..\n` → `.\n`, `,.` → `.`,
/// `,,` → `,`, `?.` → `?`, `!.` → `!` (in that order), then trailing
/// periods trimmed and a single one restored when the input ended in one.
pub open spec fn spec_collapse_punctuation(s: Seq<char>) -> Seq<char> {
    let r1 = seq_replace(s, seq!['.', '.', ' '], seq!['.', ' ']);
    let r2 = seq_replace(r1, seq!['.', '.', '\n'], seq!['.', '\n']);
    let r3 = seq_replace(r2, seq![',', '.'], seq!['.']);
    let r4 = seq_replace(r3, seq![',', ','], seq![',']);
    let r5 = seq_replace(r4, seq!['?', '.'], seq!['?']);
    let r6 = seq_replace(r5, seq!['!', '.'], seq!['!']);
    trim_end_char(r6, '.') + (if s.len() > 0 && s.last() == '.' {
        seq!['.']
    } else {
        Seq::empty()
    })
}

/// `parts` joined by `sep`.
pub open spec fn join_with(parts: Seq<Seq<char>>, sep: Seq<char>) -> Seq<char>
    decreases parts.len(),
{
    if parts.len() == 0 {
        Seq::empty()
    } else if parts.len() == 1 {
        parts[0]
    } else {
        join_with(parts.drop_last(), sep) + sep + parts.last()
    }
}

/// The view of an optional string, the empty sequence for `None`.
pub open spec fn opt_view(o: Option<String>) -> Seq<char> {
    match o {
        Some(s) => s@,
        None => Seq::empty(),
    }
}

/// The output of one token.
pub open spec fn spec_ser_token<F: OutputFormat>(t: Token, fmt: F) -> Seq<char>
    decreases t,
{
    match t {
        Token::Text { text, formatting } => if text@.len() == 0 {
            Seq::empty()
        } else {
            spec_apply_formatting(fmt.spec_escape(text@), formatting, fmt)
        },
        Token::Group { children, delimiter, prefix, suffix, formatting, fail_if_empty } => {
            if fail_if_empty && token_is_empty(t) {
                Seq::empty()
            } else {
                let parts = spec_ser_parts(children@, fmt);
                opt_view(prefix) + spec_apply_formatting(
                    join_with(parts, opt_view(delimiter)),
                    formatting,
                    fmt,
                ) + opt_view(suffix)
            }
        },
        Token::Link { label, href, formatting } => if label@.len() == 0 {
            Seq::empty()
        } else {
            fmt.spec_link(
                spec_apply_formatting(fmt.spec_escape(label@), formatting, fmt),
                href@,
            )
        },
    }
}

/// The serialised non-empty children of a group, each serialised on its
/// own (punctuation collapsed).
pub open spec fn spec_ser_parts<F: OutputFormat>(cs: Seq<Token>, fmt: F) -> Seq<Seq<char>>
    decreases cs,
{
    if cs.len() == 0 {
        Seq::empty()
    } else {
        (if token_is_empty(cs[0]) {
            Seq::empty()
        } else {
            seq![spec_collapse_punctuation(spec_ser_token(cs[0], fmt))]
        }) + spec_ser_parts(cs.subrange(1, cs.len() as int), fmt)
    }
}

/// The concatenated output of a token sequence, before punctuation
/// collapse.
pub open spec fn spec_ser_tokens<F: OutputFormat>(ts: Seq<Token>, fmt: F) -> Seq<char>
    decreases ts.len(),
{
    if ts.len() == 0 {
        Seq::empty()
    } else {
        spec_ser_tokens(ts.drop_last(), fmt) + spec_ser_token(ts.last(), fmt)
    }
}

/// The serialisation of a token sequence.
pub open spec fn spec_serialize<F: OutputFormat>(ts: Seq<Token>, fmt: F) -> Seq<char> {
    spec_collapse_punctuation(spec_ser_tokens(ts, fmt))
}

fn apply_formatting<F: OutputFormat>(s: &str, f: &Formatting, format: &F) -> (r: String)
    ensures
        r@ == spec_apply_formatting(s@, *f, *format),
{
    let mut out = s.to_owned();
    let italic = match f.font_style {
        Some(FontStyle::Italic) => true,
        Some(FontStyle::Oblique) => true,
        _ => false,
    };
    if italic {
        out = format.italic(out.as_str());
    }
    let bold = match f.font_weight {
        Some(FontWeight::Bold) => true,
        _ => false,
    };
    if bold {
        out = format.bold(out.as_str());
    }
    let sup = match f.vertical_align {
        Some(VerticalAlign::Sup) => true,
        _ => false,
    };
    if sup {
        out = format.superscript(out.as_str());
    }
    out
}

fn replace_lit(s: Vec<char>, pat: &str, rep: &str) -> (r: Vec<char>)
    requires
        pat@.len() > 0,
    ensures
        r@ == seq_replace(s@, pat@, rep@),
{
    let p = chars_of(pat);
    let q = chars_of(rep);
    replace_all(s.as_slice(), p.as_slice(), q.as_slice())
}

/// CSL punctuation collapse (see [`spec_collapse_punctuation`]).
pub fn collapse_punctuation(s: &str) -> (r: String)
    ensures
        r@ == spec_collapse_punctuation(s@),
{
    proof {
        reveal_strlit(".. ");
        reveal_strlit("..\n");
        reveal_strlit(". ");
        reveal_strlit(".\n");
        reveal_strlit(",.");
        reveal_strlit(".");
        reveal_strlit(",,");
        reveal_strlit(",");
        reveal_strlit("?.");
        reveal_strlit("?");
        reveal_strlit("!.");
        reveal_strlit("!");
    }
    let cs = chars_of(s);
    let r1 = replace_lit(cs, ".. ", ". ");
    let r2 = replace_lit(r1, "..\n", ".\n");
    let r3 = replace_lit(r2, ",.", ".");
    let r4 = replace_lit(r3, ",,", ",");
    let r5 = replace_lit(r4, "?.", "?");
    let r6 = replace_lit(r5, "!.", "!");
    assert(seq!['.', '.', ' '] == ".. "@);
    assert(seq!['.', '.', '\n'] == "..\n"@);
    assert(seq!['.', ' '] == ". "@);
    assert(seq!['.', '\n'] == ".\n"@);
    assert(seq![',', '.'] == ",."@);
    assert(seq!['.'] == "."@);
    assert(seq![',', ','] == ",,"@);
    assert(seq![','] == ","@);
    assert(seq!['?', '.'] == "?."@);
    assert(seq!['?'] == "?"@);
    assert(seq!['!', '.'] == "!."@);
    assert(seq!['!'] == "!"@);
    let mut out = trim_end(r6.as_slice(), '.');
    let orig = chars_of(s);
    if orig.len() > 0 && orig[orig.len() - 1] == '.' {
        out.push('.');
    }
    string_from_chars(out.as_slice())
}

fn join_parts(parts: &Vec<String>, sep: &Option<String>) -> (r: Vec<char>)
    ensures
        r@ == join_with(parts@.map_values(|p: String| p@), opt_view(*sep)),
{
    let sepc: Vec<char> = match sep {
        Some(d) => chars_of(d.as_str()),
        None => Vec::new(),
    };
    let ghost ps = parts@.map_values(|p: String| p@);
    let mut out: Vec<char> = Vec::new();
    let mut i: usize = 0;
    while i < parts.len()
        invariant
            i <= parts@.len(),
            ps == parts@.map_values(|p: String| p@),
            sepc@ == opt_view(*sep),
            out@ == join_with(ps.subrange(0, i as int), sepc@),
        decreases parts@.len() - i,
    {
        let ghost before = out@;
        if i > 0 {
            push_all(&mut out, sepc.as_slice());
        }
        push_all(&mut out, chars_of(parts[i].as_str()).as_slice());
        assert(ps.subrange(0, i + 1).drop_last() =~= ps.subrange(0, i as int));
        if i == 0 {
            assert(ps.subrange(0, 1) =~= seq![ps[0]]);
        }
        i += 1;
    }
    assert(ps.subrange(0, parts@.len() as int) =~= ps);
    out
}

fn serialize_token<F: OutputFormat>(t: &Token, format: &F) -> (r: String)
    ensures
        r@ == spec_ser_token(*t, *format),
    decreases t,
{
    match t {
        Token::Text { text, formatting } => {
            if text.as_str().unicode_len() == 0 {
                return String::new();
            }
            let escaped = format.escape(text.as_str());
            apply_formatting(escaped.as_str(), formatting, format)
        },
        Token::Group { children, delimiter, prefix, suffix, formatting, fail_if_empty } => {
            if *fail_if_empty && t.is_empty() {
                return String::new();
            }
            let mut parts: Vec<String> = Vec::new();
            let mut i: usize = 0;
            let ghost cs = children@;
            assert(cs.subrange(0, cs.len() as int) =~= cs);
            while i < children.len()
                invariant
                    i <= cs.len(),
                    cs == children@,
                    *t is Group,
                    *children == t->Group_children,
                    parts@.map_values(|p: String| p@) + spec_ser_parts(
                        cs.subrange(i as int, cs.len() as int),
                        *format,
                    ) == spec_ser_parts(cs, *format),
                decreases cs.len() - i,
            {
                let ghost rest = cs.subrange(i as int, cs.len() as int);
                let ghost before = parts@.map_values(|p: String| p@);
                assert(rest.subrange(1, rest.len() as int) =~= cs.subrange(i + 1, cs.len() as int));
                let c = &children[i];
                if !c.is_empty() {
                    proof {
                        lemma_child_decreases(*t, i as int);
                    }
                    let one = serialize_token(c, format);
                    let collapsed = collapse_punctuation(one.as_str());
                    parts.push(collapsed);
                    assert(parts@.map_values(|p: String| p@) =~= before.push(collapsed@));
                    assert(before + (seq![collapsed@] + spec_ser_parts(
                        cs.subrange(i + 1, cs.len() as int),
                        *format,
                    )) =~= parts@.map_values(|p: String| p@) + spec_ser_parts(
                        cs.subrange(i + 1, cs.len() as int),
                        *format,
                    ));
                } else {
                    assert(before + (Seq::<Seq<char>>::empty() + spec_ser_parts(
                        cs.subrange(i + 1, cs.len() as int),
                        *format,
                    )) =~= before + spec_ser_parts(cs.subrange(i + 1, cs.len() as int), *format));
                }
                i += 1;
            }
            assert(parts@.map_values(|p: String| p@) =~= parts@.map_values(|p: String| p@)
                + spec_ser_parts(cs.subrange(i as int, cs.len() as int), *format));
            let body = join_parts(&parts, delimiter);
            let body_s = string_from_chars(body.as_slice());
            let formatted = apply_formatting(body_s.as_str(), formatting, format);
            let mut out: Vec<char> = match prefix {
                Some(p) => chars_of(p.as_str()),
                None => Vec::new(),
            };
            push_all(&mut out, chars_of(formatted.as_str()).as_slice());
            match suffix {
                Some(sfx) => push_all(&mut out, chars_of(sfx.as_str()).as_slice()),
                None => {},
            }
            string_from_chars(out.as_slice())
        },
        Token::Link { label, href, formatting } => {
            if label.as_str().unicode_len() == 0 {
                return String::new();
            }
            let escaped = format.escape(label.as_str());
            let formatted = apply_formatting(escaped.as_str(), formatting, format);
            format.link(formatted.as_str(), href.as_str())
        },
    }
}

/// Appends the serialisation of every token to `out`; empty tokens, and
/// fail-if-empty groups with nothing in them, add nothing.
pub fn serialize_into<F: OutputFormat>(tokens: &[Token], format: &F, out: &mut String)
    ensures
        final(out)@ == old(out)@ + spec_ser_tokens(tokens@, *format),
{
    let mut i: usize = 0;
    while i < tokens.len()
        invariant
            i <= tokens@.len(),
            out@ == old(out)@ + spec_ser_tokens(tokens@.subrange(0, i as int), *format),
        decreases tokens@.len() - i,
    {
        let one = serialize_token(&tokens[i], format);
        out.append(one.as_str());
        assert(tokens@.subrange(0, i + 1).drop_last() =~= tokens@.subrange(0, i as int));
        i += 1;
    }
    assert(tokens@.subrange(0, tokens@.len() as int) =~= tokens@);
}

/// Serialises the IR through `format`, then collapses doubled
/// punctuation (see [`spec_collapse_punctuation`]).
pub fn serialize<F: OutputFormat>(tokens: &[Token], format: &F) -> (r: String)
    ensures
        r@ == spec_serialize(tokens@, *format),
{
    let mut out = String::new();
    serialize_into(tokens, format, &mut out);
    collapse_punctuation(out.as_str())
}

} // verus!
