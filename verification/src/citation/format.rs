//! Output formats for the renderer's IR: how italic, bold, link and
//! superscript runs are written, and how raw text is escaped.

use vstd::prelude::*;

use crate::text::{chars_of, push_all, string_from_chars};

verus! {

/// A serialiser for the renderer's IR. Each method's result is described
/// by the matching spec function, so that serialisation can be specified
/// for any format.
pub trait OutputFormat {
    /// What [`OutputFormat::italic`] returns.
    spec fn spec_italic(&self, inner: Seq<char>) -> Seq<char>;

    /// What [`OutputFormat::bold`] returns.
    spec fn spec_bold(&self, inner: Seq<char>) -> Seq<char>;

    /// What [`OutputFormat::link`] returns.
    spec fn spec_link(&self, inner: Seq<char>, href: Seq<char>) -> Seq<char>;

    /// What [`OutputFormat::superscript`] returns.
    spec fn spec_superscript(&self, inner: Seq<char>) -> Seq<char>;

    /// What [`OutputFormat::escape`] returns.
    spec fn spec_escape(&self, text: Seq<char>) -> Seq<char>;

    /// Wraps `inner` as italic.
    fn italic(&self, inner: &str) -> (r: String)
        ensures
            r@ == self.spec_italic(inner@),
    ;

    /// Wraps `inner` as bold.
    fn bold(&self, inner: &str) -> (r: String)
        ensures
            r@ == self.spec_bold(inner@),
    ;

    /// Wraps `inner` as a hyperlink to `href`.
    fn link(&self, inner: &str, href: &str) -> (r: String)
        ensures
            r@ == self.spec_link(inner@, href@),
    ;

    /// Wraps `inner` as superscript.
    fn superscript(&self, inner: &str) -> (r: String)
        ensures
            r@ == self.spec_superscript(inner@),
    ;

    /// Escapes arbitrary text.
    fn escape(&self, text: &str) -> (r: String)
        ensures
            r@ == self.spec_escape(text@),
    ;
}

/// HTML output: `<i>`, `<b>`, `<a href="…">`, `<sup>`; escapes `<>&"`.
#[derive(Clone, Copy, Debug, Default)]
pub struct Html;

/// Plain-text output: formatting dropped, text unchanged.
#[derive(Clone, Copy, Debug, Default)]
pub struct Plain;

/// The HTML escape of one character.
pub open spec fn html_escape_char(c: char) -> Seq<char> {
    if c == '<' {
        "&lt;"@
    } else if c == '>' {
        "&gt;"@
    } else if c == '&' {
        "&amp;"@
    } else if c == '"' {
        "&quot;"@
    } else {
        seq![c]
    }
}

/// HTML escape of a string: each of `<`, `>`, `&`, `"` replaced by its
/// entity, everything else kept.
pub open spec fn html_escape(s: Seq<char>) -> Seq<char>
    decreases s.len(),
{
    if s.len() == 0 {
        Seq::empty()
    } else {
        html_escape(s.drop_last()) + html_escape_char(s.last())
    }
}

fn wrap(open: &str, inner: &str, close: &str) -> (r: String)
    ensures
        r@ == open@ + inner@ + close@,
{
    let mut out = chars_of(open);
    push_all(&mut out, chars_of(inner).as_slice());
    push_all(&mut out, chars_of(close).as_slice());
    string_from_chars(out.as_slice())
}

impl OutputFormat for Html {
    open spec fn spec_italic(&self, inner: Seq<char>) -> Seq<char> {
        "<i>"@ + inner + "</i>"@
    }

    open spec fn spec_bold(&self, inner: Seq<char>) -> Seq<char> {
        "<b>"@ + inner + "</b>"@
    }

    open spec fn spec_link(&self, inner: Seq<char>, href: Seq<char>) -> Seq<char> {
        "<a href=\""@ + html_escape(href) + "\">"@ + inner + "</a>"@
    }

    open spec fn spec_superscript(&self, inner: Seq<char>) -> Seq<char> {
        "<sup>"@ + inner + "</sup>"@
    }

    open spec fn spec_escape(&self, text: Seq<char>) -> Seq<char> {
        html_escape(text)
    }

    fn italic(&self, inner: &str) -> (r: String) {
        wrap("<i>", inner, "</i>")
    }

    fn bold(&self, inner: &str) -> (r: String) {
        wrap("<b>", inner, "</b>")
    }

    fn link(&self, inner: &str, href: &str) -> (r: String) {
        let esc = self.escape(href);
        let mut out = chars_of("<a href=\"");
        push_all(&mut out, chars_of(esc.as_str()).as_slice());
        push_all(&mut out, chars_of("\">").as_slice());
        push_all(&mut out, chars_of(inner).as_slice());
        push_all(&mut out, chars_of("</a>").as_slice());
        string_from_chars(out.as_slice())
    }

    fn superscript(&self, inner: &str) -> (r: String) {
        wrap("<sup>", inner, "</sup>")
    }

    fn escape(&self, text: &str) -> (r: String) {
        let cs = chars_of(text);
        let mut out: Vec<char> = Vec::new();
        let mut i: usize = 0;
        while i < cs.len()
            invariant
                i <= cs@.len(),
                cs@ == text@,
                out@ == html_escape(cs@.subrange(0, i as int)),
            decreases cs@.len() - i,
        {
            let c = cs[i];
            let ghost before = out@;
            if c == '<' {
                push_all(&mut out, chars_of("&lt;").as_slice());
            } else if c == '>' {
                push_all(&mut out, chars_of("&gt;").as_slice());
            } else if c == '&' {
                push_all(&mut out, chars_of("&amp;").as_slice());
            } else if c == '"' {
                push_all(&mut out, chars_of("&quot;").as_slice());
            } else {
                out.push(c);
            }
            assert(cs@.subrange(0, i + 1).drop_last() == cs@.subrange(0, i as int));
            assert(out@ == before + html_escape_char(c));
            i += 1;
        }
        assert(cs@.subrange(0, cs@.len() as int) == cs@);
        string_from_chars(out.as_slice())
    }
}

impl OutputFormat for Plain {
    open spec fn spec_italic(&self, inner: Seq<char>) -> Seq<char> {
        inner
    }

    open spec fn spec_bold(&self, inner: Seq<char>) -> Seq<char> {
        inner
    }

    open spec fn spec_link(&self, inner: Seq<char>, href: Seq<char>) -> Seq<char> {
        inner
    }

    open spec fn spec_superscript(&self, inner: Seq<char>) -> Seq<char> {
        inner
    }

    open spec fn spec_escape(&self, text: Seq<char>) -> Seq<char> {
        text
    }

    fn italic(&self, inner: &str) -> (r: String) {
        inner.to_owned()
    }

    fn bold(&self, inner: &str) -> (r: String) {
        inner.to_owned()
    }

    fn link(&self, inner: &str, _href: &str) -> (r: String) {
        inner.to_owned()
    }

    fn superscript(&self, inner: &str) -> (r: String) {
        inner.to_owned()
    }

    fn escape(&self, text: &str) -> (r: String) {
        text.to_owned()
    }
}

} // verus!
