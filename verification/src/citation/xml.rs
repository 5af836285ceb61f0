//! The XML layer of the CSL reader: the event stream `quick_xml` reads
//! from a document (text trimmed, whitespace-only text dropped), as
//! plain values, and the attribute helpers every element parser uses.

use vstd::prelude::*;

use quick_xml::events::{BytesStart, Event};
use quick_xml::Reader;
use quick_xml::Error as QuickXmlError;

use crate::text::{
    chars_eq, chars_of, parse_unsigned, replace_all, seq_replace, spec_parse_unsigned,
    split_whitespace, split_words, string_from_chars,
};

verus! {

/// A `quick_xml` start or empty tag (opaque; converted to [`XmlTag`]).
#[verifier::external_type_specification]
#[verifier::external_body]
pub struct ExBytesStart<'a>(BytesStart<'a>);

/// A `quick_xml` event (opaque; converted to [`XmlEvent`]).
#[verifier::external_type_specification]
#[verifier::external_body]
pub struct ExEvent<'a>(Event<'a>);

/// A `quick_xml` error (opaque; its message is kept).
#[verifier::external_type_specification]
#[verifier::external_body]
pub struct ExXmlError(QuickXmlError);

/// One attribute: its key as written, its local name (after the prefix)
/// and its raw value.
pub struct XmlAttr {
    pub key: String,
    pub local: String,
    pub value: String,
}

/// A start or empty tag: its local name and attributes in order.
pub struct XmlTag {
    pub name: String,
    pub attrs: Vec<XmlAttr>,
}

/// One event of the stream.
pub enum XmlEvent {
    Start(XmlTag),
    Empty(XmlTag),
    /// An end tag, by local name.
    End(String),
    /// Text content: unescaped, or the unescaping error's message.
    Text(Result<String, String>),
    /// A comment, declaration, processing instruction, CDATA or DTD.
    Other,
    Eof,
    /// The reader failed, with the error's message.
    Failed(String),
}

/// An attribute as plain values.
pub struct AttrV {
    pub key: Seq<char>,
    pub local: Seq<char>,
    pub value: Seq<char>,
}

/// A tag as plain values.
pub struct TagV {
    pub name: Seq<char>,
    pub attrs: Seq<AttrV>,
}

/// An event as plain values.
pub enum EvV {
    Start(TagV),
    Empty(TagV),
    End(Seq<char>),
    Text(Result<Seq<char>, Seq<char>>),
    Other,
    Eof,
    Failed(Seq<char>),
}

/// The plain form of an attribute.
pub open spec fn attr_view(a: XmlAttr) -> AttrV {
    AttrV { key: a.key@, local: a.local@, value: a.value@ }
}

/// The plain form of a tag.
pub open spec fn tag_view(t: XmlTag) -> TagV {
    TagV { name: t.name@, attrs: t.attrs@.map_values(|a: XmlAttr| attr_view(a)) }
}

/// The plain form of an event.
pub open spec fn ev_view(e: XmlEvent) -> EvV {
    match e {
        XmlEvent::Start(t) => EvV::Start(tag_view(t)),
        XmlEvent::Empty(t) => EvV::Empty(tag_view(t)),
        XmlEvent::End(n) => EvV::End(n@),
        XmlEvent::Text(Ok(s)) => EvV::Text(Ok(s@)),
        XmlEvent::Text(Err(m)) => EvV::Text(Err(m@)),
        XmlEvent::Other => EvV::Other,
        XmlEvent::Eof => EvV::Eof,
        XmlEvent::Failed(m) => EvV::Failed(m@),
    }
}

/// The plain forms of a list of events.
pub open spec fn evs_view(v: Seq<XmlEvent>) -> Seq<EvV> {
    v.map_values(|e: XmlEvent| ev_view(e))
}

/// The events `quick_xml` reads from `xml`, with text trimmed, up to and
/// including the end of the document or the first read error.
pub uninterp spec fn xml_event_list(xml: Seq<char>) -> Seq<EvV>;

/// The stream ends with its end or a read error, and only there.
pub open spec fn well_terminated(evs: Seq<EvV>) -> bool {
    &&& evs.len() > 0
    &&& (evs.last() is Eof || evs.last() is Failed)
    &&& forall|i: int| 0 <= i < evs.len() - 1 ==> !(#[trigger] evs[i] is Eof) && !(evs[i] is Failed)
}

/// Converts a tag: local name and attributes (malformed ones skipped).
#[verifier::external_body]
fn tag_of(e: &BytesStart) -> XmlTag {
    let attrs = e.attributes().with_checks(false).flatten().map(|a| XmlAttr {
        key: String::from_utf8_lossy(a.key.as_ref()).into_owned(),
        local: String::from_utf8_lossy(a.key.local_name().as_ref()).into_owned(),
        value: String::from_utf8_lossy(&a.value).into_owned(),
    }).collect();
    XmlTag { name: String::from_utf8_lossy(e.local_name().as_ref()).into_owned(), attrs }
}

/// Converts one read result, variant by variant.
#[verifier::external_body]
fn event_of(r: Result<Event, QuickXmlError>) -> XmlEvent {
    match r {
        Ok(Event::Start(e)) => XmlEvent::Start(tag_of(&e)),
        Ok(Event::Empty(e)) => XmlEvent::Empty(tag_of(&e)),
        Ok(Event::End(e)) => XmlEvent::End(String::from_utf8_lossy(e.local_name().as_ref()).into_owned()),
        Ok(Event::Text(t)) => XmlEvent::Text(t.unescape().map(|s| s.into_owned()).map_err(|e| e.to_string())),
        Ok(Event::Eof) => XmlEvent::Eof,
        Ok(_) => XmlEvent::Other,
        Err(e) => XmlEvent::Failed(e.to_string()),
    }
}

/// Reads `xml` with `quick_xml::Reader` (text trimmed) until the end of
/// the document or a read error; the events are those
/// [`xml_event_list`] names, the last one being the end or the error.
#[verifier::external_body]
pub(crate) fn xml_events(xml: &str) -> (r: Vec<XmlEvent>)
    ensures
        evs_view(r@) == xml_event_list(xml@),
        well_terminated(evs_view(r@)),
{
    let mut reader = Reader::from_str(xml);
    reader.config_mut().trim_text(true);
    let mut out = Vec::new();
    loop {
        let ev = event_of(reader.read_event());
        let done = matches!(ev, XmlEvent::Eof | XmlEvent::Failed(_));
        out.push(ev);
        if done {
            return out;
        }
    }
}

// ─────────────────────────────────────────────────────────────────
// Attributes
// ─────────────────────────────────────────────────────────────────

/// The five predefined entities replaced (`&amp;` last), or `s` itself
/// when it holds no `&`.
pub open spec fn spec_unescape_xml(s: Seq<char>) -> Seq<char> {
    if !s.contains('&') {
        s
    } else {
        seq_replace(
            seq_replace(
                seq_replace(seq_replace(seq_replace(s, "&lt;"@, "<"@), "&gt;"@, ">"@), "&quot;"@, "\""@),
                "&apos;"@,
                "'"@,
            ),
            "&amp;"@,
            "&"@,
        )
    }
}

/// Replaces the five predefined XML entities.
pub fn unescape_xml(s: &str) -> (r: String)
    ensures
        r@ == spec_unescape_xml(s@),
{
    let cs = chars_of(s);
    let mut has_amp = false;
    let mut i: usize = 0;
    while i < cs.len()
        invariant
            i <= cs@.len(),
            has_amp <==> exists|j: int| 0 <= j < i && cs@[j] == '&',
        decreases cs@.len() - i,
    {
        if cs[i] == '&' {
            has_amp = true;
        }
        i = i + 1;
    }
    if !has_amp {
        proof {
            assert(!s@.contains('&'));
        }
        return s.to_owned();
    }
    proof {
        reveal_strlit("&lt;");
        reveal_strlit("&gt;");
        reveal_strlit("&quot;");
        reveal_strlit("&apos;");
        reveal_strlit("&amp;");
    }
    let a = replace_all(cs.as_slice(), chars_of("&lt;").as_slice(), chars_of("<").as_slice());
    let b = replace_all(a.as_slice(), chars_of("&gt;").as_slice(), chars_of(">").as_slice());
    let c = replace_all(b.as_slice(), chars_of("&quot;").as_slice(), chars_of("\"").as_slice());
    let d = replace_all(c.as_slice(), chars_of("&apos;").as_slice(), chars_of("'").as_slice());
    let e = replace_all(d.as_slice(), chars_of("&amp;").as_slice(), chars_of("&").as_slice());
    proof {
        assert(s@.contains('&'));
    }
    string_from_chars(e.as_slice())
}

/// Index of the first attribute whose local name is `name`.
pub open spec fn first_attr_index(attrs: Seq<AttrV>, name: Seq<char>) -> Option<int>
    decreases attrs.len(),
{
    if attrs.len() == 0 {
        None
    } else if attrs[0].local == name {
        Some(0)
    } else {
        match first_attr_index(attrs.drop_first(), name) {
            Some(i) => Some(i + 1),
            None => None,
        }
    }
}

/// The unescaped value of the first attribute whose local name is
/// `name`.
pub open spec fn attr_of(t: TagV, name: Seq<char>) -> Option<Seq<char>> {
    match first_attr_index(t.attrs, name) {
        Some(i) => Some(spec_unescape_xml(t.attrs[i].value)),
        None => None,
    }
}

/// The unescaped value of the first attribute written `xml:lang`.
pub open spec fn xml_lang_of(t: TagV) -> Option<Seq<char>> {
    let i = choose|i: int| 0 <= i < t.attrs.len() && t.attrs[i].key == "xml:lang"@ && forall|j: int|
        0 <= j < i ==> t.attrs[j].key != "xml:lang"@;
    if exists|i: int| 0 <= i < t.attrs.len() && t.attrs[i].key == "xml:lang"@ {
        Some(spec_unescape_xml(t.attrs[i].value))
    } else {
        None
    }
}

/// `attr_of` as an exec value.
pub fn attr(t: &XmlTag, name: &str) -> (r: Option<String>)
    ensures
        opt_view(r) == attr_of(tag_view(*t), name@),
{
    let nc = chars_of(name);
    let mut i: usize = 0;
    let ghost tv = tag_view(*t);
    proof {
        assert(tv.attrs.skip(0) =~= tv.attrs);
    }
    while i < t.attrs.len()
        invariant
            i <= t.attrs@.len(),
            nc@ == name@,
            tv == tag_view(*t),
            first_attr_index(tv.attrs, name@) == (match first_attr_index(tv.attrs.skip(i as int), name@) {
                Some(k) => Some(k + i),
                None => None,
            }),
        decreases t.attrs@.len() - i,
    {
        proof {
            assert(tv.attrs.skip(i as int)[0] == tv.attrs[i as int]);
            assert(tv.attrs.skip(i as int).drop_first() =~= tv.attrs.skip(i as int + 1));
        }
        if chars_eq(chars_of(t.attrs[i].local.as_str()).as_slice(), nc.as_slice()) {
            return Some(unescape_xml(t.attrs[i].value.as_str()));
        }
        i = i + 1;
    }
    None
}

/// `xml_lang_of` as an exec value.
pub fn attr_xml_lang(t: &XmlTag) -> (r: Option<String>)
    ensures
        opt_view(r) == xml_lang_of(tag_view(*t)),
{
    let key = chars_of("xml:lang");
    let ghost tv = tag_view(*t);
    let mut i: usize = 0;
    while i < t.attrs.len()
        invariant
            i <= t.attrs@.len(),
            key@ == "xml:lang"@,
            tv == tag_view(*t),
            forall|j: int| 0 <= j < i ==> tv.attrs[j].key != "xml:lang"@,
        decreases t.attrs@.len() - i,
    {
        if chars_eq(chars_of(t.attrs[i].key.as_str()).as_slice(), key.as_slice()) {
            proof {
                let k = choose|k: int| 0 <= k < tv.attrs.len() && tv.attrs[k].key == "xml:lang"@ && forall|j: int|
                    0 <= j < k ==> tv.attrs[j].key != "xml:lang"@;
                assert(tv.attrs[i as int].key == "xml:lang"@);
                if k < i {
                } else if k > i {
                    assert(tv.attrs[i as int].key != "xml:lang"@);
                }
            }
            return Some(unescape_xml(t.attrs[i].value.as_str()));
        }
        i = i + 1;
    }
    None
}

/// The characters of an optional string.
pub open spec fn opt_view(o: Option<String>) -> Option<Seq<char>> {
    match o {
        Some(s) => Some(s@),
        None => None,
    }
}

/// The attribute is present and reads `true`.
pub open spec fn bool_attr_of(t: TagV, name: Seq<char>) -> bool {
    attr_of(t, name) == Some("true"@)
}

/// `bool_attr_of` as an exec value.
pub fn bool_attr(t: &XmlTag, name: &str) -> (r: bool)
    ensures
        r == bool_attr_of(tag_view(*t), name@),
{
    match attr(t, name) {
        Some(v) => chars_eq(chars_of(v.as_str()).as_slice(), chars_of("true").as_slice()),
        None => false,
    }
}

/// The attribute read as a `u32` (as `str::parse` reads it), if present
/// and well-formed.
pub open spec fn u32_attr_of(t: TagV, name: Seq<char>) -> Option<u32> {
    match attr_of(t, name) {
        Some(v) => match spec_parse_unsigned(v, u32::MAX as nat) {
            Some(n) => Some(n as u32),
            None => None,
        },
        None => None,
    }
}

/// `u32_attr_of` as an exec value.
pub fn u32_attr(t: &XmlTag, name: &str) -> (r: Option<u32>)
    ensures
        r == u32_attr_of(tag_view(*t), name@),
{
    match attr(t, name) {
        Some(v) => match parse_unsigned(chars_of(v.as_str()).as_slice(), 4294967295u64) {
            Some(n) => Some(n as u32),
            None => None,
        },
        None => None,
    }
}

/// The attribute split on whitespace (empty when absent).
pub open spec fn split_attr_of(t: TagV, name: Seq<char>) -> Seq<Seq<char>> {
    match attr_of(t, name) {
        Some(v) => split_whitespace(v),
        None => Seq::empty(),
    }
}

/// The views of a list of strings.
pub open spec fn strs_view(v: Seq<String>) -> Seq<Seq<char>> {
    v.map_values(|s: String| s@)
}

/// `split_attr_of` as an exec value.
pub fn split_attr(t: &XmlTag, name: &str) -> (r: Vec<String>)
    ensures
        strs_view(r@) == split_attr_of(tag_view(*t), name@),
{
    match attr(t, name) {
        Some(v) => {
            let words = split_words(chars_of(v.as_str()).as_slice());
            let mut out: Vec<String> = Vec::new();
            let mut i: usize = 0;
            while i < words.len()
                invariant
                    i <= words@.len(),
                    out@.len() == i,
                    forall|j: int| 0 <= j < i ==> (#[trigger] out@[j])@ == words@[j]@,
                decreases words@.len() - i,
            {
                out.push(string_from_chars(words[i].as_slice()));
                i = i + 1;
            }
            proof {
                assert(strs_view(out@) =~= words@.map_values(|w: Vec<char>| w@));
            }
            out
        },
        None => {
            let out: Vec<String> = Vec::new();
            proof {
                assert(strs_view(out@) =~= Seq::<Seq<char>>::empty());
            }
            out
        },
    }
}

} // verus!
