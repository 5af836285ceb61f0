//! The editor core: find engine, edit-op dispatcher and the
//! format / offset rules of the public editing surface.
//!
//! Offsets handed in by the host are UTF-8 byte offsets into the
//! document text; the document model works in codepoints, and the
//! functions here check and translate between the two.

pub mod bridge;
pub mod dispatch;
pub mod find;
pub mod laws;

use vstd::prelude::*;
use vstd::utf8::{encode_utf8, encode_utf8_decode_utf8, is_char_boundary, valid_utf8};

use crate::doc_model::document::{spec_insert_text, spec_delete_text};
use crate::doc_model::Doc;
use crate::text::{chars_eq, chars_of, decimal_string, push_all, spec_decimal, string_from_chars, utf8_error_text, utf8_to_string};

verus! {

/// The package version.
pub const VERSION: &'static str = "0.0.0";

/// Handle of a document in the host's registry.
#[derive(Debug, Clone, Copy, PartialEq, Eq, Hash)]
pub struct DocId(pub u64);

impl DocId {
    /// The handle with raw value `raw`.
    pub fn from_raw(raw: u64) -> (r: DocId)
        ensures
            r.0 == raw,
    {
        DocId(raw)
    }

    /// The raw value of the handle.
    pub fn raw(self) -> (r: u64)
        ensures
            r == self.0,
    {
        self.0
    }
}

/// A byte-offset edit of the plain text.
#[derive(Debug, Clone, PartialEq, Eq)]
pub enum EditOp {
    /// Insert `text` at byte `offset`.
    InsertText { offset: usize, text: String },
    /// Delete the bytes `[start, end)`.
    DeleteRange { start: usize, end: usize },
}

/// The document formats the editor reads and writes.
#[derive(Debug, Clone, Copy, PartialEq, Eq)]
pub enum DocFormat {
    Docx,
    Markdown,
    Html,
    Rtf,
    Odt,
}

/// Why an editor call failed.
#[derive(Debug)]
pub enum Error {
    EmptyInput,
    InvalidOoxml,
    InvalidInput { format: DocFormat, reason: String },
    FormatNotSupported { format: DocFormat },
    UnknownFormat { name: String },
    UnknownDoc(DocId),
    OffsetOutOfBounds { offset: usize, len: usize },
    OffsetNotOnCharBoundary { offset: usize },
    InvalidRange { start: usize, end: usize, len: usize },
    SerializeFailed { reason: String },
    JsonParseFailed { reason: String },
    EditOpFailed { kind: String, reason: String },
    LayoutFailed { reason: String },
}

/// The name of a format, as `{:?}` writes it.
pub open spec fn spec_format_name(f: DocFormat) -> Seq<char> {
    match f {
        DocFormat::Docx => "Docx"@,
        DocFormat::Markdown => "Markdown"@,
        DocFormat::Html => "Html"@,
        DocFormat::Rtf => "Rtf"@,
        DocFormat::Odt => "Odt"@,
    }
}

/// The message of an error.
pub open spec fn spec_error_message(e: Error) -> Seq<char> {
    match e {
        Error::EmptyInput => "input bytes are empty"@,
        Error::InvalidOoxml => "input bytes are not a valid OOXML/.docx file"@,
        Error::InvalidInput { format, reason } => "input bytes are not a valid "@ + spec_format_name(format)
            + " document: "@ + reason@,
        Error::FormatNotSupported { format } => spec_format_name(format)
            + " format support is not yet implemented (deferred to v1)"@,
        Error::UnknownFormat { name } => "unknown format identifier: "@ + name@,
        Error::UnknownDoc(id) => "doc id DocId("@ + spec_decimal(id.0 as nat) + ") is unknown to the registry"@,
        Error::OffsetOutOfBounds { offset, len } => "offset "@ + spec_decimal(offset as nat)
            + " is past document length "@ + spec_decimal(len as nat),
        Error::OffsetNotOnCharBoundary { offset } => "offset "@ + spec_decimal(offset as nat)
            + " does not fall on a UTF-8 character boundary"@,
        Error::InvalidRange { start, end, len } => "range "@ + spec_decimal(start as nat) + ".."@ + spec_decimal(
            end as nat,
        ) + " is invalid (start > end or end > len "@ + spec_decimal(len as nat) + ")"@,
        Error::SerializeFailed { reason } => "OOXML serialization failed: "@ + reason@,
        Error::JsonParseFailed { reason } => "EditOp JSON parse failed: "@ + reason@,
        Error::EditOpFailed { kind, reason } => "EditOp dispatch failed for "@ + kind@ + ": "@ + reason@,
        Error::LayoutFailed { reason } => "layout failed: "@ + reason@,
    }
}

/// Appends the characters of `s` to `out`.
fn put(out: &mut Vec<char>, s: &str)
    ensures
        final(out)@ == old(out)@ + s@,
{
    push_all(out, chars_of(s).as_slice());
}

/// Appends the decimal rendering of `n` to `out`.
fn put_num(out: &mut Vec<char>, n: usize)
    ensures
        final(out)@ == old(out)@ + spec_decimal(n as nat),
{
    let d = decimal_string(n as u64);
    push_all(out, chars_of(d.as_str()).as_slice());
}

/// The name of a format.
fn format_name(f: DocFormat) -> (r: &'static str)
    ensures
        r@ == spec_format_name(f),
{
    match f {
        DocFormat::Docx => "Docx",
        DocFormat::Markdown => "Markdown",
        DocFormat::Html => "Html",
        DocFormat::Rtf => "Rtf",
        DocFormat::Odt => "Odt",
    }
}

impl Error {
    /// The human-readable message of the error.
    pub fn message(&self) -> (r: String)
        ensures
            r@ == spec_error_message(*self),
    {
        let mut out: Vec<char> = Vec::new();
        match self {
            Error::EmptyInput => put(&mut out, "input bytes are empty"),
            Error::InvalidOoxml => put(&mut out, "input bytes are not a valid OOXML/.docx file"),
            Error::InvalidInput { format, reason } => {
                put(&mut out, "input bytes are not a valid ");
                put(&mut out, format_name(*format));
                put(&mut out, " document: ");
                put(&mut out, reason.as_str());
            },
            Error::FormatNotSupported { format } => {
                put(&mut out, format_name(*format));
                put(&mut out, " format support is not yet implemented (deferred to v1)");
            },
            Error::UnknownFormat { name } => {
                put(&mut out, "unknown format identifier: ");
                put(&mut out, name.as_str());
            },
            Error::UnknownDoc(id) => {
                put(&mut out, "doc id DocId(");
                let d = decimal_string(id.0);
                put(&mut out, d.as_str());
                put(&mut out, ") is unknown to the registry");
            },
            Error::OffsetOutOfBounds { offset, len } => {
                put(&mut out, "offset ");
                put_num(&mut out, *offset);
                put(&mut out, " is past document length ");
                put_num(&mut out, *len);
            },
            Error::OffsetNotOnCharBoundary { offset } => {
                put(&mut out, "offset ");
                put_num(&mut out, *offset);
                put(&mut out, " does not fall on a UTF-8 character boundary");
            },
            Error::InvalidRange { start, end, len } => {
                put(&mut out, "range ");
                put_num(&mut out, *start);
                put(&mut out, "..");
                put_num(&mut out, *end);
                put(&mut out, " is invalid (start > end or end > len ");
                put_num(&mut out, *len);
                put(&mut out, ")");
            },
            Error::SerializeFailed { reason } => {
                put(&mut out, "OOXML serialization failed: ");
                put(&mut out, reason.as_str());
            },
            Error::JsonParseFailed { reason } => {
                put(&mut out, "EditOp JSON parse failed: ");
                put(&mut out, reason.as_str());
            },
            Error::EditOpFailed { kind, reason } => {
                put(&mut out, "EditOp dispatch failed for ");
                put(&mut out, kind.as_str());
                put(&mut out, ": ");
                put(&mut out, reason.as_str());
            },
            Error::LayoutFailed { reason } => {
                put(&mut out, "layout failed: ");
                put(&mut out, reason.as_str());
            },
        }
        proof {
            assert(out@ =~= spec_error_message(*self));
        }
        string_from_chars(out.as_slice())
    }
}

/// The format an identifier names, if any.
pub open spec fn spec_parse_format(s: Seq<char>) -> Option<DocFormat> {
    if s == "docx"@ {
        Some(DocFormat::Docx)
    } else if s == "md"@ || s == "markdown"@ {
        Some(DocFormat::Markdown)
    } else if s == "html"@ {
        Some(DocFormat::Html)
    } else if s == "rtf"@ {
        Some(DocFormat::Rtf)
    } else if s == "odt"@ {
        Some(DocFormat::Odt)
    } else {
        None
    }
}

/// Parses a format identifier (`docx`, `md`/`markdown`, `html`, `rtf`,
/// `odt`); anything else is an unknown format.
pub fn parse_doc_format(s: &str) -> (r: Result<DocFormat, Error>)
    ensures
        match spec_parse_format(s@) {
            Some(f) => r == Ok::<DocFormat, Error>(f),
            None => r matches Err(Error::UnknownFormat { name }) && name@ == s@,
        },
{
    let cs = chars_of(s);
    let is = |lit: &str| -> (b: bool)
        ensures
            b == (s@ == lit@),
        { chars_eq(cs.as_slice(), chars_of(lit).as_slice()) };
    if is("docx") {
        Ok(DocFormat::Docx)
    } else if is("md") || is("markdown") {
        Ok(DocFormat::Markdown)
    } else if is("html") {
        Ok(DocFormat::Html)
    } else if is("rtf") {
        Ok(DocFormat::Rtf)
    } else if is("odt") {
        Ok(DocFormat::Odt)
    } else {
        Err(Error::UnknownFormat { name: s.to_owned() })
    }
}

/// The check on an insertion offset into UTF-8 `bytes`: past the end
/// is out of bounds, inside a character is off a boundary.
pub open spec fn insert_check(bytes: Seq<u8>, offset: usize) -> Result<(), Error> {
    if offset > bytes.len() {
        Err(Error::OffsetOutOfBounds { offset, len: bytes.len() as usize })
    } else if !is_char_boundary(bytes, offset as int) {
        Err(Error::OffsetNotOnCharBoundary { offset })
    } else {
        Ok(())
    }
}

/// The check on a deletion range of UTF-8 `bytes`: an inverted range or
/// one past the end is invalid; then each end must lie on a boundary,
/// the start checked first.
pub open spec fn delete_check(bytes: Seq<u8>, start: usize, end: usize) -> Result<(), Error> {
    if start > end || end > bytes.len() {
        Err(Error::InvalidRange { start, end, len: bytes.len() as usize })
    } else if !is_char_boundary(bytes, start as int) {
        Err(Error::OffsetNotOnCharBoundary { offset: start })
    } else if !is_char_boundary(bytes, end as int) {
        Err(Error::OffsetNotOnCharBoundary { offset: end })
    } else {
        Ok(())
    }
}

/// Checks that a byte offset lies within the text and on a character
/// boundary.
pub fn validate_insert_offset(text: &str, offset: usize) -> (r: Result<(), Error>)
    requires
        encode_utf8(text@).len() <= usize::MAX,
    ensures
        r == insert_check(encode_utf8(text@), offset),
{
    let len = text.len();
    if offset > len {
        return Err(Error::OffsetOutOfBounds { offset, len });
    }
    if !text.is_char_boundary(offset) {
        return Err(Error::OffsetNotOnCharBoundary { offset });
    }
    Ok(())
}

/// Checks that `[start, end)` is an ordered byte range within the text
/// whose ends lie on character boundaries.
pub fn validate_delete_range(text: &str, start: usize, end: usize) -> (r: Result<(), Error>)
    requires
        encode_utf8(text@).len() <= usize::MAX,
    ensures
        r == delete_check(encode_utf8(text@), start, end),
{
    let len = text.len();
    if start > end || end > len {
        return Err(Error::InvalidRange { start, end, len });
    }
    if !text.is_char_boundary(start) {
        return Err(Error::OffsetNotOnCharBoundary { offset: start });
    }
    if !text.is_char_boundary(end) {
        return Err(Error::OffsetNotOnCharBoundary { offset: end });
    }
    Ok(())
}

/// The number of codepoints the first `byte_offset` bytes encode.
pub open spec fn spec_char_offset(text: Seq<char>, byte_offset: int) -> int {
    vstd::utf8::decode_utf8(encode_utf8(text).take(byte_offset)).len() as int
}

/// Translates a byte offset on a character boundary into a codepoint
/// offset.
pub fn byte_to_char_offset(text: &str, byte_offset: usize) -> (r: usize)
    requires
        byte_offset <= encode_utf8(text@).len(),
        is_char_boundary(encode_utf8(text@), byte_offset as int),
    ensures
        r == spec_char_offset(text@, byte_offset as int),
        r <= text@.len(),
{
    let (head, tail) = text.split_at(byte_offset);
    proof {
        encode_utf8_decode_utf8(head@);
        encode_utf8_decode_utf8(text@);
        encode_utf8_decode_utf8(tail@);
        vstd::utf8::encode_utf8_valid_utf8(text@);
        vstd::utf8::decode_utf8_split(encode_utf8(text@), byte_offset as int);
        assert(encode_utf8(text@).take(byte_offset as int) =~= encode_utf8(head@));
        assert(encode_utf8(text@).subrange(byte_offset as int, encode_utf8(text@).len() as int) =~= encode_utf8(tail@));
    }
    chars_of(head).len()
}

/// The codepoint text of a fresh document seeded with `text`.
pub fn seed_doc(text: &str) -> (d: Doc)
    ensures
        d.body() == text@,
{
    let mut doc = Doc::new();
    if !text.is_empty() {
        doc.insert(0, text);
        proof {
            assert(spec_insert_text(Seq::<char>::empty(), 0, text@) =~= text@);
        }
    }
    doc
}

/// `true` for the formats whose reading and writing is deferred.
pub open spec fn spec_deferred_format(f: DocFormat) -> bool {
    f == DocFormat::Rtf || f == DocFormat::Odt
}

/// Refuses the formats whose support is deferred (RTF, ODT).
pub fn check_format_supported(format: DocFormat) -> (r: Result<(), Error>)
    ensures
        spec_deferred_format(format) ==> (r matches Err(Error::FormatNotSupported { format: f }) && f == format),
        !spec_deferred_format(format) ==> r is Ok,
{
    match format {
        DocFormat::Rtf | DocFormat::Odt => Err(Error::FormatNotSupported { format }),
        _ => Ok(()),
    }
}

/// The checks made on input before it is read: empty input is refused
/// first, then a deferred format.
pub fn check_open_input(bytes: &[u8], format: DocFormat) -> (r: Result<(), Error>)
    ensures
        bytes@.len() == 0 ==> r matches Err(Error::EmptyInput),
        bytes@.len() > 0 && spec_deferred_format(format) ==> (r matches Err(
            Error::FormatNotSupported { format: f },
        ) && f == format),
        bytes@.len() > 0 && !spec_deferred_format(format) ==> r is Ok,
{
    if bytes.len() == 0 {
        return Err(Error::EmptyInput);
    }
    check_format_supported(format)
}

/// Reads UTF-8 input of a text format: well-formed input gives its
/// characters, anything else is invalid input of `format`, with the
/// decoder's explanation as the reason.
pub fn decode_utf8(bytes: &[u8], format: DocFormat) -> (r: Result<String, Error>)
    ensures
        valid_utf8(bytes@) ==> (r matches Ok(s) && s@ == vstd::utf8::decode_utf8(bytes@)),
        !valid_utf8(bytes@) ==> (r matches Err(Error::InvalidInput { format: f, reason }) && f == format
            && reason@ == utf8_error_text(bytes@)),
{
    match utf8_to_string(bytes) {
        Ok(s) => Ok(s),
        Err(reason) => Err(Error::InvalidInput { format, reason }),
    }
}

/// Writing a document in a text format and opening the bytes again
/// gives its text back: the UTF-8 bytes of any text are well formed and
/// decode to that text, so [`decode_utf8`] returns it.
pub proof fn law_text_format_round_trip(text: Seq<char>)
    ensures
        valid_utf8(encode_utf8(text)),
        vstd::utf8::decode_utf8(encode_utf8(text)) == text,
{
    vstd::utf8::encode_utf8_valid_utf8(text);
    encode_utf8_decode_utf8(text);
}

/// What a byte-offset edit does to a document: an offset or range that
/// fails its check ([`insert_check`], [`delete_check`]) is refused with
/// that check's error and nothing changes; otherwise the edit is made at
/// the matching codepoints.
pub open spec fn byte_edit_effect(o: Doc, n: Doc, op: EditOp, r: Result<(), Error>) -> bool {
    let bytes = encode_utf8(o.body());
    match op {
        EditOp::InsertText { offset, text } => match insert_check(bytes, offset) {
            Ok(()) => {
                &&& r is Ok
                &&& n.body() == spec_insert_text(o.body(), spec_char_offset(o.body(), offset as int), text@)
            },
            Err(e) => r == Err::<(), Error>(e) && n == o,
        },
        EditOp::DeleteRange { start, end } => match delete_check(bytes, start, end) {
            Ok(()) => {
                &&& r is Ok
                &&& n.body() == spec_delete_text(
                    o.body(),
                    spec_char_offset(o.body(), start as int),
                    spec_char_offset(o.body(), end as int),
                )
            },
            Err(e) => r == Err::<(), Error>(e) && n == o,
        },
    }
}

/// The UTF-8 bytes of a concatenation are the concatenated bytes.
pub proof fn lemma_encode_concat(a: Seq<char>, b: Seq<char>)
    ensures
        encode_utf8(a + b) == encode_utf8(a) + encode_utf8(b),
    decreases a.len(),
{
    if a.len() == 0 {
        assert(a + b =~= b);
        assert(encode_utf8(a) =~= Seq::<u8>::empty());
        assert(encode_utf8(a) + encode_utf8(b) =~= encode_utf8(b));
    } else {
        assert((a + b)[0] == a[0]);
        assert((a + b).drop_first() =~= a.drop_first() + b);
        lemma_encode_concat(a.drop_first(), b);
        assert(encode_utf8(a + b) =~= encode_utf8(a) + encode_utf8(b));
    }
}

/// Every character takes at least one byte.
pub proof fn lemma_encode_len(a: Seq<char>)
    ensures
        encode_utf8(a).len() >= a.len(),
    decreases a.len(),
{
    if a.len() > 0 {
        lemma_encode_len(a.drop_first());
        assert(vstd::utf8::encode_scalar(a[0] as u32).len() >= 1);
    }
}

/// Splitting the UTF-8 bytes of a text at a character boundary `p`
/// splits the text at the codepoint offset that `p` stands for: the two
/// pieces of the text encode to the two pieces of the bytes.
pub proof fn lemma_boundary_split(body: Seq<char>, p: int)
    requires
        0 <= p <= encode_utf8(body).len(),
        is_char_boundary(encode_utf8(body), p),
    ensures
        0 <= spec_char_offset(body, p) <= body.len(),
        encode_utf8(body.subrange(0, spec_char_offset(body, p))) == encode_utf8(body).subrange(0, p),
        encode_utf8(body.subrange(spec_char_offset(body, p), body.len() as int)) == encode_utf8(body).subrange(
            p,
            encode_utf8(body).len() as int,
        ),
{
    let bytes = encode_utf8(body);
    vstd::utf8::encode_utf8_valid_utf8(body);
    encode_utf8_decode_utf8(body);
    let b1 = bytes.subrange(0, p);
    let b2 = bytes.subrange(p, bytes.len() as int);
    vstd::utf8::decode_utf8_split(bytes, p);
    vstd::utf8::valid_utf8_split(bytes, p);
    assert(bytes.take(p) == b1);
    let d1 = vstd::utf8::decode_utf8(b1);
    let d2 = vstd::utf8::decode_utf8(b2);
    assert(body == d1 + d2);
    let k = d1.len() as int;
    assert(body.subrange(0, k) =~= d1);
    assert(body.subrange(k, body.len() as int) =~= d2);
    vstd::utf8::decode_utf8_encode_utf8(b1);
    vstd::utf8::decode_utf8_encode_utf8(b2);
}

/// A byte-offset edit whose offsets pass their check succeeds, and is
/// byte slicing of the UTF-8 text: an insertion puts the bytes of the
/// inserted text at the offset, a deletion removes the bytes
/// `[start, end)`.
pub proof fn law_byte_edit_is_byte_slicing(o: Doc, n: Doc, op: EditOp, r: Result<(), Error>)
    requires
        byte_edit_effect(o, n, op, r),
        match op {
            EditOp::InsertText { offset, .. } => insert_check(encode_utf8(o.body()), offset) is Ok,
            EditOp::DeleteRange { start, end } => delete_check(encode_utf8(o.body()), start, end) is Ok,
        },
    ensures
        r is Ok,
        ({
            let bytes = encode_utf8(o.body());
            match op {
                EditOp::InsertText { offset, text } => encode_utf8(n.body()) == bytes.subrange(0, offset as int)
                    + encode_utf8(text@) + bytes.subrange(offset as int, bytes.len() as int),
                EditOp::DeleteRange { start, end } => encode_utf8(n.body()) == bytes.subrange(0, start as int)
                    + bytes.subrange(end as int, bytes.len() as int),
            }
        }),
{
    let body = o.body();
    let bytes = encode_utf8(body);
    match op {
        EditOp::InsertText { offset, text } => {
            lemma_boundary_split(body, offset as int);
            let k = spec_char_offset(body, offset as int);
            let a = body.subrange(0, k);
            let c = body.subrange(k, body.len() as int);
            assert(n.body() == a + text@ + c);
            lemma_encode_concat(a + text@, c);
            lemma_encode_concat(a, text@);
        },
        EditOp::DeleteRange { start, end } => {
            lemma_boundary_split(body, start as int);
            lemma_boundary_split(body, end as int);
            let ks = spec_char_offset(body, start as int);
            let ke = spec_char_offset(body, end as int);
            if ks > ke {
                let x = body.subrange(0, ke);
                let y = body.subrange(ke, ks);
                assert(body.subrange(0, ks) =~= x + y);
                lemma_encode_concat(x, y);
                lemma_encode_len(y);
                assert(false);
            }
            let a = body.subrange(0, ks);
            let c = body.subrange(ke, body.len() as int);
            assert(n.body() == a + c);
            lemma_encode_concat(a, c);
        },
    }
}

/// Applies a byte-offset edit to a document: the offsets are checked
/// against the current text, translated to codepoints, and the edit is
/// made; a rejected offset or range leaves the document unchanged.
pub fn apply_op(doc: &mut Doc, op: EditOp) -> (r: Result<(), Error>)
    ensures
        byte_edit_effect(*old(doc), *final(doc), op, r),
{
    let current = doc.text();
    match op {
        EditOp::InsertText { offset, text } => {
            match validate_insert_offset(current.as_str(), offset) {
                Ok(()) => {},
                Err(e) => return Err(e),
            }
            let char_offset = byte_to_char_offset(current.as_str(), offset);
            doc.insert(char_offset, text.as_str());
            Ok(())
        },
        EditOp::DeleteRange { start, end } => {
            match validate_delete_range(current.as_str(), start, end) {
                Ok(()) => {},
                Err(e) => return Err(e),
            }
            let char_start = byte_to_char_offset(current.as_str(), start);
            let char_end = byte_to_char_offset(current.as_str(), end);
            doc.delete(char_start..char_end);
            Ok(())
        },
    }
}

} // verus!
