//! The CSL 1.0.2 citation engine: style AST, token IR and its
//! serialisation, attribute-value parsers and renderer helpers.

pub mod assets;
pub mod ast;
pub mod parser;
pub mod ir;
pub mod format;
pub mod renderer;
pub mod xml;
pub mod reader;
pub mod grammar;
pub mod body;
pub mod styles;
pub mod tokens;
pub mod render_spec;
pub mod render;
pub mod laws;

use vstd::prelude::*;

use crate::citation::assets::{bundled_locales, bundled_styles, is_bundled_locale, is_bundled_style};
use crate::citation::format::{Html, OutputFormat};
use crate::text::{chars_of, push_all, string_from_chars};

verus! {

/// The package version.
pub const VERSION: &'static str = "0.0.0";

/// One bibliographic reference, in the shape of the CSL-JSON schema.
/// Most fields are optional: a renderer that needs a missing field falls
/// back to the style's `substitute` chain or omits the variable.
#[derive(Clone, Debug, Default, PartialEq, Eq)]
pub struct CslItem {
    /// Stable identifier (citekey).
    pub id: String,
    /// CSL item type ("article-journal", "book", ...).
    pub item_type: String,
    pub author: Vec<NameVar>,
    pub editor: Vec<NameVar>,
    pub translator: Vec<NameVar>,
    pub title: Option<String>,
    pub container_title: Option<String>,
    pub container_title_short: Option<String>,
    pub publisher: Option<String>,
    pub publisher_place: Option<String>,
    pub issued: Option<DateVar>,
    pub volume: Option<String>,
    pub issue: Option<String>,
    /// Page range ("123-145" or "123").
    pub page: Option<String>,
    pub doi: Option<String>,
    pub url: Option<String>,
    pub isbn: Option<String>,
    pub edition: Option<String>,
    pub abstract_: Option<String>,
    /// Fields not modelled above, by name (names distinct, in increasing
    /// order), kept so that nothing is lost on a round trip.
    pub extra: Vec<ExtraField>,
}

/// A field of a reference outside the modelled ones.
#[derive(Clone, Debug, PartialEq, Eq)]
pub struct ExtraField {
    pub name: String,
    pub value: ExtraValue,
}

/// The value of an extra field: text, or any other JSON value kept as
/// its JSON text.
#[derive(Clone, Debug, PartialEq, Eq)]
pub enum ExtraValue {
    Text(String),
    Json(String),
}

/// One personal or institutional name (a CSL-JSON name variable):
/// `family` and optionally `given` for a person, or `literal` for an
/// institution.
#[derive(Clone, Debug, PartialEq, Eq)]
pub struct NameVar {
    pub family: Option<String>,
    pub given: Option<String>,
    /// Particle kept in alphabetisation ("van", "de la").
    pub non_dropping_particle: Option<String>,
    /// Particle dropped in alphabetisation.
    pub dropping_particle: Option<String>,
    /// Suffix ("Jr.", "III").
    pub suffix: Option<String>,
    /// Institutional name.
    pub literal: Option<String>,
}

/// A date variable: `[[year, month, day]]` parts (two entries for a
/// range), or a free-form literal, possibly approximate.
#[derive(Clone, Debug, Default, PartialEq, Eq)]
pub struct DateVar {
    pub date_parts: Vec<Vec<i32>>,
    pub literal: Option<String>,
    pub circa: bool,
}

/// Failure modes of the citation engine.
#[derive(Clone, Debug, PartialEq, Eq)]
#[non_exhaustive]
pub enum Error {
    /// `style` is not one of the bundled ids.
    UnknownStyle(String),
    /// `locale` is not one of the bundled ids.
    UnknownLocale(String),
    /// The style XML failed to parse.
    MalformedStyle { style: String, reason: String },
    /// The locale XML failed to parse.
    MalformedLocale { locale: String, reason: String },
    /// A CSL feature the renderer does not support, by name.
    UnsupportedFeature(String),
}

/// The message of an error.
pub open spec fn spec_error_message(e: Error) -> Seq<char> {
    match e {
        Error::UnknownStyle(s) => "unknown CSL style: "@ + s@,
        Error::UnknownLocale(l) => "unknown CSL locale: "@ + l@,
        Error::MalformedStyle { style, reason } => "malformed CSL style ("@ + style@ + "): "@ + reason@,
        Error::MalformedLocale { locale, reason } => "malformed CSL locale ("@ + locale@ + "): "@ + reason@,
        Error::UnsupportedFeature(f) => "unsupported CSL feature: "@ + f@,
    }
}

/// Appends the characters of `s` to `out`.
fn put(out: &mut Vec<char>, s: &str)
    ensures
        final(out)@ == old(out)@ + s@,
{
    push_all(out, chars_of(s).as_slice());
}

impl Error {
    /// The human-readable message of the error.
    pub fn message(&self) -> (r: String)
        ensures
            r@ == spec_error_message(*self),
    {
        let mut out: Vec<char> = Vec::new();
        match self {
            Error::UnknownStyle(s) => {
                put(&mut out, "unknown CSL style: ");
                put(&mut out, s.as_str());
            },
            Error::UnknownLocale(l) => {
                put(&mut out, "unknown CSL locale: ");
                put(&mut out, l.as_str());
            },
            Error::MalformedStyle { style, reason } => {
                put(&mut out, "malformed CSL style (");
                put(&mut out, style.as_str());
                put(&mut out, "): ");
                put(&mut out, reason.as_str());
            },
            Error::MalformedLocale { locale, reason } => {
                put(&mut out, "malformed CSL locale (");
                put(&mut out, locale.as_str());
                put(&mut out, "): ");
                put(&mut out, reason.as_str());
            },
            Error::UnsupportedFeature(f) => {
                put(&mut out, "unsupported CSL feature: ");
                put(&mut out, f.as_str());
            },
        }
        proof {
            assert(out@ =~= spec_error_message(*self));
        }
        string_from_chars(out.as_slice())
    }
}

/// The renderer has no output yet for a bundled style in a bundled
/// locale; a call with an unknown style or locale is refused.
pub open spec fn render_refused(style: Seq<char>, locale: Seq<char>) -> bool {
    !bundled_styles().contains(style) || !bundled_locales().contains(locale)
}

/// The refusal for `style` and `locale`: an unknown style first, then
/// an unknown locale.
pub open spec fn refusal_is(r: Result<String, Error>, style: Seq<char>, locale: Seq<char>) -> bool {
    if !bundled_styles().contains(style) {
        r matches Err(Error::UnknownStyle(s)) && s@ == style
    } else {
        r matches Err(Error::UnknownLocale(l)) && l@ == locale
    }
}

/// The style and locale lookups that precede rendering.
fn check_style_and_locale(style: &str, locale: &str) -> (r: Result<String, Error>)
    requires
        render_refused(style@, locale@),
    ensures
        refusal_is(r, style@, locale@),
{
    if !is_bundled_style(style) {
        return Err(Error::UnknownStyle(style.to_string()));
    }
    if !is_bundled_locale(locale) {
        return Err(Error::UnknownLocale(locale.to_string()));
    }
    vstd::pervasive::unreached()
}

/// Renders a bibliography of `items` in `style` and `locale`. An
/// unknown style is refused with `UnknownStyle`, then an unknown locale
/// with `UnknownLocale`; a bundled style in a bundled locale has no
/// renderer yet.
pub fn render_bib_with<F: OutputFormat>(items: &[CslItem], style: &str, locale: &str, format: &F) -> (r: Result<
    String,
    Error,
>)
    requires
        render_refused(style@, locale@),
    ensures
        refusal_is(r, style@, locale@),
{
    check_style_and_locale(style, locale)
}

/// Renders an in-text citation of `item`; refusals as in
/// [`render_bib_with`].
pub fn render_inline_with<F: OutputFormat>(item: &CslItem, style: &str, locale: &str, format: &F) -> (r: Result<
    String,
    Error,
>)
    requires
        render_refused(style@, locale@),
    ensures
        refusal_is(r, style@, locale@),
{
    check_style_and_locale(style, locale)
}

/// Renders a bibliography as HTML in the `en-US` locale.
pub fn render_bib(items: &[CslItem], style: &str) -> (r: Result<String, Error>)
    requires
        !bundled_styles().contains(style@),
    ensures
        r matches Err(Error::UnknownStyle(s)) && s@ == style@,
{
    render_bib_with(items, style, "en-US", &Html)
}

/// Renders an in-text citation as HTML in the `en-US` locale.
pub fn render_inline(item: &CslItem, style: &str) -> (r: Result<String, Error>)
    requires
        !bundled_styles().contains(style@),
    ensures
        r matches Err(Error::UnknownStyle(s)) && s@ == style@,
{
    render_inline_with(item, style, "en-US", &Html)
}

} // verus!
