//! The CSL reader's entry points and errors, and its attribute-value
//! parsers: each maps the text of one attribute to its AST value,
//! ignoring unknown values (CSL is lenient by specification).

use vstd::prelude::*;

use crate::citation::ast::{
    DateForm, DatePartForm, DatePartName, DatePartsFilter, Display, FontStyle, FontVariant,
    FontWeight, NameAnd, NameAsSortOrder, NameForm, NumberForm, TermForm, TermGender,
    TextCase, TextDecoration, VerticalAlign,
};
use crate::text::{chars_of, push_all, str_eq, string_from_chars};

pub use crate::citation::styles::{parse_locale, parse_style};

verus! {

/// Why a CSL document could not be read.
#[derive(Clone, Debug, PartialEq, Eq)]
pub enum ParseError {
    /// The XML reader failed, with its message.
    Xml(String),
    /// The document has no root element of this name.
    MissingRoot(String),
    /// An element lacks a required attribute.
    MissingAttr { element: String, attr: String },
    /// An element that may not stand here.
    UnexpectedElement(String),
}

/// The message of a parse error.
pub open spec fn spec_parse_error_message(e: ParseError) -> Seq<char> {
    match e {
        ParseError::Xml(m) => "xml read error: "@ + m@,
        ParseError::MissingRoot(n) => "missing root element <"@ + n@ + ">"@,
        ParseError::MissingAttr { element, attr } => "missing required attribute @"@ + attr@ + " on <"@
            + element@ + ">"@,
        ParseError::UnexpectedElement(n) => "unexpected element <"@ + n@ + ">"@,
    }
}

/// Appends the characters of `s` to `out`.
fn put(out: &mut Vec<char>, s: &str)
    ensures
        final(out)@ == old(out)@ + s@,
{
    push_all(out, chars_of(s).as_slice());
}

impl ParseError {
    /// The human-readable message of the error.
    pub fn message(&self) -> (r: String)
        ensures
            r@ == spec_parse_error_message(*self),
    {
        let mut out: Vec<char> = Vec::new();
        match self {
            ParseError::Xml(m) => {
                put(&mut out, "xml read error: ");
                put(&mut out, m.as_str());
            },
            ParseError::MissingRoot(n) => {
                put(&mut out, "missing root element <");
                put(&mut out, n.as_str());
                put(&mut out, ">");
            },
            ParseError::MissingAttr { element, attr } => {
                put(&mut out, "missing required attribute @");
                put(&mut out, attr.as_str());
                put(&mut out, " on <");
                put(&mut out, element.as_str());
                put(&mut out, ">");
            },
            ParseError::UnexpectedElement(n) => {
                put(&mut out, "unexpected element <");
                put(&mut out, n.as_str());
                put(&mut out, ">");
            },
        }
        proof {
            assert(out@ =~= spec_parse_error_message(*self));
        }
        string_from_chars(out.as_slice())
    }
}

/// The FontStyle named by a `font-style` value; `None` for an unknown value.
pub open spec fn spec_font_style_from(s: Seq<char>) -> Option<FontStyle> {
    if s == "normal"@ {
        Some(FontStyle::Normal)
    } else if s == "italic"@ {
        Some(FontStyle::Italic)
    } else if s == "oblique"@ {
        Some(FontStyle::Oblique)
    } else {
        None
    }
}

/// Parses a `font-style` attribute value; absent or unknown values give `None`.
pub fn font_style_from(s: Option<&str>) -> (r: Option<FontStyle>)
    ensures
        r == (match s {
            Some(v) => spec_font_style_from(v@),
            None => None,
        }),
{
    let s = match s {
        Some(v) => v,
        None => return None,
    };
    if str_eq(s, "normal") {
        Some(FontStyle::Normal)
    } else if str_eq(s, "italic") {
        Some(FontStyle::Italic)
    } else if str_eq(s, "oblique") {
        Some(FontStyle::Oblique)
    } else {
        None
    }
}

/// The FontWeight named by a `font-weight` value; `None` for an unknown value.
pub open spec fn spec_font_weight_from(s: Seq<char>) -> Option<FontWeight> {
    if s == "normal"@ {
        Some(FontWeight::Normal)
    } else if s == "bold"@ {
        Some(FontWeight::Bold)
    } else if s == "light"@ {
        Some(FontWeight::Light)
    } else {
        None
    }
}

/// Parses a `font-weight` attribute value; absent or unknown values give `None`.
pub fn font_weight_from(s: Option<&str>) -> (r: Option<FontWeight>)
    ensures
        r == (match s {
            Some(v) => spec_font_weight_from(v@),
            None => None,
        }),
{
    let s = match s {
        Some(v) => v,
        None => return None,
    };
    if str_eq(s, "normal") {
        Some(FontWeight::Normal)
    } else if str_eq(s, "bold") {
        Some(FontWeight::Bold)
    } else if str_eq(s, "light") {
        Some(FontWeight::Light)
    } else {
        None
    }
}

/// The FontVariant named by a `font-variant` value; `None` for an unknown value.
pub open spec fn spec_font_variant_from(s: Seq<char>) -> Option<FontVariant> {
    if s == "normal"@ {
        Some(FontVariant::Normal)
    } else if s == "small-caps"@ {
        Some(FontVariant::SmallCaps)
    } else {
        None
    }
}

/// Parses a `font-variant` attribute value; absent or unknown values give `None`.
pub fn font_variant_from(s: Option<&str>) -> (r: Option<FontVariant>)
    ensures
        r == (match s {
            Some(v) => spec_font_variant_from(v@),
            None => None,
        }),
{
    let s = match s {
        Some(v) => v,
        None => return None,
    };
    if str_eq(s, "normal") {
        Some(FontVariant::Normal)
    } else if str_eq(s, "small-caps") {
        Some(FontVariant::SmallCaps)
    } else {
        None
    }
}

/// The TextDecoration named by a `text-decoration` value; `None` for an unknown value.
pub open spec fn spec_text_decoration_from(s: Seq<char>) -> Option<TextDecoration> {
    if s == "none"@ {
        Some(TextDecoration::NoDecoration)
    } else if s == "underline"@ {
        Some(TextDecoration::Underline)
    } else {
        None
    }
}

/// Parses a `text-decoration` attribute value; absent or unknown values give `None`.
pub fn text_decoration_from(s: Option<&str>) -> (r: Option<TextDecoration>)
    ensures
        r == (match s {
            Some(v) => spec_text_decoration_from(v@),
            None => None,
        }),
{
    let s = match s {
        Some(v) => v,
        None => return None,
    };
    if str_eq(s, "none") {
        Some(TextDecoration::NoDecoration)
    } else if str_eq(s, "underline") {
        Some(TextDecoration::Underline)
    } else {
        None
    }
}

/// The VerticalAlign named by a `vertical-align` value; `None` for an unknown value.
pub open spec fn spec_vertical_align_from(s: Seq<char>) -> Option<VerticalAlign> {
    if s == "baseline"@ {
        Some(VerticalAlign::Baseline)
    } else if s == "sup"@ {
        Some(VerticalAlign::Sup)
    } else if s == "sub"@ {
        Some(VerticalAlign::Sub)
    } else {
        None
    }
}

/// Parses a `vertical-align` attribute value; absent or unknown values give `None`.
pub fn vertical_align_from(s: Option<&str>) -> (r: Option<VerticalAlign>)
    ensures
        r == (match s {
            Some(v) => spec_vertical_align_from(v@),
            None => None,
        }),
{
    let s = match s {
        Some(v) => v,
        None => return None,
    };
    if str_eq(s, "baseline") {
        Some(VerticalAlign::Baseline)
    } else if str_eq(s, "sup") {
        Some(VerticalAlign::Sup)
    } else if str_eq(s, "sub") {
        Some(VerticalAlign::Sub)
    } else {
        None
    }
}

/// The TextCase named by a `text-case` value; `None` for an unknown value.
pub open spec fn spec_text_case_from(s: Seq<char>) -> Option<TextCase> {
    if s == "lowercase"@ {
        Some(TextCase::Lowercase)
    } else if s == "uppercase"@ {
        Some(TextCase::Uppercase)
    } else if s == "capitalize-all"@ {
        Some(TextCase::Capitalize)
    } else if s == "capitalize-first"@ {
        Some(TextCase::CapitalizeFirst)
    } else if s == "sentence"@ {
        Some(TextCase::Sentence)
    } else if s == "title"@ {
        Some(TextCase::Title)
    } else {
        None
    }
}

/// Parses a `text-case` attribute value; absent or unknown values give `None`.
pub fn text_case_from(s: Option<&str>) -> (r: Option<TextCase>)
    ensures
        r == (match s {
            Some(v) => spec_text_case_from(v@),
            None => None,
        }),
{
    let s = match s {
        Some(v) => v,
        None => return None,
    };
    if str_eq(s, "lowercase") {
        Some(TextCase::Lowercase)
    } else if str_eq(s, "uppercase") {
        Some(TextCase::Uppercase)
    } else if str_eq(s, "capitalize-all") {
        Some(TextCase::Capitalize)
    } else if str_eq(s, "capitalize-first") {
        Some(TextCase::CapitalizeFirst)
    } else if str_eq(s, "sentence") {
        Some(TextCase::Sentence)
    } else if str_eq(s, "title") {
        Some(TextCase::Title)
    } else {
        None
    }
}

/// The Display named by a `display` value; `None` for an unknown value.
pub open spec fn spec_display_from(s: Seq<char>) -> Option<Display> {
    if s == "block"@ {
        Some(Display::Block)
    } else if s == "left-margin"@ {
        Some(Display::LeftMargin)
    } else if s == "right-inline"@ {
        Some(Display::RightInline)
    } else if s == "indent"@ {
        Some(Display::Indent)
    } else {
        None
    }
}

/// Parses a `display` attribute value; absent or unknown values give `None`.
pub fn display_from(s: Option<&str>) -> (r: Option<Display>)
    ensures
        r == (match s {
            Some(v) => spec_display_from(v@),
            None => None,
        }),
{
    let s = match s {
        Some(v) => v,
        None => return None,
    };
    if str_eq(s, "block") {
        Some(Display::Block)
    } else if str_eq(s, "left-margin") {
        Some(Display::LeftMargin)
    } else if str_eq(s, "right-inline") {
        Some(Display::RightInline)
    } else if str_eq(s, "indent") {
        Some(Display::Indent)
    } else {
        None
    }
}

/// The NumberForm named by a `<number form>` value; `None` for an unknown value.
pub open spec fn spec_number_form_from(s: Seq<char>) -> Option<NumberForm> {
    if s == "numeric"@ {
        Some(NumberForm::Numeric)
    } else if s == "ordinal"@ {
        Some(NumberForm::Ordinal)
    } else if s == "long-ordinal"@ {
        Some(NumberForm::LongOrdinal)
    } else if s == "roman"@ {
        Some(NumberForm::Roman)
    } else {
        None
    }
}

/// Parses a `<number form>` attribute value; absent or unknown values give `None`.
pub fn number_form_from(s: Option<&str>) -> (r: Option<NumberForm>)
    ensures
        r == (match s {
            Some(v) => spec_number_form_from(v@),
            None => None,
        }),
{
    let s = match s {
        Some(v) => v,
        None => return None,
    };
    if str_eq(s, "numeric") {
        Some(NumberForm::Numeric)
    } else if str_eq(s, "ordinal") {
        Some(NumberForm::Ordinal)
    } else if str_eq(s, "long-ordinal") {
        Some(NumberForm::LongOrdinal)
    } else if str_eq(s, "roman") {
        Some(NumberForm::Roman)
    } else {
        None
    }
}

/// The NameForm named by a `<name form>` value; `None` for an unknown value.
pub open spec fn spec_name_form_from(s: Seq<char>) -> Option<NameForm> {
    if s == "long"@ {
        Some(NameForm::Long)
    } else if s == "short"@ {
        Some(NameForm::Short)
    } else if s == "count"@ {
        Some(NameForm::Count)
    } else {
        None
    }
}

/// Parses a `<name form>` attribute value; absent or unknown values give `None`.
pub fn name_form_from(s: Option<&str>) -> (r: Option<NameForm>)
    ensures
        r == (match s {
            Some(v) => spec_name_form_from(v@),
            None => None,
        }),
{
    let s = match s {
        Some(v) => v,
        None => return None,
    };
    if str_eq(s, "long") {
        Some(NameForm::Long)
    } else if str_eq(s, "short") {
        Some(NameForm::Short)
    } else if str_eq(s, "count") {
        Some(NameForm::Count)
    } else {
        None
    }
}

/// The NameAnd named by a `and` value; `None` for an unknown value.
pub open spec fn spec_name_and_from(s: Seq<char>) -> Option<NameAnd> {
    if s == "text"@ {
        Some(NameAnd::Text)
    } else if s == "symbol"@ {
        Some(NameAnd::Symbol)
    } else {
        None
    }
}

/// Parses a `and` attribute value; absent or unknown values give `None`.
pub fn name_and_from(s: Option<&str>) -> (r: Option<NameAnd>)
    ensures
        r == (match s {
            Some(v) => spec_name_and_from(v@),
            None => None,
        }),
{
    let s = match s {
        Some(v) => v,
        None => return None,
    };
    if str_eq(s, "text") {
        Some(NameAnd::Text)
    } else if str_eq(s, "symbol") {
        Some(NameAnd::Symbol)
    } else {
        None
    }
}

/// The NameAsSortOrder named by a `name-as-sort-order` value; `None` for an unknown value.
pub open spec fn spec_name_as_sort_order_from(s: Seq<char>) -> Option<NameAsSortOrder> {
    if s == "first"@ {
        Some(NameAsSortOrder::First)
    } else if s == "all"@ {
        Some(NameAsSortOrder::All)
    } else {
        None
    }
}

/// Parses a `name-as-sort-order` attribute value; absent or unknown values give `None`.
pub fn name_as_sort_order_from(s: Option<&str>) -> (r: Option<NameAsSortOrder>)
    ensures
        r == (match s {
            Some(v) => spec_name_as_sort_order_from(v@),
            None => None,
        }),
{
    let s = match s {
        Some(v) => v,
        None => return None,
    };
    if str_eq(s, "first") {
        Some(NameAsSortOrder::First)
    } else if str_eq(s, "all") {
        Some(NameAsSortOrder::All)
    } else {
        None
    }
}

/// The DateForm named by a `<date form>` value; `None` for an unknown value.
pub open spec fn spec_date_form_from(s: Seq<char>) -> Option<DateForm> {
    if s == "text"@ {
        Some(DateForm::Text)
    } else if s == "numeric"@ {
        Some(DateForm::Numeric)
    } else {
        None
    }
}

/// Parses a `<date form>` attribute value; absent or unknown values give `None`.
pub fn date_form_from(s: Option<&str>) -> (r: Option<DateForm>)
    ensures
        r == (match s {
            Some(v) => spec_date_form_from(v@),
            None => None,
        }),
{
    let s = match s {
        Some(v) => v,
        None => return None,
    };
    if str_eq(s, "text") {
        Some(DateForm::Text)
    } else if str_eq(s, "numeric") {
        Some(DateForm::Numeric)
    } else {
        None
    }
}

/// The DatePartsFilter named by a `date-parts` value; `None` for an unknown value.
pub open spec fn spec_date_parts_filter_from(s: Seq<char>) -> Option<DatePartsFilter> {
    if s == "year"@ {
        Some(DatePartsFilter::Year)
    } else if s == "year-month"@ {
        Some(DatePartsFilter::YearMonth)
    } else if s == "year-month-day"@ {
        Some(DatePartsFilter::YearMonthDay)
    } else {
        None
    }
}

/// Parses a `date-parts` attribute value; absent or unknown values give `None`.
pub fn date_parts_filter_from(s: Option<&str>) -> (r: Option<DatePartsFilter>)
    ensures
        r == (match s {
            Some(v) => spec_date_parts_filter_from(v@),
            None => None,
        }),
{
    let s = match s {
        Some(v) => v,
        None => return None,
    };
    if str_eq(s, "year") {
        Some(DatePartsFilter::Year)
    } else if str_eq(s, "year-month") {
        Some(DatePartsFilter::YearMonth)
    } else if str_eq(s, "year-month-day") {
        Some(DatePartsFilter::YearMonthDay)
    } else {
        None
    }
}

/// The TermGender named by a `gender` value; `None` for an unknown value.
pub open spec fn spec_term_gender_from(s: Seq<char>) -> Option<TermGender> {
    if s == "masculine"@ {
        Some(TermGender::Masculine)
    } else if s == "feminine"@ {
        Some(TermGender::Feminine)
    } else if s == "neuter"@ {
        Some(TermGender::Neuter)
    } else {
        None
    }
}

/// Parses a `gender` attribute value; absent or unknown values give `None`.
pub fn term_gender_from(s: Option<&str>) -> (r: Option<TermGender>)
    ensures
        r == (match s {
            Some(v) => spec_term_gender_from(v@),
            None => None,
        }),
{
    let s = match s {
        Some(v) => v,
        None => return None,
    };
    if str_eq(s, "masculine") {
        Some(TermGender::Masculine)
    } else if str_eq(s, "feminine") {
        Some(TermGender::Feminine)
    } else if str_eq(s, "neuter") {
        Some(TermGender::Neuter)
    } else {
        None
    }
}

/// The term form named by a `form` value; anything else (or nothing)
/// is the long form.
pub open spec fn spec_term_form(s: Option<Seq<char>>) -> TermForm {
    match s {
        Some(v) => if v == "short"@ {
            TermForm::Short
        } else if v == "verb"@ {
            TermForm::Verb
        } else if v == "verb-short"@ {
            TermForm::VerbShort
        } else if v == "symbol"@ {
            TermForm::Symbol
        } else {
            TermForm::Long
        },
        None => TermForm::Long,
    }
}

/// Parses a term `form` attribute, defaulting to [`TermForm::Long`].
pub fn term_form_from(s: Option<&str>) -> (r: TermForm)
    ensures
        r == spec_term_form(match s {
            Some(v) => Some(v@),
            None => None,
        }),
{
    match s {
        Some(v) => if str_eq(v, "short") {
            TermForm::Short
        } else if str_eq(v, "verb") {
            TermForm::Verb
        } else if str_eq(v, "verb-short") {
            TermForm::VerbShort
        } else if str_eq(v, "symbol") {
            TermForm::Symbol
        } else {
            TermForm::Long
        },
        None => TermForm::Long,
    }
}

/// The date-part form named by `s` for a part called `name`: the numeric
/// forms and `ordinal` apply to every part, `long` / `short` to the
/// month, and `short` (two-digit) to the year.
pub open spec fn spec_date_part_form(name: DatePartName, s: Seq<char>) -> Option<DatePartForm> {
    if s == "numeric"@ {
        Some(DatePartForm::Numeric)
    } else if s == "numeric-leading-zeros"@ {
        Some(DatePartForm::NumericLeadingZeros)
    } else if s == "ordinal"@ {
        Some(DatePartForm::Ordinal)
    } else if name == DatePartName::Month && s == "long"@ {
        Some(DatePartForm::Long)
    } else if name == DatePartName::Month && s == "short"@ {
        Some(DatePartForm::Short)
    } else if name == DatePartName::Year && s == "short"@ {
        Some(DatePartForm::Short2)
    } else {
        None
    }
}

/// Parses a `<date-part form>` value for a part called `name`.
pub fn date_part_form_from(name: DatePartName, s: Option<&str>) -> (r: Option<DatePartForm>)
    ensures
        r == (match s {
            Some(v) => spec_date_part_form(name, v@),
            None => None,
        }),
{
    let s = match s {
        Some(v) => v,
        None => return None,
    };
    let is_month = match name {
        DatePartName::Month => true,
        _ => false,
    };
    let is_year = match name {
        DatePartName::Year => true,
        _ => false,
    };
    if str_eq(s, "numeric") {
        Some(DatePartForm::Numeric)
    } else if str_eq(s, "numeric-leading-zeros") {
        Some(DatePartForm::NumericLeadingZeros)
    } else if str_eq(s, "ordinal") {
        Some(DatePartForm::Ordinal)
    } else if is_month && str_eq(s, "long") {
        Some(DatePartForm::Long)
    } else if is_month && str_eq(s, "short") {
        Some(DatePartForm::Short)
    } else if is_year && str_eq(s, "short") {
        Some(DatePartForm::Short2)
    } else {
        None
    }
}

} // verus!
