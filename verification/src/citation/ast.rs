//! The CSL 1.0.2 abstract syntax: one type per CSL element or attribute
//! family, mirroring the XML structure closely.

use vstd::prelude::*;

verus! {

/// A parsed CSL style. `id` is the lookup id the caller gives (eg.
/// "apa"), not the `<info><id>` URL inside the file.
#[derive(Debug, PartialEq, Eq)]
pub struct Style {
    pub id: String,
    pub class: StyleClass,
    pub default_locale: Option<String>,
    /// `<style initialize-with="…">`: the default for `<name>` elements
    /// that set none.
    pub initialize_with: Option<String>,
    /// `<style names-delimiter="…">`.
    pub names_delimiter: Option<String>,
    /// `<style demote-non-dropping-particle="…">`.
    pub demote_non_dropping_particle: Option<String>,
    /// `<style page-range-format="…">`.
    pub page_range_format: Option<String>,
    pub citation: Citation,
    pub bibliography: Option<Bibliography>,
    /// The `<macro>`s by name: names distinct, in increasing order.
    pub macros: Vec<Macro>,
    /// In-style `<locale>` overrides, in document order.
    pub locale_overrides: Vec<Locale>,
}

/// One `<macro>`: its name and body.
#[derive(Debug, PartialEq, Eq)]
pub struct Macro {
    pub name: String,
    pub body: Vec<Element>,
}

/// CSL style class — in-text (author-date / numeric) or note.
#[derive(Clone, Copy, Debug, PartialEq, Eq, Default)]
pub enum StyleClass {
    #[default]
    InText,
    Note,
}

/// `<citation>` — the in-text / inline form.
#[derive(Debug, Default, PartialEq, Eq)]
pub struct Citation {
    pub layout: Layout,
    pub sort: Vec<SortKey>,
    pub et_al_min: Option<u32>,
    pub et_al_use_first: Option<u32>,
    pub et_al_subsequent_min: Option<u32>,
    pub et_al_subsequent_use_first: Option<u32>,
    pub et_al_use_last: bool,
    pub disambiguate_add_givenname: bool,
    pub disambiguate_add_names: bool,
    pub disambiguate_add_year_suffix: bool,
    pub givenname_disambiguation_rule: Option<String>,
    pub collapse: Option<String>,
    pub names_delimiter: Option<String>,
    pub name_delimiter: Option<String>,
    pub initialize_with_hyphen: bool,
}

/// `<bibliography>` — the bibliography list form. `line_spacing` and
/// `entry_spacing` keep the attribute text as written (a number).
#[derive(Debug, Default, PartialEq, Eq)]
pub struct Bibliography {
    pub layout: Layout,
    pub sort: Vec<SortKey>,
    pub hanging_indent: bool,
    pub line_spacing: Option<String>,
    pub entry_spacing: Option<String>,
    pub second_field_align: Option<String>,
    pub subsequent_author_substitute: Option<String>,
    pub subsequent_author_substitute_rule: Option<String>,
    pub et_al_min: Option<u32>,
    pub et_al_use_first: Option<u32>,
    pub et_al_use_last: bool,
    pub names_delimiter: Option<String>,
    pub name_delimiter: Option<String>,
}

/// `<layout>` — the body of a citation or bibliography.
#[derive(Debug, Default, PartialEq, Eq)]
pub struct Layout {
    pub delimiter: Option<String>,
    pub prefix: Option<String>,
    pub suffix: Option<String>,
    pub formatting: Formatting,
    pub body: Vec<Element>,
}

/// One `<key>` inside `<sort>`.
#[derive(Clone, Debug, PartialEq, Eq)]
pub struct SortKey {
    pub source: SortSource,
    pub sort_descending: bool,
    pub names_min: Option<u32>,
    pub names_use_first: Option<u32>,
    pub names_use_last: bool,
}

/// What a sort key sorts by.
#[derive(Clone, Debug, PartialEq, Eq)]
pub enum SortSource {
    Variable(String),
    Macro(String),
}

/// One renderable piece of a layout / group / branch / substitute.
#[derive(Debug, PartialEq, Eq)]
pub enum Element {
    Text(TextElement),
    Number(NumberElement),
    Group(GroupElement),
    Choose(ChooseElement),
    Names(Box<NamesElement>),
    Date(Box<DateElement>),
    Label(LabelElement),
}

/// Formatting attributes shared by most elements.
#[derive(Clone, Copy, Debug, Default, PartialEq, Eq)]
pub struct Formatting {
    pub font_style: Option<FontStyle>,
    pub font_weight: Option<FontWeight>,
    pub font_variant: Option<FontVariant>,
    pub text_decoration: Option<TextDecoration>,
    pub vertical_align: Option<VerticalAlign>,
}

impl Formatting {
    /// No formatting attribute set.
    pub fn plain() -> (r: Formatting)
        ensures
            r.is_plain(),
    {
        Formatting {
            font_style: None,
            font_weight: None,
            font_variant: None,
            text_decoration: None,
            vertical_align: None,
        }
    }

    /// `true` when no formatting attribute is set.
    pub fn is_empty(&self) -> (r: bool)
        ensures
            r == self.is_plain(),
    {
        self.font_style.is_none() && self.font_weight.is_none() && self.font_variant.is_none()
            && self.text_decoration.is_none() && self.vertical_align.is_none()
    }

    /// No formatting attribute is set.
    pub open spec fn is_plain(self) -> bool {
        &&& self.font_style is None
        &&& self.font_weight is None
        &&& self.font_variant is None
        &&& self.text_decoration is None
        &&& self.vertical_align is None
    }
}

#[derive(Clone, Copy, Debug, PartialEq, Eq)]
pub enum FontStyle {
    Normal,
    Italic,
    Oblique,
}

#[derive(Clone, Copy, Debug, PartialEq, Eq)]
pub enum FontWeight {
    Normal,
    Bold,
    Light,
}

#[derive(Clone, Copy, Debug, PartialEq, Eq)]
pub enum FontVariant {
    Normal,
    SmallCaps,
}

#[derive(Clone, Copy, Debug, PartialEq, Eq)]
pub enum TextDecoration {
    /// `text-decoration="none"`.
    NoDecoration,
    Underline,
}

#[derive(Clone, Copy, Debug, PartialEq, Eq)]
pub enum VerticalAlign {
    Baseline,
    Sup,
    Sub,
}

/// `text-case` attribute values.
#[derive(Clone, Copy, Debug, PartialEq, Eq)]
pub enum TextCase {
    Lowercase,
    Uppercase,
    Capitalize,
    CapitalizeFirst,
    Sentence,
    Title,
}

/// `display` attribute values.
#[derive(Clone, Copy, Debug, PartialEq, Eq)]
pub enum Display {
    Block,
    LeftMargin,
    RightInline,
    Indent,
}

/// `<text>` — a variable, macro, term or literal value.
#[derive(Clone, Debug, PartialEq, Eq)]
pub struct TextElement {
    pub source: TextSource,
    pub formatting: Formatting,
    pub prefix: Option<String>,
    pub suffix: Option<String>,
    pub quotes: bool,
    pub strip_periods: bool,
    pub text_case: Option<TextCase>,
    pub display: Option<Display>,
    pub form: Option<String>,
    pub plural: Option<String>,
}

/// Where a `<text>` element takes its content from.
#[derive(Clone, Debug, PartialEq, Eq)]
pub enum TextSource {
    Variable(String),
    Macro(String),
    Term(String),
    Value(String),
}

/// `<number>`.
#[derive(Clone, Debug, PartialEq, Eq)]
pub struct NumberElement {
    pub variable: String,
    pub form: Option<NumberForm>,
    pub formatting: Formatting,
    pub prefix: Option<String>,
    pub suffix: Option<String>,
    pub text_case: Option<TextCase>,
    pub display: Option<Display>,
}

#[derive(Clone, Copy, Debug, PartialEq, Eq)]
pub enum NumberForm {
    Numeric,
    Ordinal,
    LongOrdinal,
    Roman,
}

/// `<group>` — suppressed when its variables all render empty.
#[derive(Debug, Default, PartialEq, Eq)]
pub struct GroupElement {
    pub delimiter: Option<String>,
    pub prefix: Option<String>,
    pub suffix: Option<String>,
    pub formatting: Formatting,
    pub display: Option<Display>,
    pub body: Vec<Element>,
}

/// `<choose>` — the first matching branch wins, `else` otherwise.
#[derive(Debug, Default, PartialEq, Eq)]
pub struct ChooseElement {
    pub branches: Vec<ChooseBranch>,
    pub else_body: Vec<Element>,
}

/// One `<if>` / `<else-if>`.
#[derive(Debug, PartialEq, Eq)]
pub struct ChooseBranch {
    pub conditions: Conditions,
    pub body: Vec<Element>,
}

/// The tests of an `<if>` / `<else-if>`, combined per `match`.
#[derive(Clone, Debug, Default, PartialEq, Eq)]
pub struct Conditions {
    pub match_kind: MatchKind,
    pub variable: Vec<String>,
    pub item_type: Vec<String>,
    pub is_numeric: Vec<String>,
    pub is_uncertain_date: Vec<String>,
    pub locator: Vec<String>,
    pub position: Vec<String>,
    pub disambiguate: bool,
}

#[derive(Clone, Copy, Debug, Default, PartialEq, Eq)]
pub enum MatchKind {
    #[default]
    All,
    Any,
    /// `match="none"`: no test may hold.
    NoneOf,
}

/// `<names>`.
#[derive(Debug, Default, PartialEq, Eq)]
pub struct NamesElement {
    pub variables: Vec<String>,
    pub name: Option<NameElement>,
    pub et_al: Option<EtAlElement>,
    pub label: Option<LabelElement>,
    pub substitute: Vec<Element>,
    pub delimiter: Option<String>,
    pub prefix: Option<String>,
    pub suffix: Option<String>,
    pub formatting: Formatting,
    pub display: Option<Display>,
}

/// `<name>` — how each name is formatted.
#[derive(Clone, Debug, Default, PartialEq, Eq)]
pub struct NameElement {
    pub form: Option<NameForm>,
    pub and: Option<NameAnd>,
    pub delimiter: Option<String>,
    pub delimiter_precedes_et_al: Option<String>,
    pub delimiter_precedes_last: Option<String>,
    pub et_al_min: Option<u32>,
    pub et_al_use_first: Option<u32>,
    pub et_al_use_last: bool,
    pub initialize: bool,
    pub initialize_with: Option<String>,
    pub initialize_with_hyphen: bool,
    pub name_as_sort_order: Option<NameAsSortOrder>,
    pub sort_separator: Option<String>,
    pub formatting: Formatting,
    pub name_parts: Vec<NamePart>,
}

#[derive(Clone, Copy, Debug, PartialEq, Eq)]
pub enum NameForm {
    Long,
    Short,
    Count,
}

#[derive(Clone, Copy, Debug, PartialEq, Eq)]
pub enum NameAnd {
    Text,
    Symbol,
}

#[derive(Clone, Copy, Debug, PartialEq, Eq)]
pub enum NameAsSortOrder {
    First,
    All,
}

/// `<name-part>`.
#[derive(Clone, Debug, PartialEq, Eq)]
pub struct NamePart {
    pub name: String,
    pub formatting: Formatting,
    pub text_case: Option<TextCase>,
}

/// `<et-al>`.
#[derive(Clone, Debug, Default, PartialEq, Eq)]
pub struct EtAlElement {
    pub term: Option<String>,
    pub formatting: Formatting,
}

/// `<date>`.
#[derive(Clone, Debug, Default, PartialEq, Eq)]
pub struct DateElement {
    pub variable: String,
    pub form: Option<DateForm>,
    pub date_parts_filter: Option<DatePartsFilter>,
    pub date_parts: Vec<DatePart>,
    pub delimiter: Option<String>,
    pub prefix: Option<String>,
    pub suffix: Option<String>,
    pub formatting: Formatting,
    pub display: Option<Display>,
}

#[derive(Clone, Copy, Debug, PartialEq, Eq)]
pub enum DateForm {
    Text,
    Numeric,
}

#[derive(Clone, Copy, Debug, PartialEq, Eq)]
pub enum DatePartsFilter {
    Year,
    YearMonth,
    YearMonthDay,
}

/// `<date-part>`.
#[derive(Clone, Debug, PartialEq, Eq)]
pub struct DatePart {
    pub name: DatePartName,
    pub form: Option<DatePartForm>,
    pub prefix: Option<String>,
    pub suffix: Option<String>,
    pub range_delimiter: Option<String>,
    pub formatting: Formatting,
    pub text_case: Option<TextCase>,
    pub strip_periods: bool,
}

#[derive(Clone, Copy, Debug, PartialEq, Eq)]
pub enum DatePartName {
    Year,
    Month,
    Day,
}

#[derive(Clone, Copy, Debug, PartialEq, Eq)]
pub enum DatePartForm {
    Numeric,
    NumericLeadingZeros,
    Ordinal,
    Long,
    Short,
    Short2,
}

/// `<label>`.
#[derive(Clone, Debug, Default, PartialEq, Eq)]
pub struct LabelElement {
    pub variable: Option<String>,
    pub form: Option<String>,
    pub plural: Option<String>,
    pub prefix: Option<String>,
    pub suffix: Option<String>,
    pub strip_periods: bool,
    pub text_case: Option<TextCase>,
    pub formatting: Formatting,
}

/// A CSL locale (standalone file or in-style override).
#[derive(Clone, Debug, Default, PartialEq, Eq)]
pub struct Locale {
    pub lang: Option<String>,
    pub style_options: StyleOptions,
    pub terms: Vec<Term>,
    pub date_text: Option<DateElement>,
    pub date_numeric: Option<DateElement>,
}

/// `<style-options>` of a locale.
#[derive(Clone, Copy, Debug, Default, PartialEq, Eq)]
pub struct StyleOptions {
    pub punctuation_in_quote: bool,
    pub limit_day_ordinals_to_day_1: bool,
}

/// `<term>`.
#[derive(Clone, Debug, PartialEq, Eq)]
pub struct Term {
    pub name: String,
    pub form: TermForm,
    pub gender: Option<TermGender>,
    pub gender_form: Option<TermGender>,
    pub match_attr: Option<String>,
    pub body: TermBody,
}

#[derive(Clone, Copy, Debug, Default, PartialEq, Eq)]
pub enum TermForm {
    #[default]
    Long,
    Short,
    Verb,
    VerbShort,
    Symbol,
}

#[derive(Clone, Copy, Debug, PartialEq, Eq)]
pub enum TermGender {
    Masculine,
    Feminine,
    Neuter,
}

/// Flat term content, or singular / plural forms.
#[derive(Clone, Debug, PartialEq, Eq)]
pub enum TermBody {
    Flat(String),
    Plural { single: String, multiple: String },
}

} // verus!
