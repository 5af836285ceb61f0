//! The CSL reader: CSL style and locale documents, as `quick_xml`
//! events, to the AST. Unknown elements are skipped and unknown
//! attribute values ignored (CSL is lenient by specification).
//!
//! Each element parser is specified by a relation between the event
//! stream, the position it starts at, and its result: what it built and
//! the position after the element, or the error it stopped with.

use vstd::prelude::*;

use crate::citation::ast::{Conditions, DateElement, DatePart, DatePartName, EtAlElement, Formatting, LabelElement, MatchKind, NameElement, NamePart, NamesElement, NumberElement, SortKey, SortSource, StyleOptions, Term, TextElement, TextSource};
use crate::citation::parser::{date_form_from, date_part_form_from, date_parts_filter_from, display_from, font_style_from, font_variant_from, font_weight_from, name_and_from, name_as_sort_order_from, name_form_from, number_form_from, spec_date_form_from, spec_date_part_form, spec_date_parts_filter_from, spec_display_from, spec_font_style_from, spec_font_variant_from, spec_font_weight_from, spec_name_and_from, spec_name_as_sort_order_from, spec_name_form_from, spec_number_form_from, spec_text_case_from, spec_text_decoration_from, spec_vertical_align_from, text_case_from, text_decoration_from, vertical_align_from};
use crate::citation::xml::{attr, attr_of, bool_attr, bool_attr_of, opt_view, split_attr, split_attr_of, strs_view, tag_view, u32_attr, u32_attr_of, TagV, XmlTag};
use crate::text::{chars_eq, chars_of};

verus! {

/// `f` applied to a present value.
pub open spec fn lift<T>(o: Option<Seq<char>>, f: spec_fn(Seq<char>) -> Option<T>) -> Option<T> {
    match o {
        Some(v) => f(v),
        None => None,
    }
}

/// A borrowed view of an optional string.
pub fn as_opt_str(o: &Option<String>) -> (r: Option<&str>)
    ensures
        match r {
            Some(s) => *o matches Some(x) && s@ == x@,
            None => o is None,
        },
{
    match o {
        Some(s) => Some(s.as_str()),
        None => None,
    }
}

/// The formatting attributes of a tag.
pub open spec fn formatting_of(t: TagV) -> Formatting {
    Formatting {
        font_style: lift(attr_of(t, "font-style"@), |v: Seq<char>| spec_font_style_from(v)),
        font_weight: lift(attr_of(t, "font-weight"@), |v: Seq<char>| spec_font_weight_from(v)),
        font_variant: lift(attr_of(t, "font-variant"@), |v: Seq<char>| spec_font_variant_from(v)),
        text_decoration: lift(attr_of(t, "text-decoration"@), |v: Seq<char>| spec_text_decoration_from(v)),
        vertical_align: lift(attr_of(t, "vertical-align"@), |v: Seq<char>| spec_vertical_align_from(v)),
    }
}

/// Reads the formatting attributes of a tag.
pub fn parse_formatting(t: &XmlTag) -> (r: Formatting)
    ensures
        r == formatting_of(tag_view(*t)),
{
    Formatting {
        font_style: font_style_from(as_opt_str(&attr(t, "font-style"))),
        font_weight: font_weight_from(as_opt_str(&attr(t, "font-weight"))),
        font_variant: font_variant_from(as_opt_str(&attr(t, "font-variant"))),
        text_decoration: text_decoration_from(as_opt_str(&attr(t, "text-decoration"))),
        vertical_align: vertical_align_from(as_opt_str(&attr(t, "vertical-align"))),
    }
}

/// The text case a tag names.
pub open spec fn text_case_of(t: TagV) -> Option<crate::citation::ast::TextCase> {
    lift(attr_of(t, "text-case"@), |v: Seq<char>| spec_text_case_from(v))
}

/// The display a tag names.
pub open spec fn display_of(t: TagV) -> Option<crate::citation::ast::Display> {
    lift(attr_of(t, "display"@), |v: Seq<char>| spec_display_from(v))
}

/// The value of an attribute, or the empty string.
pub open spec fn attr_or_empty(t: TagV, name: Seq<char>) -> Seq<char> {
    match attr_of(t, name) {
        Some(v) => v,
        None => Seq::empty(),
    }
}

/// An attribute's value, or the empty string.
pub fn attr_or_default(t: &XmlTag, name: &str) -> (r: String)
    ensures
        r@ == attr_or_empty(tag_view(*t), name@),
{
    match attr(t, name) {
        Some(v) => v,
        None => String::new(),
    }
}

/// `x` is the `<text>` element `t` describes: its source is the first
/// of `variable`, `macro`, `term` present, else the `value` (possibly
/// empty).
pub open spec fn text_from_tag(x: TextElement, t: TagV) -> bool {
    &&& match x.source {
        TextSource::Variable(v) => attr_of(t, "variable"@) == Some(v@),
        TextSource::Macro(m) => attr_of(t, "variable"@) is None && attr_of(t, "macro"@) == Some(m@),
        TextSource::Term(n) => attr_of(t, "variable"@) is None && attr_of(t, "macro"@) is None && attr_of(t, "term"@)
            == Some(n@),
        TextSource::Value(s) => attr_of(t, "variable"@) is None && attr_of(t, "macro"@) is None && attr_of(t, "term"@)
            is None && s@ == attr_or_empty(t, "value"@),
    }
    &&& x.formatting == formatting_of(t)
    &&& opt_view(x.prefix) == attr_of(t, "prefix"@)
    &&& opt_view(x.suffix) == attr_of(t, "suffix"@)
    &&& x.quotes == bool_attr_of(t, "quotes"@)
    &&& x.strip_periods == bool_attr_of(t, "strip-periods"@)
    &&& x.text_case == text_case_of(t)
    &&& x.display == display_of(t)
    &&& opt_view(x.form) == attr_of(t, "form"@)
    &&& opt_view(x.plural) == attr_of(t, "plural"@)
}

/// Reads a `<text>` element's attributes.
pub fn parse_text(t: &XmlTag) -> (r: TextElement)
    ensures
        text_from_tag(r, tag_view(*t)),
{
    let source = match attr(t, "variable") {
        Some(v) => TextSource::Variable(v),
        None => match attr(t, "macro") {
            Some(m) => TextSource::Macro(m),
            None => match attr(t, "term") {
                Some(n) => TextSource::Term(n),
                None => TextSource::Value(attr_or_default(t, "value")),
            },
        },
    };
    TextElement {
        source,
        formatting: parse_formatting(t),
        prefix: attr(t, "prefix"),
        suffix: attr(t, "suffix"),
        quotes: bool_attr(t, "quotes"),
        strip_periods: bool_attr(t, "strip-periods"),
        text_case: text_case_from(as_opt_str(&attr(t, "text-case"))),
        display: display_from(as_opt_str(&attr(t, "display"))),
        form: attr(t, "form"),
        plural: attr(t, "plural"),
    }
}

/// `x` is the `<number>` element `t` describes.
pub open spec fn number_from_tag(x: NumberElement, t: TagV) -> bool {
    &&& x.variable@ == attr_or_empty(t, "variable"@)
    &&& x.form == lift(attr_of(t, "form"@), |v: Seq<char>| spec_number_form_from(v))
    &&& x.formatting == formatting_of(t)
    &&& opt_view(x.prefix) == attr_of(t, "prefix"@)
    &&& opt_view(x.suffix) == attr_of(t, "suffix"@)
    &&& x.text_case == text_case_of(t)
    &&& x.display == display_of(t)
}

/// Reads a `<number>` element's attributes.
pub fn parse_number(t: &XmlTag) -> (r: NumberElement)
    ensures
        number_from_tag(r, tag_view(*t)),
{
    NumberElement {
        variable: attr_or_default(t, "variable"),
        form: number_form_from(as_opt_str(&attr(t, "form"))),
        formatting: parse_formatting(t),
        prefix: attr(t, "prefix"),
        suffix: attr(t, "suffix"),
        text_case: text_case_from(as_opt_str(&attr(t, "text-case"))),
        display: display_from(as_opt_str(&attr(t, "display"))),
    }
}

/// `x` is the `<label>` element `t` describes.
pub open spec fn label_from_tag(x: LabelElement, t: TagV) -> bool {
    &&& opt_view(x.variable) == attr_of(t, "variable"@)
    &&& opt_view(x.form) == attr_of(t, "form"@)
    &&& opt_view(x.plural) == attr_of(t, "plural"@)
    &&& opt_view(x.prefix) == attr_of(t, "prefix"@)
    &&& opt_view(x.suffix) == attr_of(t, "suffix"@)
    &&& x.strip_periods == bool_attr_of(t, "strip-periods"@)
    &&& x.text_case == text_case_of(t)
    &&& x.formatting == formatting_of(t)
}

/// Reads a `<label>` element's attributes.
pub fn parse_label(t: &XmlTag) -> (r: LabelElement)
    ensures
        label_from_tag(r, tag_view(*t)),
{
    LabelElement {
        variable: attr(t, "variable"),
        form: attr(t, "form"),
        plural: attr(t, "plural"),
        prefix: attr(t, "prefix"),
        suffix: attr(t, "suffix"),
        strip_periods: bool_attr(t, "strip-periods"),
        text_case: text_case_from(as_opt_str(&attr(t, "text-case"))),
        formatting: parse_formatting(t),
    }
}

/// `c` is the condition set an `<if>` / `<else-if>` tag describes.
pub open spec fn conditions_from_tag(c: Conditions, t: TagV) -> bool {
    &&& c.match_kind == (if attr_of(t, "match"@) == Some("any"@) {
        MatchKind::Any
    } else if attr_of(t, "match"@) == Some("none"@) {
        MatchKind::NoneOf
    } else {
        MatchKind::All
    })
    &&& strs_view(c.variable@) == split_attr_of(t, "variable"@)
    &&& strs_view(c.item_type@) == split_attr_of(t, "type"@)
    &&& strs_view(c.is_numeric@) == split_attr_of(t, "is-numeric"@)
    &&& strs_view(c.is_uncertain_date@) == split_attr_of(t, "is-uncertain-date"@)
    &&& strs_view(c.locator@) == split_attr_of(t, "locator"@)
    &&& strs_view(c.position@) == split_attr_of(t, "position"@)
    &&& c.disambiguate == bool_attr_of(t, "disambiguate"@)
}

/// Reads an `<if>` / `<else-if>` tag's conditions.
pub fn parse_conditions(t: &XmlTag) -> (r: Conditions)
    ensures
        conditions_from_tag(r, tag_view(*t)),
{
    let match_kind = match attr(t, "match") {
        Some(m) => if chars_eq(chars_of(m.as_str()).as_slice(), chars_of("any").as_slice()) {
            MatchKind::Any
        } else if chars_eq(chars_of(m.as_str()).as_slice(), chars_of("none").as_slice()) {
            MatchKind::NoneOf
        } else {
            MatchKind::All
        },
        None => MatchKind::All,
    };
    Conditions {
        match_kind,
        variable: split_attr(t, "variable"),
        item_type: split_attr(t, "type"),
        is_numeric: split_attr(t, "is-numeric"),
        is_uncertain_date: split_attr(t, "is-uncertain-date"),
        locator: split_attr(t, "locator"),
        position: split_attr(t, "position"),
        disambiguate: bool_attr(t, "disambiguate"),
    }
}

/// `x`'s own attributes are those `t` describes (its children aside).
pub open spec fn names_attrs_from_tag(x: NamesElement, t: TagV) -> bool {
    &&& strs_view(x.variables@) == split_attr_of(t, "variable"@)
    &&& opt_view(x.delimiter) == attr_of(t, "delimiter"@)
    &&& opt_view(x.prefix) == attr_of(t, "prefix"@)
    &&& opt_view(x.suffix) == attr_of(t, "suffix"@)
    &&& x.formatting == formatting_of(t)
    &&& x.display == display_of(t)
}

/// A `<names>` tag's own attributes, with no children.
pub fn parse_names_from_attrs(t: &XmlTag) -> (r: NamesElement)
    ensures
        names_attrs_from_tag(r, tag_view(*t)),
        r.name is None,
        r.et_al is None,
        r.label is None,
        r.substitute@.len() == 0,
{
    NamesElement {
        variables: split_attr(t, "variable"),
        name: None,
        et_al: None,
        label: None,
        substitute: Vec::new(),
        delimiter: attr(t, "delimiter"),
        prefix: attr(t, "prefix"),
        suffix: attr(t, "suffix"),
        formatting: parse_formatting(t),
        display: display_from(as_opt_str(&attr(t, "display"))),
    }
}

/// `x`'s own attributes are those `t` describes (its name parts aside).
pub open spec fn name_attrs_from_tag(x: NameElement, t: TagV) -> bool {
    &&& x.form == lift(attr_of(t, "form"@), |v: Seq<char>| spec_name_form_from(v))
    &&& x.and == lift(attr_of(t, "and"@), |v: Seq<char>| spec_name_and_from(v))
    &&& opt_view(x.delimiter) == attr_of(t, "delimiter"@)
    &&& opt_view(x.delimiter_precedes_et_al) == attr_of(t, "delimiter-precedes-et-al"@)
    &&& opt_view(x.delimiter_precedes_last) == attr_of(t, "delimiter-precedes-last"@)
    &&& x.et_al_min == u32_attr_of(t, "et-al-min"@)
    &&& x.et_al_use_first == u32_attr_of(t, "et-al-use-first"@)
    &&& x.et_al_use_last == bool_attr_of(t, "et-al-use-last"@)
    &&& x.initialize == (attr_of(t, "initialize"@) != Some("false"@))
    &&& opt_view(x.initialize_with) == attr_of(t, "initialize-with"@)
    &&& x.initialize_with_hyphen == bool_attr_of(t, "initialize-with-hyphen"@)
    &&& x.name_as_sort_order == lift(attr_of(t, "name-as-sort-order"@), |v: Seq<char>| spec_name_as_sort_order_from(v))
    &&& opt_view(x.sort_separator) == attr_of(t, "sort-separator"@)
    &&& x.formatting == formatting_of(t)
}

/// A `<name>` tag's own attributes, with no name parts.
pub fn parse_name_from_attrs(t: &XmlTag) -> (r: NameElement)
    ensures
        name_attrs_from_tag(r, tag_view(*t)),
        r.name_parts@.len() == 0,
{
    let initialize = match attr(t, "initialize") {
        Some(v) => !chars_eq(chars_of(v.as_str()).as_slice(), chars_of("false").as_slice()),
        None => true,
    };
    NameElement {
        form: name_form_from(as_opt_str(&attr(t, "form"))),
        and: name_and_from(as_opt_str(&attr(t, "and"))),
        delimiter: attr(t, "delimiter"),
        delimiter_precedes_et_al: attr(t, "delimiter-precedes-et-al"),
        delimiter_precedes_last: attr(t, "delimiter-precedes-last"),
        et_al_min: u32_attr(t, "et-al-min"),
        et_al_use_first: u32_attr(t, "et-al-use-first"),
        et_al_use_last: bool_attr(t, "et-al-use-last"),
        initialize,
        initialize_with: attr(t, "initialize-with"),
        initialize_with_hyphen: bool_attr(t, "initialize-with-hyphen"),
        name_as_sort_order: name_as_sort_order_from(as_opt_str(&attr(t, "name-as-sort-order"))),
        sort_separator: attr(t, "sort-separator"),
        formatting: parse_formatting(t),
        name_parts: Vec::new(),
    }
}

/// `x` is the `<name-part>` `t` describes (it needs a `name`).
pub open spec fn name_part_from_tag(x: Option<NamePart>, t: TagV) -> bool {
    match attr_of(t, "name"@) {
        Some(n) => x matches Some(p) && p.name@ == n && p.formatting == formatting_of(t) && p.text_case
            == text_case_of(t),
        None => x is None,
    }
}

/// Reads a `<name-part>` tag.
pub fn parse_name_part(t: &XmlTag) -> (r: Option<NamePart>)
    ensures
        name_part_from_tag(r, tag_view(*t)),
{
    match attr(t, "name") {
        Some(name) => Some(
            NamePart {
                name,
                formatting: parse_formatting(t),
                text_case: text_case_from(as_opt_str(&attr(t, "text-case"))),
            },
        ),
        None => None,
    }
}

/// `x` is the `<et-al>` `t` describes.
pub open spec fn et_al_from_tag(x: EtAlElement, t: TagV) -> bool {
    opt_view(x.term) == attr_of(t, "term"@) && x.formatting == formatting_of(t)
}

/// Reads an `<et-al>` tag.
pub fn parse_et_al(t: &XmlTag) -> (r: EtAlElement)
    ensures
        et_al_from_tag(r, tag_view(*t)),
{
    EtAlElement { term: attr(t, "term"), formatting: parse_formatting(t) }
}

/// `x`'s own attributes are those `t` describes (its date parts aside).
pub open spec fn date_attrs_from_tag(x: DateElement, t: TagV) -> bool {
    &&& x.variable@ == attr_or_empty(t, "variable"@)
    &&& x.form == lift(attr_of(t, "form"@), |v: Seq<char>| spec_date_form_from(v))
    &&& x.date_parts_filter == lift(attr_of(t, "date-parts"@), |v: Seq<char>| spec_date_parts_filter_from(v))
    &&& opt_view(x.delimiter) == attr_of(t, "delimiter"@)
    &&& opt_view(x.prefix) == attr_of(t, "prefix"@)
    &&& opt_view(x.suffix) == attr_of(t, "suffix"@)
    &&& x.formatting == formatting_of(t)
    &&& x.display == display_of(t)
}

/// A `<date>` tag's own attributes, with no date parts.
pub fn parse_date_from_attrs(t: &XmlTag) -> (r: DateElement)
    ensures
        date_attrs_from_tag(r, tag_view(*t)),
        r.date_parts@.len() == 0,
{
    DateElement {
        variable: attr_or_default(t, "variable"),
        form: date_form_from(as_opt_str(&attr(t, "form"))),
        date_parts_filter: date_parts_filter_from(as_opt_str(&attr(t, "date-parts"))),
        date_parts: Vec::new(),
        delimiter: attr(t, "delimiter"),
        prefix: attr(t, "prefix"),
        suffix: attr(t, "suffix"),
        formatting: parse_formatting(t),
        display: display_from(as_opt_str(&attr(t, "display"))),
    }
}

/// The date-part name a tag names, if it is one of the three.
pub open spec fn date_part_name_of(t: TagV) -> Option<DatePartName> {
    if attr_of(t, "name"@) == Some("year"@) {
        Some(DatePartName::Year)
    } else if attr_of(t, "name"@) == Some("month"@) {
        Some(DatePartName::Month)
    } else if attr_of(t, "name"@) == Some("day"@) {
        Some(DatePartName::Day)
    } else {
        None
    }
}

/// `x` is the `<date-part>` `t` describes (it needs a known `name`).
pub open spec fn date_part_from_tag(x: Option<DatePart>, t: TagV) -> bool {
    match date_part_name_of(t) {
        Some(name) => x matches Some(p) && {
            &&& p.name == name
            &&& p.form == lift(attr_of(t, "form"@), |v: Seq<char>| spec_date_part_form(name, v))
            &&& opt_view(p.prefix) == attr_of(t, "prefix"@)
            &&& opt_view(p.suffix) == attr_of(t, "suffix"@)
            &&& opt_view(p.range_delimiter) == attr_of(t, "range-delimiter"@)
            &&& p.formatting == formatting_of(t)
            &&& p.text_case == text_case_of(t)
            &&& p.strip_periods == bool_attr_of(t, "strip-periods"@)
        },
        None => x is None,
    }
}

/// Reads a `<date-part>` tag.
pub fn parse_date_part(t: &XmlTag) -> (r: Option<DatePart>)
    ensures
        date_part_from_tag(r, tag_view(*t)),
{
    let name = match attr(t, "name") {
        Some(n) => {
            let nc = chars_of(n.as_str());
            if chars_eq(nc.as_slice(), chars_of("year").as_slice()) {
                DatePartName::Year
            } else if chars_eq(nc.as_slice(), chars_of("month").as_slice()) {
                DatePartName::Month
            } else if chars_eq(nc.as_slice(), chars_of("day").as_slice()) {
                DatePartName::Day
            } else {
                return None;
            }
        },
        None => return None,
    };
    Some(
        DatePart {
            name,
            form: date_part_form_from(name, as_opt_str(&attr(t, "form"))),
            prefix: attr(t, "prefix"),
            suffix: attr(t, "suffix"),
            range_delimiter: attr(t, "range-delimiter"),
            formatting: parse_formatting(t),
            text_case: text_case_from(as_opt_str(&attr(t, "text-case"))),
            strip_periods: bool_attr(t, "strip-periods"),
        },
    )
}

/// `x` is the sort `<key>` `t` describes (it needs a `variable` or a
/// `macro`).
pub open spec fn sort_key_from_tag(x: Option<SortKey>, t: TagV) -> bool {
    if attr_of(t, "variable"@) is None && attr_of(t, "macro"@) is None {
        x is None
    } else {
        x matches Some(k) && {
            &&& match k.source {
                SortSource::Variable(v) => attr_of(t, "variable"@) == Some(v@),
                SortSource::Macro(m) => attr_of(t, "variable"@) is None && attr_of(t, "macro"@) == Some(m@),
            }
            &&& k.sort_descending == (attr_of(t, "sort"@) == Some("descending"@))
            &&& k.names_min == u32_attr_of(t, "names-min"@)
            &&& k.names_use_first == u32_attr_of(t, "names-use-first"@)
            &&& k.names_use_last == bool_attr_of(t, "names-use-last"@)
        }
    }
}

/// Reads a sort `<key>` tag.
pub fn parse_sort_key(t: &XmlTag) -> (r: Option<SortKey>)
    ensures
        sort_key_from_tag(r, tag_view(*t)),
{
    let source = match attr(t, "variable") {
        Some(v) => SortSource::Variable(v),
        None => match attr(t, "macro") {
            Some(m) => SortSource::Macro(m),
            None => return None,
        },
    };
    let sort_descending = match attr(t, "sort") {
        Some(v) => chars_eq(chars_of(v.as_str()).as_slice(), chars_of("descending").as_slice()),
        None => false,
    };
    Some(
        SortKey {
            source,
            sort_descending,
            names_min: u32_attr(t, "names-min"),
            names_use_first: u32_attr(t, "names-use-first"),
            names_use_last: bool_attr(t, "names-use-last"),
        },
    )
}

/// The `<style-options>` a tag describes.
pub open spec fn style_options_of(t: TagV) -> StyleOptions {
    StyleOptions {
        punctuation_in_quote: bool_attr_of(t, "punctuation-in-quote"@),
        limit_day_ordinals_to_day_1: bool_attr_of(t, "limit-day-ordinals-to-day-1"@),
    }
}

/// Reads a `<style-options>` tag.
pub fn parse_style_options(t: &XmlTag) -> (r: StyleOptions)
    ensures
        r == style_options_of(tag_view(*t)),
{
    StyleOptions {
        punctuation_in_quote: bool_attr(t, "punctuation-in-quote"),
        limit_day_ordinals_to_day_1: bool_attr(t, "limit-day-ordinals-to-day-1"),
    }
}

} // verus!
