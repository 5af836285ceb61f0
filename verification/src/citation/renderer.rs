//! The CSL renderer (Style AST + reference → IR), and its helpers: name
//! formatting and initials, date-part rendering, term lookup results,
//! and the affix / inline-pipeline wrappers that turn resolved text into
//! IR tokens.

use vstd::prelude::*;

pub use crate::citation::render::{
    render_element, render_elements, render_layout, resolve_term, resolve_variable, RenderContext,
};
pub use crate::citation::render_spec::MAX_MACRO_DEPTH;

use crate::citation::ast::{Citation, DatePart, DatePartForm, DatePartName, DatePartsFilter, Formatting, NameElement, NameForm, NamesElement, TermBody, TermForm, TextCase};
use crate::citation::ir::{opt_view, spec_transform_case, transform_case, Token};
use crate::citation::parser::{spec_term_form, term_form_from};
use crate::citation::NameVar;
use crate::text::{char_uppercase, chars_of, int_decimal_string, opt_chars, push_all, replace_all, seq_replace, spec_int_decimal, spec_trim, split_whitespace, split_words, string_from_chars, trim, trim_end_char, trim_end, uppercase_of};

verus! {

/// The `et-al-min` / `et-al-use-first` thresholds: the `<name>`
/// element's own, falling back to the `<citation>`'s.
pub open spec fn spec_et_al_thresholds(name: Option<NameElement>, citation: Citation) -> (
    Option<u32>,
    Option<u32>,
) {
    let min = match name {
        Some(n) if n.et_al_min is Some => n.et_al_min,
        _ => citation.et_al_min,
    };
    let first = match name {
        Some(n) if n.et_al_use_first is Some => n.et_al_use_first,
        _ => citation.et_al_use_first,
    };
    (min, first)
}

/// Resolves the et-al thresholds for a `<names>` element.
pub fn et_al_thresholds(name: Option<&NameElement>, _names_fmt: Formatting, citation: &Citation) -> (r: (
    Option<u32>,
    Option<u32>,
))
    ensures
        r == spec_et_al_thresholds(
            match name {
                Some(n) => Some(*n),
                None => None,
            },
            *citation,
        ),
{
    let from_name = match name {
        Some(n) if n.et_al_min.is_some() => n.et_al_min,
        _ => citation.et_al_min,
    };
    let from_use_first = match name {
        Some(n) if n.et_al_use_first.is_some() => n.et_al_use_first,
        _ => citation.et_al_use_first,
    };
    (from_name, from_use_first)
}

/// Initials of the words of a given name: each word's first character
/// uppercased and followed by `with`.
pub open spec fn spec_initials(words: Seq<Seq<char>>, with: Seq<char>) -> Seq<char>
    decreases words.len(),
{
    if words.len() == 0 {
        Seq::empty()
    } else {
        spec_initials(words.drop_last(), with) + (if words.last().len() > 0 {
            char_uppercase(words.last()[0]) + with
        } else {
            Seq::empty()
        })
    }
}

/// Initialised given name, trailing spaces removed: "John Quincy" with
/// ". " gives "J. Q.".
pub open spec fn spec_initialize_given_name(given: Seq<char>, with: Seq<char>) -> Seq<char> {
    trim_end_char(spec_initials(split_whitespace(given), with), ' ')
}

/// Converts a given name into initials separated by `with`.
pub fn initialize_given_name(given: &str, with: &str) -> (r: String)
    ensures
        r@ == spec_initialize_given_name(given@, with@),
{
    let words = split_words(chars_of(given).as_slice());
    let ghost ws = split_whitespace(given@);
    let w = chars_of(with);
    let mut out: Vec<char> = Vec::new();
    let mut i: usize = 0;
    while i < words.len()
        invariant
            i <= words@.len(),
            words@.len() == ws.len(),
            forall|k: int| 0 <= k < words@.len() ==> (#[trigger] words@[k])@ == ws[k],
            w@ == with@,
            out@ == spec_initials(ws.subrange(0, i as int), with@),
        decreases words@.len() - i,
    {
        let word = &words[i];
        if word.len() > 0 {
            let up = uppercase_of(word[0]);
            push_all(&mut out, up.as_slice());
            push_all(&mut out, w.as_slice());
        }
        assert(ws.subrange(0, i + 1).drop_last() =~= ws.subrange(0, i as int));
        i += 1;
    }
    assert(ws.subrange(0, ws.len() as int) =~= ws);
    string_from_chars(trim_end(out.as_slice(), ' ').as_slice())
}

/// The view of an optional string field, empty when absent.
pub open spec fn field(o: Option<String>) -> Seq<char> {
    opt_view(o)
}

/// The given name as written: initialised with `initialize-with` when
/// a `<name>` element sets a non-empty one, otherwise in full.
pub open spec fn spec_given_out(name: Option<NameElement>, n: NameVar) -> Seq<char> {
    let given_full = field(n.given);
    match name {
        Some(nm) if field(nm.initialize_with).len() > 0 => spec_initialize_given_name(
            given_full,
            field(nm.initialize_with),
        ),
        _ => given_full,
    }
}

/// The separator between family and given name in sort order.
pub open spec fn spec_sort_separator(name: Option<NameElement>) -> Seq<char> {
    match name {
        Some(nm) if nm.sort_separator is Some => field(nm.sort_separator),
        _ => ", "@,
    }
}

/// `w` followed by a space, or nothing when `w` is empty.
pub open spec fn spaced(w: Seq<char>) -> Seq<char> {
    if w.len() > 0 { w + " "@ } else { Seq::empty() }
}

/// A personal name in sort order ("particle family, given") or display
/// order ("given particle family").
pub open spec fn spec_name_body(name: Option<NameElement>, n: NameVar) -> Seq<char> {
    let family = field(n.family);
    let particle = spec_trim(field(n.non_dropping_particle));
    let given_out = spec_given_out(name, n);
    let sort_order = match name {
        Some(nm) => nm.name_as_sort_order,
        None => None,
    };
    match sort_order {
        Some(_) => spaced(particle) + family + (if given_out.len() > 0 {
            spec_sort_separator(name) + given_out
        } else {
            Seq::empty()
        }),
        None => spaced(given_out) + spaced(particle) + family,
    }
}

/// `name` asks for the short form.
pub open spec fn is_short_form(name: Option<NameElement>) -> bool {
    name matches Some(nm) && nm.form == Some(NameForm::Short)
}

/// How one name is written: the literal of an institution; the family
/// name (after a non-dropping particle) for `form="short"`; otherwise
/// given (possibly initialised) and family in display or sort order,
/// then `, suffix`.
pub open spec fn spec_format_one_name(name: Option<NameElement>, n: NameVar) -> Seq<char> {
    match n.literal {
        Some(l) => l@,
        None => if is_short_form(name) {
            spaced(spec_trim(field(n.non_dropping_particle))) + field(n.family)
        } else {
            spec_name_body(name, n) + match n.suffix {
                Some(sfx) => ", "@ + sfx@,
                None => Seq::empty(),
            }
        },
    }
}

fn push_spaced(out: &mut Vec<char>, w: &Vec<char>)
    ensures
        final(out)@ == old(out)@ + spaced(w@),
{
    proof {
        reveal_strlit(" ");
    }
    if w.len() > 0 {
        push_all(out, w.as_slice());
        out.push(' ');
    }
}

fn given_out(name: Option<&NameElement>, n: &NameVar) -> (r: Vec<char>)
    ensures
        r@ == spec_given_out(
            match name {
                Some(nm) => Some(*nm),
                None => None,
            },
            *n,
        ),
{
    let given_full = opt_chars(&n.given);
    match name {
        Some(nm) => {
            let w = opt_chars(&nm.initialize_with);
            if w.len() > 0 {
                let g = string_from_chars(given_full.as_slice());
                let ws = string_from_chars(w.as_slice());
                chars_of(initialize_given_name(g.as_str(), ws.as_str()).as_str())
            } else {
                given_full
            }
        },
        None => given_full,
    }
}

fn name_body(name: Option<&NameElement>, n: &NameVar) -> (r: Vec<char>)
    ensures
        r@ == spec_name_body(
            match name {
                Some(nm) => Some(*nm),
                None => None,
            },
            *n,
        ),
{
    let family = opt_chars(&n.family);
    let particle = trim(opt_chars(&n.non_dropping_particle).as_slice());
    let given = given_out(name, n);
    let sort_order = match name {
        Some(nm) => nm.name_as_sort_order,
        None => None,
    };
    let mut out: Vec<char> = Vec::new();
    match sort_order {
        Some(_) => {
            push_spaced(&mut out, &particle);
            push_all(&mut out, family.as_slice());
            if given.len() > 0 {
                let sep: Vec<char> = match name {
                    Some(nm) => match &nm.sort_separator {
                        Some(sep) => chars_of(sep.as_str()),
                        None => chars_of(", "),
                    },
                    None => chars_of(", "),
                };
                push_all(&mut out, sep.as_slice());
                push_all(&mut out, given.as_slice());
            }
        },
        None => {
            push_spaced(&mut out, &given);
            push_spaced(&mut out, &particle);
            push_all(&mut out, family.as_slice());
        },
    }
    out
}

/// Formats one name per the `<name>` element (see
/// [`spec_format_one_name`]).
pub fn format_one_name(name: Option<&NameElement>, n: &NameVar) -> (r: String)
    ensures
        r@ == spec_format_one_name(
            match name {
                Some(nm) => Some(*nm),
                None => None,
            },
            *n,
        ),
{
    if let Some(literal) = &n.literal {
        return literal.clone();
    }
    let is_short = match name {
        Some(nm) => match nm.form {
            Some(NameForm::Short) => true,
            _ => false,
        },
        None => false,
    };
    if is_short {
        let particle = trim(opt_chars(&n.non_dropping_particle).as_slice());
        let mut out: Vec<char> = Vec::new();
        push_spaced(&mut out, &particle);
        push_all(&mut out, opt_chars(&n.family).as_slice());
        return string_from_chars(out.as_slice());
    }
    let mut out = name_body(name, n);
    if let Some(suffix) = &n.suffix {
        push_all(&mut out, chars_of(", ").as_slice());
        push_all(&mut out, chars_of(suffix.as_str()).as_slice());
    }
    string_from_chars(out.as_slice())
}

/// The English name of month `m` (1–12), empty otherwise.
pub open spec fn spec_month_long(m: int) -> Seq<char> {
    if m == 1 { "January"@ } else if m == 2 { "February"@ } else if m == 3 { "March"@ }
    else if m == 4 { "April"@ } else if m == 5 { "May"@ } else if m == 6 { "June"@ }
    else if m == 7 { "July"@ } else if m == 8 { "August"@ } else if m == 9 { "September"@ }
    else if m == 10 { "October"@ } else if m == 11 { "November"@ } else if m == 12 { "December"@ }
    else { Seq::empty() }
}

/// The abbreviated English name of month `m` (1–12), empty otherwise.
pub open spec fn spec_month_short(m: int) -> Seq<char> {
    if m == 1 { "Jan."@ } else if m == 2 { "Feb."@ } else if m == 3 { "Mar."@ }
    else if m == 4 { "Apr."@ } else if m == 5 { "May"@ } else if m == 6 { "Jun."@ }
    else if m == 7 { "Jul."@ } else if m == 8 { "Aug."@ } else if m == 9 { "Sep."@ }
    else if m == 10 { "Oct."@ } else if m == 11 { "Nov."@ } else if m == 12 { "Dec."@ }
    else { Seq::empty() }
}

/// The English name of month `m`, or the empty string.
pub fn english_month_long(m: i32) -> (r: String)
    ensures
        r@ == spec_month_long(m as int),
{
    let s: &str = if m == 1 { "January" } else if m == 2 { "February" } else if m == 3 { "March" }
    else if m == 4 { "April" } else if m == 5 { "May" } else if m == 6 { "June" }
    else if m == 7 { "July" } else if m == 8 { "August" } else if m == 9 { "September" }
    else if m == 10 { "October" } else if m == 11 { "November" } else if m == 12 { "December" }
    else { "" };
    proof {
        reveal_strlit("");
    }
    s.to_owned()
}

/// The abbreviated English name of month `m`, or the empty string.
pub fn english_month_short(m: i32) -> (r: String)
    ensures
        r@ == spec_month_short(m as int),
{
    let s: &str = if m == 1 { "Jan." } else if m == 2 { "Feb." } else if m == 3 { "Mar." }
    else if m == 4 { "Apr." } else if m == 5 { "May" } else if m == 6 { "Jun." }
    else if m == 7 { "Jul." } else if m == 8 { "Aug." } else if m == 9 { "Sep." }
    else if m == 10 { "Oct." } else if m == 11 { "Nov." } else if m == 12 { "Dec." }
    else { "" };
    proof {
        reveal_strlit("");
    }
    s.to_owned()
}

/// The English ordinal suffix of `n`: "th" when `|n| % 100` is 11–13,
/// otherwise "st" / "nd" / "rd" / "th" by the last digit.
pub open spec fn spec_ordinal_suffix(n: int) -> Seq<char> {
    let m = (if n < 0 { -n } else { n }) % 100;
    if 11 <= m && m <= 13 {
        "th"@
    } else if m % 10 == 1 {
        "st"@
    } else if m % 10 == 2 {
        "nd"@
    } else if m % 10 == 3 {
        "rd"@
    } else {
        "th"@
    }
}

/// The English ordinal suffix for `n`.
pub fn english_ordinal_suffix(n: i32) -> (r: &'static str)
    ensures
        r@ == spec_ordinal_suffix(n as int),
{
    let a: u32 = if n < 0 {
        if n == i32::MIN {
            2147483648u32
        } else {
            (-n) as u32
        }
    } else {
        n as u32
    };
    let m = a % 100;
    if 11 <= m && m <= 13 {
        return "th";
    }
    if m % 10 == 1 {
        "st"
    } else if m % 10 == 2 {
        "nd"
    } else if m % 10 == 3 {
        "rd"
    } else {
        "th"
    }
}

/// The text of a term body: the flat text, or the plural / singular
/// form as asked.
pub open spec fn spec_term_body_to_string(body: TermBody, plural: bool) -> Seq<char> {
    match body {
        TermBody::Flat(s) => s@,
        TermBody::Plural { single, multiple } => if plural {
            multiple@
        } else {
            single@
        },
    }
}

/// The text of a term body for the given plurality.
pub fn term_body_to_string(body: &TermBody, plural: bool) -> (r: String)
    ensures
        r@ == spec_term_body_to_string(*body, plural),
{
    match body {
        TermBody::Flat(s) => s.clone(),
        TermBody::Plural { single, multiple } => if plural {
            multiple.clone()
        } else {
            single.clone()
        },
    }
}

/// The term form named by a `form` attribute, long by default.
pub fn parse_term_form(form: Option<&str>) -> (r: TermForm)
    ensures
        r == spec_term_form(match form {
            Some(v) => Some(v@),
            None => None,
        }),
{
    term_form_from(form)
}

/// The inline pipeline on resolved text: text-case, then period
/// stripping, then curly double quotes.
pub open spec fn spec_inline_pipeline(
    s: Seq<char>,
    text_case: Option<TextCase>,
    strip_periods: bool,
    quotes: bool,
) -> Seq<char> {
    let a = match text_case {
        Some(case) => spec_transform_case(s, case),
        None => s,
    };
    let b = if strip_periods { seq_replace(a, seq!['.'], Seq::empty()) } else { a };
    if quotes { seq!['\u{201C}'] + b + seq!['\u{201D}'] } else { b }
}

/// Applies text-case, strip-periods and quotes, in that order.
pub fn apply_inline_pipeline(
    s: &mut String,
    text_case: Option<TextCase>,
    strip_periods: bool,
    quotes: bool,
)
    ensures
        final(s)@ == spec_inline_pipeline(old(s)@, text_case, strip_periods, quotes),
{
    let ghost s0 = s@;
    if let Some(case) = text_case {
        *s = transform_case(s.as_str(), case);
    }
    let ghost s1 = s@;
    assert(s1 == match text_case {
        Some(case) => spec_transform_case(s0, case),
        None => s0,
    });
    if strip_periods {
        let cs = chars_of(s.as_str());
        let mut pat: Vec<char> = Vec::new();
        pat.push('.');
        assert(pat@ =~= seq!['.']);
        let rep: Vec<char> = Vec::new();
        *s = string_from_chars(replace_all(cs.as_slice(), pat.as_slice(), rep.as_slice()).as_slice());
    }
    let ghost s2 = s@;
    assert(s2 == (if strip_periods { seq_replace(s1, seq!['.'], Seq::empty()) } else { s1 }));
    if quotes {
        let mut out: Vec<char> = Vec::new();
        out.push('\u{201C}');
        push_all(&mut out, chars_of(s.as_str()).as_slice());
        out.push('\u{201D}');
        assert(out@ =~= seq!['\u{201C}'] + s2 + seq!['\u{201D}']);
        *s = string_from_chars(out.as_slice());
    }
}

/// The tokens of `inner` with affixes: `inner` alone without affixes,
/// otherwise a fail-if-empty group around it.
pub open spec fn affixes_wrap(inner: Token, prefix: Option<Seq<char>>, suffix: Option<Seq<char>>, r: Seq<Token>) -> bool {
    if prefix is None && suffix is None {
        r == seq![inner]
    } else {
        &&& r.len() == 1
        &&& r[0] matches Token::Group { children, delimiter, prefix: p, suffix: s, formatting, fail_if_empty }
        &&& children@ == seq![inner]
        &&& delimiter is None
        &&& formatting.is_plain()
        &&& fail_if_empty
        &&& (match p { Some(v) => prefix == Some(v@), None => prefix is None })
        &&& (match s { Some(v) => suffix == Some(v@), None => suffix is None })
    }
}

fn opt_string(o: Option<&str>) -> (r: Option<String>)
    ensures
        match o {
            Some(v) => r matches Some(x) && x@ == v@,
            None => r is None,
        },
{
    match o {
        Some(v) => Some(v.to_owned()),
        None => None,
    }
}

/// Wraps a token in prefix / suffix when either is present.
pub fn wrap_with_affixes(inner: Token, prefix: Option<&str>, suffix: Option<&str>) -> (r: Vec<Token>)
    ensures
        affixes_wrap(
            inner,
            match prefix { Some(v) => Some(v@), None => None },
            match suffix { Some(v) => Some(v@), None => None },
            r@,
        ),
{
    if prefix.is_none() && suffix.is_none() {
        let mut v: Vec<Token> = Vec::new();
        v.push(inner);
        return v;
    }
    let mut children: Vec<Token> = Vec::new();
    children.push(inner);
    let mut v: Vec<Token> = Vec::new();
    v.push(Token::Group {
        children,
        delimiter: None,
        prefix: opt_string(prefix),
        suffix: opt_string(suffix),
        formatting: Formatting::plain(),
        fail_if_empty: true,
    });
    v
}


/// Whether a date part is shown under the `date-parts` filter (default:
/// year-month-day) given how many parts the date has.
pub open spec fn spec_date_part_allowed(name: DatePartName, filter: DatePartsFilter, n: int) -> bool {
    match name {
        DatePartName::Year => true,
        DatePartName::Month => filter != DatePartsFilter::Year && n >= 2,
        DatePartName::Day => filter == DatePartsFilter::YearMonthDay && n >= 3,
    }
}

/// The value of a date part (0 when missing).
pub open spec fn spec_date_part_value(name: DatePartName, parts: Seq<i32>) -> int {
    let k: int = match name {
        DatePartName::Year => 0,
        DatePartName::Month => 1,
        DatePartName::Day => 2,
    };
    if k < parts.len() { parts[k] as int } else { 0 }
}

/// The text of a date part without affixes.
pub open spec fn spec_date_part_body(name: DatePartName, form: DatePartForm, v: int) -> Seq<char> {
    match name {
        DatePartName::Year => spec_int_decimal(v),
        DatePartName::Month => match form {
            DatePartForm::Long => spec_month_long(v),
            DatePartForm::Short => spec_month_short(v),
            _ => spec_int_decimal(v),
        },
        DatePartName::Day => match form {
            DatePartForm::Ordinal => spec_int_decimal(v) + spec_ordinal_suffix(v),
            _ => spec_int_decimal(v),
        },
    }
}

/// A rendered date part: `None` when filtered out or zero, otherwise
/// prefix + body + suffix.
pub open spec fn spec_render_date_part(
    part: DatePart,
    parts: Seq<i32>,
    filter: Option<DatePartsFilter>,
) -> Option<Seq<char>> {
    let f = match filter {
        Some(x) => x,
        None => DatePartsFilter::YearMonthDay,
    };
    let v = spec_date_part_value(part.name, parts);
    let form = match part.form {
        Some(x) => x,
        None => DatePartForm::Numeric,
    };
    if !spec_date_part_allowed(part.name, f, parts.len() as int) || v == 0 {
        None
    } else {
        Some(field(part.prefix) + spec_date_part_body(part.name, form, v) + field(part.suffix))
    }
}

/// Renders one date part of a `[year, month, day]` date.
pub fn render_date_part(part: &DatePart, parts: &[i32], filter: &Option<DatePartsFilter>) -> (r:
    Option<String>)
    ensures
        match r {
            Some(x) => spec_render_date_part(*part, parts@, *filter) == Some(x@),
            None => spec_render_date_part(*part, parts@, *filter) is None,
        },
{
    let f = match filter {
        Some(x) => *x,
        None => DatePartsFilter::YearMonthDay,
    };
    let allowed = match part.name {
        DatePartName::Year => true,
        DatePartName::Month => match f {
            DatePartsFilter::Year => false,
            _ => parts.len() >= 2,
        },
        DatePartName::Day => match f {
            DatePartsFilter::YearMonthDay => parts.len() >= 3,
            _ => false,
        },
    };
    if !allowed {
        return None;
    }
    let k: usize = match part.name {
        DatePartName::Year => 0,
        DatePartName::Month => 1,
        DatePartName::Day => 2,
    };
    let value: i32 = if k < parts.len() { parts[k] } else { 0 };
    if value == 0 {
        return None;
    }
    let form = match part.form {
        Some(x) => x,
        None => DatePartForm::Numeric,
    };
    let body: String = match part.name {
        DatePartName::Year => int_decimal_string(value as i64),
        DatePartName::Month => match form {
            DatePartForm::Long => english_month_long(value),
            DatePartForm::Short => english_month_short(value),
            _ => int_decimal_string(value as i64),
        },
        DatePartName::Day => match form {
            DatePartForm::Ordinal => {
                let mut cs = chars_of(int_decimal_string(value as i64).as_str());
                push_all(&mut cs, chars_of(english_ordinal_suffix(value)).as_slice());
                string_from_chars(cs.as_slice())
            },
            _ => int_decimal_string(value as i64),
        },
    };
    let mut out = opt_chars(&part.prefix);
    push_all(&mut out, chars_of(body.as_str()).as_slice());
    push_all(&mut out, opt_chars(&part.suffix).as_slice());
    Some(string_from_chars(out.as_slice()))
}

/// `r` is `inner` wrapped for a `<names>` element: unchanged without
/// prefix, suffix and delimiter, otherwise one fail-if-empty group
/// carrying them.
pub open spec fn names_wrapped(names: NamesElement, inner: Seq<Token>, r: Seq<Token>) -> bool {
    if names.prefix is None && names.suffix is None && names.delimiter is None {
        r == inner
    } else {
        &&& r.len() == 1
        &&& r[0] matches Token::Group { children, delimiter, prefix, suffix, formatting, fail_if_empty }
        &&& children@ == inner
        &&& delimiter == names.delimiter
        &&& prefix == names.prefix
        &&& suffix == names.suffix
        &&& formatting.is_plain()
        &&& fail_if_empty
    }
}

/// Wraps rendered names in the `<names>` element's affixes and delimiter.
pub fn wrap_names_affixes(names: &NamesElement, inner: Vec<Token>) -> (r: Vec<Token>)
    ensures
        names_wrapped(*names, inner@, r@),
{
    if names.prefix.is_none() && names.suffix.is_none() && names.delimiter.is_none() {
        return inner;
    }
    let mut v: Vec<Token> = Vec::new();
    v.push(Token::Group {
        children: inner,
        delimiter: names.delimiter.clone(),
        prefix: names.prefix.clone(),
        suffix: names.suffix.clone(),
        formatting: Formatting::plain(),
        fail_if_empty: true,
    });
    v
}

} // verus!
