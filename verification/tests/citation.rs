//! The citation engine's entry points: the style and locale lookups
//! that precede rendering.

use apalabrar::citation::assets::{is_bundled_locale, is_bundled_style};
use apalabrar::citation::format::Html;
use apalabrar::citation::{render_bib, render_bib_with, render_inline, render_inline_with, CslItem, DateVar, Error, NameVar};

fn person(family: &str, given: &str) -> NameVar {
    NameVar {
        family: Some(family.into()),
        given: Some(given.into()),
        non_dropping_particle: None,
        dropping_particle: None,
        suffix: None,
        literal: None,
    }
}

fn year(y: i32) -> DateVar {
    DateVar { date_parts: vec![vec![y]], literal: None, circa: false }
}

fn journal_article_single_author() -> CslItem {
    CslItem {
        id: "smith2020".into(),
        item_type: "article-journal".into(),
        author: vec![person("Smith", "John")],
        editor: vec![],
        translator: vec![],
        title: Some("On the nature of typesetting".into()),
        container_title: Some("Journal of Typography".into()),
        container_title_short: Some("J. Typogr.".into()),
        publisher: None,
        publisher_place: None,
        issued: Some(year(2020)),
        volume: Some("12".into()),
        issue: Some("3".into()),
        page: Some("123-145".into()),
        doi: Some("10.1000/typo.2020.12345".into()),
        url: None,
        isbn: None,
        edition: None,
        abstract_: None,
        extra: Vec::new(),
    }
}

#[test]
fn render_bib_unknown_style_returns_unknown_style_error() {
    let err = render_bib(&[journal_article_single_author()], "made-up-style").unwrap_err();
    assert_eq!(err, Error::UnknownStyle("made-up-style".into()));
}

#[test]
fn render_bib_with_unknown_locale_returns_unknown_locale_error() {
    let err = render_bib_with(&[journal_article_single_author()], "apa", "xx-XX", &Html).unwrap_err();
    assert_eq!(err, Error::UnknownLocale("xx-XX".into()));
}

#[test]
fn render_inline_unknown_style_is_refused_before_the_locale() {
    let item = journal_article_single_author();
    assert_eq!(render_inline(&item, "nope").unwrap_err(), Error::UnknownStyle("nope".into()));
    assert_eq!(
        render_inline_with(&item, "nope", "xx-XX", &Html).unwrap_err(),
        Error::UnknownStyle("nope".into())
    );
    assert_eq!(
        render_inline_with(&item, "plos", "xx-XX", &Html).unwrap_err(),
        Error::UnknownLocale("xx-XX".into())
    );
}

#[test]
fn bundled_lookups_accept_exactly_the_listed_ids() {
    assert!(is_bundled_style("chicago-notes-bibliography"));
    assert!(!is_bundled_style("APA"));
    assert!(is_bundled_locale("ru-RU"));
    assert!(!is_bundled_locale("en"));
}
