//! Token IR: emptiness, text-case and period-stripping over leaves.

use apalabrar::citation::ast::{FontStyle, Formatting, TextCase};
use apalabrar::citation::ir::{transform_case, Token};

fn t(s: &str) -> Token {
    Token::Text {
        text: s.into(),
        formatting: Formatting::default(),
    }
}

#[test]
fn text_token_is_empty_when_text_is_empty() {
    assert!(t("").is_empty());
    assert!(!t("x").is_empty());
}

#[test]
fn group_is_empty_when_all_children_empty() {
    let g = Token::Group {
        children: vec![t(""), t("")],
        delimiter: Some(", ".into()),
        prefix: None,
        suffix: None,
        formatting: Formatting::default(),
        fail_if_empty: true,
    };
    assert!(g.is_empty());
}

#[test]
fn group_is_not_empty_when_one_child_has_text() {
    let g = Token::Group {
        children: vec![t(""), t("x")],
        delimiter: None,
        prefix: None,
        suffix: None,
        formatting: Formatting::default(),
        fail_if_empty: true,
    };
    assert!(!g.is_empty());
}

#[test]
fn link_is_empty_when_label_is_empty() {
    let l = Token::Link {
        label: String::new(),
        href: "http://x".into(),
        formatting: Formatting::default(),
    };
    assert!(l.is_empty());
}

#[test]
fn apply_text_case_uppercase_transforms_leaves() {
    let mut tok = t("hello world");
    tok.apply_text_case(TextCase::Uppercase);
    let Token::Text { text, .. } = &tok else {
        panic!()
    };
    assert_eq!(text, "HELLO WORLD");
}

#[test]
fn apply_text_case_capitalize_each_word() {
    let mut tok = t("hello world foo");
    tok.apply_text_case(TextCase::Capitalize);
    let Token::Text { text, .. } = &tok else {
        panic!()
    };
    assert_eq!(text, "Hello World Foo");
}

#[test]
fn apply_text_case_capitalize_first_only() {
    let mut tok = t("hello world");
    tok.apply_text_case(TextCase::CapitalizeFirst);
    let Token::Text { text, .. } = &tok else {
        panic!()
    };
    assert_eq!(text, "Hello world");
}

#[test]
fn apply_text_case_sentence() {
    let mut tok = t("HELLO WORLD");
    tok.apply_text_case(TextCase::Sentence);
    let Token::Text { text, .. } = &tok else {
        panic!()
    };
    assert_eq!(text, "Hello world");
}

#[test]
fn strip_periods_removes_all_dots_in_leaves() {
    let mut tok = t("U.K. of G.B.");
    tok.strip_periods();
    let Token::Text { text, .. } = &tok else {
        panic!()
    };
    assert_eq!(text, "UK of GB");
}

#[test]
fn pipeline_order_text_case_then_strip_periods_preserves_acronyms() {
    // Pipeline order: text-case BEFORE strip-periods.
    // "U.K." with title-case → "U.K." (no change, all caps already
    // capitalized) → strip → "UK". Doing it the other way ("UK"
    // → titlecase → "Uk") would lose the acronym.
    let mut tok = t("U.K.");
    tok.apply_text_case(TextCase::Capitalize);
    tok.strip_periods();
    let Token::Text { text, .. } = &tok else {
        panic!()
    };
    assert_eq!(text, "UK");
}

#[test]
fn apply_text_case_recurses_into_groups_preserving_formatting() {
    let italic = Formatting {
        font_style: Some(FontStyle::Italic),
        ..Formatting::default()
    };
    let mut g = Token::Group {
        children: vec![Token::Text {
            text: "hello".into(),
            formatting: italic,
        }],
        delimiter: None,
        prefix: None,
        suffix: None,
        formatting: Formatting::default(),
        fail_if_empty: false,
    };
    g.apply_text_case(TextCase::Uppercase);
    let Token::Group { children, .. } = &g else {
        panic!()
    };
    let Token::Text { text, formatting } = &children[0] else {
        panic!()
    };
    assert_eq!(text, "HELLO");
    // Italic preserved through case transform.
    assert_eq!(formatting.font_style, Some(FontStyle::Italic));
}

#[test]
fn title_case_capitalises_the_word_after_a_colon() {
    assert_eq!(transform_case("war: a history", TextCase::Title), "War: A History");
}

#[test]
fn title_case_treats_hyphens_as_word_boundaries() {
    assert_eq!(transform_case("self-made man", TextCase::Title), "Self-Made Man");
    assert_eq!(transform_case("state-of-the-art design", TextCase::Title), "State-of-the-Art Design");
}

#[test]
fn title_case_keeps_mid_title_stop_words_lowercase() {
    assert_eq!(transform_case("the lord OF the rings", TextCase::Title), "The Lord of the Rings");
}
