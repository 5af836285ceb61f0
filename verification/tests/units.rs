//! Unit checks of the crate's small public pieces.

use apalabrar::citation::format::{Html, OutputFormat, Plain};
use apalabrar::doc_model::{state_to_str, str_to_state, SuggestionState};
use apalabrar::editor_core::find::is_word_boundary;
use apalabrar::editor_core::{check_format_supported, check_open_input, decode_utf8, DocFormat, Error};

#[test]
fn loadable() {
    assert_eq!(apalabrar::doc_model::VERSION, "0.0.0");
    assert_eq!(apalabrar::ai_bridge::VERSION, "0.0.0");
}

#[test]
fn lib_loadable() {
    assert_eq!(apalabrar::citation::VERSION, "0.0.0");
}

#[test]
fn str_to_state_decodes_all_three_kinds() {
    assert_eq!(str_to_state("pending"), SuggestionState::Pending);
    assert_eq!(str_to_state("accepted"), SuggestionState::Accepted);
    assert_eq!(str_to_state("rejected"), SuggestionState::Rejected);
    assert_eq!(str_to_state("garbage"), SuggestionState::Pending);
}

#[test]
fn state_to_str_round_trips_all_three_kinds() {
    assert_eq!(str_to_state(state_to_str(SuggestionState::Pending)), SuggestionState::Pending);
    assert_eq!(str_to_state(state_to_str(SuggestionState::Accepted)), SuggestionState::Accepted);
    assert_eq!(str_to_state(state_to_str(SuggestionState::Rejected)), SuggestionState::Rejected);
}

#[test]
fn html_format_italic_wraps_in_i_tag() {
    let html = Html;
    assert_eq!(html.italic("foo"), "<i>foo</i>");
}

#[test]
fn html_format_escape_handles_html_special_chars() {
    let html = Html;
    let escaped = html.escape("a < b & c > d");
    assert!(escaped.contains("&lt;"));
    assert!(escaped.contains("&gt;"));
    assert!(escaped.contains("&amp;"));
}

#[test]
fn plain_format_italic_passes_through_unchanged() {
    let plain = Plain;
    assert_eq!(plain.italic("foo"), "foo");
}

#[test]
fn boundary_at_start_of_text_is_true() {
    assert!(is_word_boundary("hello", 0));
}

#[test]
fn boundary_at_end_of_text_is_true() {
    assert!(is_word_boundary("hello", 5));
}

#[test]
fn boundary_inside_a_word_is_false() {
    assert!(!is_word_boundary("hello", 2));
}

#[test]
fn boundary_between_letter_and_space_is_true() {
    assert!(is_word_boundary("he o", 2));
}

#[test]
fn boundary_between_unicode_letter_n_tilde_and_letter_is_false() {
    assert!(!is_word_boundary("señor", 2));
}

#[test]
fn decode_utf8_reads_well_formed_text() {
    let s = decode_utf8("héllo — ok".as_bytes(), DocFormat::Markdown).unwrap();
    assert_eq!(s, "héllo — ok");
}

#[test]
fn decode_utf8_refuses_malformed_bytes_with_the_decoder_reason() {
    let bytes = [0x61u8, 0xff, 0x62];
    match decode_utf8(&bytes, DocFormat::Html) {
        Err(Error::InvalidInput { format, reason }) => {
            assert_eq!(format, DocFormat::Html);
            assert_eq!(reason, std::str::from_utf8(&bytes).unwrap_err().to_string());
        }
        other => panic!("expected InvalidInput, got {other:?}"),
    }
}

#[test]
fn check_open_input_refuses_empty_then_deferred_formats() {
    assert!(matches!(check_open_input(&[], DocFormat::Rtf), Err(Error::EmptyInput)));
    assert!(matches!(check_open_input(b"x", DocFormat::Odt), Err(Error::FormatNotSupported { format: DocFormat::Odt })));
    assert!(matches!(check_open_input(b"x", DocFormat::Rtf), Err(Error::FormatNotSupported { format: DocFormat::Rtf })));
    assert!(check_open_input(b"x", DocFormat::Markdown).is_ok());
    assert!(check_open_input(b"x", DocFormat::Docx).is_ok());
}

#[test]
fn check_format_supported_only_defers_rtf_and_odt() {
    assert!(check_format_supported(DocFormat::Html).is_ok());
    assert!(check_format_supported(DocFormat::Docx).is_ok());
    assert!(check_format_supported(DocFormat::Rtf).is_err());
}

#[test]
fn version_is_pinned_to_workspace_zero_zero_zero() {
    assert_eq!(apalabrar::editor_core::VERSION, "0.0.0");
}

#[test]
fn text_format_round_trip_gives_the_text_back() {
    for s in ["", "plain", "¡Hola, mundó!", "数学 ∑ 🙂", "line\nbreak"] {
        assert_eq!(decode_utf8(s.as_bytes(), DocFormat::Markdown).unwrap(), s);
    }
}
