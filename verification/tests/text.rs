use ccs_proxy::preview::{
    body_preview, format_error_chain, preview_text, websocket_error_body_preview,
};
use ccs_proxy::text::{
    concatenate, eq_ignore_ascii_case, join, parse_number, same_bytes, same_text, split_text, trim,
    write_decimal, Separator,
};

#[test]
fn short_bodies_are_shown_on_one_line() {
    assert_eq!(body_preview(b"a\nb\r\nc"), "a\\nb\\r\\nc");
    assert_eq!(body_preview(b""), "");
    assert_eq!(body_preview(b"caf\xc3\xa9"), "caf\u{e9}");
    assert_eq!(body_preview(b"a\xffb"), "a\u{fffd}b");
    assert_eq!(preview_text("x\ny", true), "x\\ny...");
}

#[test]
fn long_bodies_are_cut() {
    assert_eq!(body_preview(&[b'x'; 256]), "x".repeat(256));
    assert_eq!(body_preview(&[b'x'; 257]), format!("{}...", "x".repeat(256)));
    let mut body = vec![b'x'; 255];
    body.extend_from_slice("\u{e9}".as_bytes());
    assert_eq!(body_preview(&body), format!("{}\u{fffd}...", "x".repeat(255)));
}

#[test]
fn missing_body_has_an_empty_preview() {
    assert_eq!(websocket_error_body_preview(None), "");
    assert_eq!(websocket_error_body_preview(Some(b"no\n")), "no\\n");
}

#[test]
fn error_chain_is_joined() {
    assert_eq!(format_error_chain(&vec![]), "");
    assert_eq!(format_error_chain(&vec!["one".to_string()]), "one");
    assert_eq!(format_error_chain(&vec!["one".to_string(), "two".to_string()]), "one: two");
}

#[test]
fn text_functions_agree_with_the_standard_library() {
    let samples = [
        "", " ", "a", ",", "a,b", ",,a,, b ,", "/x//y/", "\u{2003}z\u{3000}", "line\none\n", "\u{200b}q",
        "+12", "-1", "007", "18446744073709551615", "18446744073709551616", "1 2", "\u{85}1", "GET", "get",
    ];
    for sample in samples {
        assert_eq!(trim(sample, Separator::Whitespace), sample.trim());
        assert_eq!(trim(sample, Separator::Slash), sample.trim_matches('/'));
        assert_eq!(split_text(sample, Separator::Comma), sample.split(',').collect::<Vec<_>>());
        assert_eq!(split_text(sample, Separator::Newline), sample.split('\n').collect::<Vec<_>>());
        assert_eq!(
            split_text(sample, Separator::Whitespace),
            sample.split(char::is_whitespace).collect::<Vec<_>>()
        );
        assert_eq!(parse_number(sample), sample.parse::<u64>().ok(), "{sample:?}");
        for other in samples {
            assert_eq!(eq_ignore_ascii_case(sample, other), sample.eq_ignore_ascii_case(other));
            assert_eq!(same_text(sample, other), sample == other);
            assert_eq!(concatenate(sample, other), format!("{sample}{other}"));
        }
    }
}

#[test]
fn every_white_space_character_is_known() {
    for c in '\0'..=char::MAX {
        let text = c.to_string();
        assert_eq!(trim(&text, Separator::Whitespace).is_empty(), c.is_whitespace());
    }
}

#[test]
fn numbers_are_written_in_decimal() {
    for number in [0u16, 1, 9, 10, 99, 100, 8443, 65535] {
        assert_eq!(write_decimal(number), number.to_string());
    }
}

#[test]
fn lists_are_joined() {
    let list = vec!["a".to_string(), String::new(), "b".to_string()];
    assert_eq!(join(&list, "/"), "a//b");
    assert_eq!(join(&vec![], "/"), "");
}

#[test]
fn bytes_are_compared() {
    assert!(same_bytes(&vec![1, 2], &vec![1, 2]));
    assert!(!same_bytes(&vec![1, 2], &vec![1, 3]));
    assert!(!same_bytes(&vec![1, 2], &vec![1]));
}
