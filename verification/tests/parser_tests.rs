use memeblink::parser::{parse_matrix_message, MemeConfig};
use memeblink::text::{parse_u32, split_whitespace};

fn words(s: &str) -> Vec<String> {
    split_whitespace(s).into_iter().map(|w| w.into_iter().collect()).collect()
}

fn chars(s: &str) -> Vec<char> {
    s.chars().collect()
}

#[test]
fn default_config_values() {
    let c = MemeConfig::default();
    assert_eq!(c.image_url, None);
    assert_eq!(c.text, None);
    assert_eq!(c.duration_ms, 3000);
    assert_eq!(c.width, None);
    assert_eq!(c.height, None);
    assert_eq!(c.text_color.as_deref(), Some("#ffffff"));
}

#[test]
fn plain_text_becomes_text() {
    let c = parse_matrix_message("hello   world");
    assert_eq!(c.text.as_deref(), Some("hello world"));
    assert_eq!(c.duration_ms, 3000);
    assert_eq!(c.image_url, None);
}

#[test]
fn all_short_options() {
    let c = parse_matrix_message("look -i http://x/y.gif -d 1500 -w 200 -h 100 -c #ff0000 here");
    assert_eq!(c.image_url.as_deref(), Some("http://x/y.gif"));
    assert_eq!(c.duration_ms, 1500);
    assert_eq!(c.width, Some(200));
    assert_eq!(c.height, Some(100));
    assert_eq!(c.text_color.as_deref(), Some("#ff0000"));
    assert_eq!(c.text.as_deref(), Some("look here"));
}

#[test]
fn long_options() {
    let c = parse_matrix_message("--image_url a.png --duration 10 --width 3 --height 4 --color red");
    assert_eq!(c.image_url.as_deref(), Some("a.png"));
    assert_eq!(c.duration_ms, 10);
    assert_eq!(c.width, Some(3));
    assert_eq!(c.height, Some(4));
    assert_eq!(c.text_color.as_deref(), Some("red"));
    assert_eq!(c.text, None);
}

#[test]
fn invalid_number_is_skipped() {
    let c = parse_matrix_message("-d soon -w -5 -h 99999999999 text");
    assert_eq!(c.duration_ms, 3000);
    assert_eq!(c.width, None);
    assert_eq!(c.height, None);
    assert_eq!(c.text.as_deref(), Some("text"));
}

#[test]
fn option_without_value_is_text() {
    let c = parse_matrix_message("hello -d");
    assert_eq!(c.text.as_deref(), Some("hello -d"));
    assert_eq!(c.duration_ms, 3000);
}

#[test]
fn empty_message_keeps_defaults() {
    let c = parse_matrix_message("   \t\n ");
    assert_eq!(c.text, None);
    assert_eq!(c.duration_ms, 3000);
    assert_eq!(c.text_color.as_deref(), Some("#ffffff"));
}

#[test]
fn later_option_wins() {
    let c = parse_matrix_message("-d 1 -d 2");
    assert_eq!(c.duration_ms, 2);
}

#[test]
fn split_on_unicode_whitespace() {
    assert_eq!(words("a\u{00A0}b\u{3000}c  d\r\ne"), vec!["a", "b", "c", "d", "e"]);
    assert_eq!(words(""), Vec::<String>::new());
    assert_eq!(words("  x  "), vec!["x"]);
}

#[test]
fn parse_u32_like_std() {
    for s in ["0", "42", "+7", "4294967295", "4294967296", "", "+", "-", "-1", "1a", "007", "++1"] {
        assert_eq!(parse_u32(&chars(s)), s.parse::<u32>().ok(), "input {s:?}");
    }
}
