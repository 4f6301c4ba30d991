use agc::text::{capitalize, decimal, split_whitespace, trim};
use agc::ui::color::{bold, bold_cyan, cyan, gray, green, red, yellow};

#[test]
fn decimal_formats_like_display() {
    for n in [0usize, 7, 10, 42, 100, 9_876_543_210] {
        assert_eq!(decimal(n), n.to_string());
    }
}

#[test]
fn split_whitespace_drops_empty_pieces() {
    assert_eq!(split_whitespace("  a.rs\nb.rs\t c.rs  \n"), vec!["a.rs", "b.rs", "c.rs"]);
    assert!(split_whitespace(" \n\t ").is_empty());
    assert_eq!(split_whitespace("one"), vec!["one"]);
}

#[test]
fn capitalize_upper_cases_first_char_only() {
    assert_eq!(capitalize("feat"), "Feat");
    assert_eq!(capitalize("uI"), "UI");
    assert_eq!(capitalize(""), "");
    assert_eq!(capitalize("ß"), "SS");
}

#[test]
fn lowercase_matching_and_trim() {
    let h = agc::history::History::from_contents("/h".into(), Some("/Tmp/ÄBC\n".into()));
    assert_eq!(h.filter("äbc"), vec!["/Tmp/ÄBC"]);
    assert_eq!(trim("\u{3000} x \n"), "x");
}

#[test]
fn colours_wrap_in_sgr_sequences() {
    assert_eq!(red("e"), "\u{1b}[31me\u{1b}[0m");
    assert_eq!(green("ok"), "\u{1b}[32mok\u{1b}[0m");
    assert_eq!(yellow("w"), "\u{1b}[33mw\u{1b}[0m");
    assert_eq!(cyan("c"), "\u{1b}[36mc\u{1b}[0m");
    assert_eq!(gray("g"), "\u{1b}[90mg\u{1b}[0m");
    assert_eq!(bold("b"), "\u{1b}[1mb\u{1b}[0m");
    assert_eq!(bold_cyan("t"), "\u{1b}[1;36mt\u{1b}[0m");
}
