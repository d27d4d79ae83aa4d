use rusty_chat::text::{chars_of, is_blank, is_whitespace, trim, truncate_chars};

#[test]
fn whitespace_agrees_with_std_on_every_char() {
    for code in 0u32..=0x10FFFF {
        if let Some(c) = char::from_u32(code) {
            assert_eq!(is_whitespace(c), c.is_whitespace(), "U+{:04X}", code);
        }
    }
}

#[test]
fn whitespace_examples() {
    assert!(is_whitespace(' '));
    assert!(is_whitespace('\t'));
    assert!(is_whitespace('\n'));
    assert!(is_whitespace('\u{3000}'));
    assert!(!is_whitespace('a'));
    assert!(!is_whitespace('\u{200B}'));
}

#[test]
fn blank_text() {
    assert!(is_blank(""));
    assert!(is_blank(" \t\r\n"));
    assert!(is_blank("\u{00A0}\u{2003}"));
    assert!(!is_blank(" x "));
    assert!(!is_blank("llama3"));
}

#[test]
fn trim_cuts_both_ends_only() {
    assert_eq!(trim("  llama3:8b \n"), "llama3:8b");
    assert_eq!(trim("a b"), "a b");
    assert_eq!(trim("\t a  b \u{3000}"), "a  b");
    assert_eq!(trim(""), "");
    assert_eq!(trim(" \n\t"), "");
    assert_eq!(trim("x"), "x");
}

#[test]
fn trim_agrees_with_std() {
    let samples = [
        "",
        " ",
        "  a",
        "a  ",
        " a b ",
        "\u{2028}héllo wörld\u{2029}",
        "\u{1F600} smile \u{1F600}",
        "\n\n<think>\n",
    ];
    for s in samples {
        assert_eq!(trim(s), s.trim());
    }
}

#[test]
fn trim_twice_is_trim_once() {
    let once = trim("  model name  ");
    assert_eq!(trim(&once), once);
}

#[test]
fn truncate_counts_characters() {
    assert_eq!(truncate_chars("hello", 10), "hello");
    assert_eq!(truncate_chars("hello", 5), "hello");
    assert_eq!(truncate_chars("hello", 3), "hel");
    assert_eq!(truncate_chars("hello", 0), "");
    assert_eq!(truncate_chars("héllo wörld", 7), "héllo w");
    assert_eq!(truncate_chars("\u{1F600}\u{1F601}\u{1F602}", 2), "\u{1F600}\u{1F601}");
}

#[test]
fn chars_of_lists_every_character() {
    assert_eq!(chars_of("aé\u{1F600}"), vec!['a', 'é', '\u{1F600}']);
    assert!(chars_of("").is_empty());
}
