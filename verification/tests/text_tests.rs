use tg_spending_tracker::text::{chars_of, is_whitespace, join, split_whitespace};

#[test]
fn test_split_whitespace_matches_std() {
    for text in [
        "",
        " ",
        "food 12.50",
        "  food\t12.50\n",
        "one",
        " one",
        "one ",
        "a  b   c",
        "caf\u{e9} \u{3000}5\u{a0}6",
        "\u{2003}x\u{85}y",
    ] {
        let expected: Vec<String> = text.split_whitespace().map(|s| s.to_string()).collect();
        assert_eq!(split_whitespace(text), expected);
    }
}

#[test]
fn test_split_whitespace_tokens() {
    assert_eq!(split_whitespace("food 12.50"), vec!["food".to_string(), "12.50".to_string()]);
    assert_eq!(split_whitespace("   "), Vec::<String>::new());
}

#[test]
fn test_is_whitespace_matches_std() {
    for code in 0u32..0x4000 {
        if let Some(c) = char::from_u32(code) {
            assert_eq!(is_whitespace(c), c.is_whitespace());
        }
    }
    assert!(!is_whitespace('\u{10FFFF}'));
}

#[test]
fn test_chars_of() {
    assert_eq!(chars_of("a\u{e9}z"), vec!['a', '\u{e9}', 'z']);
    assert_eq!(chars_of(""), Vec::<char>::new());
}

#[test]
fn test_join() {
    assert_eq!(join(&vec![]), "");
    assert_eq!(join(&vec!["a".to_string()]), "a");
    assert_eq!(join(&vec!["a".to_string(), "b".to_string(), "".to_string()]), "a\nb\n");
}
