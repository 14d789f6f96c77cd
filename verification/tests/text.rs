use devconsole::text::{is_whitespace, same, split_lines, trim};

#[test]
fn trim_matches_std() {
    for text in ["", " ", "a", " a", "a ", "\t a b \r\n", "\u{2003}x\u{3000}", "\u{200b}x", "  \u{1680}"] {
        assert_eq!(trim(text), text.trim(), "{text:?}");
    }
}

#[test]
fn whitespace_matches_std() {
    for code in 0..0x3100u32 {
        if let Some(c) = char::from_u32(code) {
            assert_eq!(is_whitespace(c), c.is_whitespace(), "{code:#x}");
        }
    }
    assert!(!is_whitespace('\u{feff}'));
    assert!(!is_whitespace('\u{10ffff}'));
}

#[test]
fn split_lines_matches_std() {
    for text in ["", "a", "a\nb", "\n", "a\n", "\na", "a\n\nb", "a\r\nb", "\u{e9}\n\u{4e2d}\u{6587}"] {
        let expected: Vec<String> = text.split('\n').map(|part| part.to_string()).collect();
        assert_eq!(split_lines(text), expected, "{text:?}");
    }
}

#[test]
fn same_compares_characters() {
    assert!(same("", ""));
    assert!(same("help", "help"));
    assert!(same("\u{e9}t\u{e9}", "\u{e9}t\u{e9}"));
    assert!(!same("help", "helq"));
    assert!(!same("help", "hel"));
    assert!(!same("", "a"));
    assert!(!same("e", "\u{e9}"));
}
