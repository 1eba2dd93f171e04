use pahkat_reposrv::text::{char_is_white_space, join2, join3, same_text, strip_suffix, trim};

#[test]
fn trim_removes_the_newline_after_a_commit() {
    assert_eq!(trim("4f2a9c0\n"), "4f2a9c0");
}

#[test]
fn trim_removes_white_space_at_both_ends_only() {
    assert_eq!(trim(" \t a b \r\n"), "a b");
    assert_eq!(trim("\u{a0}\u{3000}x\u{2003}"), "x");
}

#[test]
fn trim_of_white_space_alone_is_empty() {
    assert_eq!(trim(" \n\t "), "");
    assert_eq!(trim(""), "");
}

#[test]
fn trim_agrees_with_the_standard_library() {
    for s in ["", " ", "a", " a", "a ", "  a  b  ", "\u{85}x\u{1680}", "\u{200b}x", "é \u{2028}"] {
        assert_eq!(trim(s), s.trim());
    }
}

#[test]
fn white_space_is_what_the_standard_library_says() {
    let mut code: u32 = 0;
    while code <= 0x3100 {
        if let Some(c) = char::from_u32(code) {
            assert_eq!(char_is_white_space(c), c.is_whitespace(), "U+{:04X}", code);
        }
        code += 1;
    }
}

#[test]
fn same_text_compares_characters() {
    assert!(same_text("", ""));
    assert!(same_text("nordsamisk é", "nordsamisk é"));
    assert!(!same_text("a", "b"));
    assert!(!same_text("a", "ab"));
    assert!(!same_text("stable", "Stable"));
}

#[test]
fn strip_suffix_takes_the_suffix_off() {
    assert_eq!(strip_suffix("nb.toml", ".toml"), Some("nb".to_string()));
    assert_eq!(strip_suffix(".toml", ".toml"), Some(String::new()));
    assert_eq!(strip_suffix("smé.toml", ".toml"), Some("smé".to_string()));
}

#[test]
fn strip_suffix_refuses_text_that_ends_otherwise() {
    assert_eq!(strip_suffix("nb.json", ".toml"), None);
    assert_eq!(strip_suffix("toml", ".toml"), None);
    assert_eq!(strip_suffix("", ".toml"), None);
    assert_eq!(strip_suffix("nb.toml ", ".toml"), None);
}

#[test]
fn join_puts_texts_in_a_row() {
    assert_eq!(join2("HEAD:", "main"), "HEAD:main");
    assert_eq!(join3("a", "/packages/", "b"), "a/packages/b");
}
