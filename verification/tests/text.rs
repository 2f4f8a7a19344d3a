use zourit::text::{chars_of, joined, equal, is_whitespace, split, strip_prefix, trim};

#[test]
fn whitespace_is_the_unicode_property() {
    let mut c: u32 = 0;
    while c <= 0x10FFFF {
        if let Some(ch) = char::from_u32(c) {
            assert_eq!(is_whitespace(ch), ch.is_whitespace(), "code point {:x}", c);
        }
        c += 1;
    }
}

#[test]
fn trim_removes_both_ends_only() {
    assert_eq!(trim("  a b \t\n"), "a b");
    assert_eq!(trim("\u{a0}x\u{3000}"), "x");
    assert_eq!(trim(""), "");
    assert_eq!(trim(" \n "), "");
    assert_eq!(trim("x"), "x");
    assert_eq!(trim("\u{200b}x"), "\u{200b}x");
}

#[test]
fn trim_agrees_with_std() {
    for s in ["", " ", "a", " a", "a ", "  héllo wörld  ", "\r\n;\r\n", "\u{2003}é\u{2003}"] {
        assert_eq!(trim(s), s.trim());
    }
}

#[test]
fn split_keeps_empty_pieces() {
    assert_eq!(split("", ';'), vec!["".to_string()]);
    assert_eq!(split(";", ';'), vec!["".to_string(), "".to_string()]);
    assert_eq!(split("a;b", ';'), vec!["a".to_string(), "b".to_string()]);
    assert_eq!(split("a;;b;", ';'), vec!["a".to_string(), "".to_string(), "b".to_string(), "".to_string()]);
    assert_eq!(split("é;ü", ';'), vec!["é".to_string(), "ü".to_string()]);
}

#[test]
fn split_agrees_with_std() {
    for s in ["", ";", "a", "a;b;c", ";;", "x ; y", "SELECT 1; SELECT 2;"] {
        let want: Vec<String> = s.split(';').map(|p| p.to_string()).collect();
        assert_eq!(split(s, ';'), want);
    }
}

#[test]
fn strip_prefix_gives_the_rest() {
    assert_eq!(strip_prefix("Bearer abc", "Bearer "), Some("abc".to_string()));
    assert_eq!(strip_prefix("Bearer ", "Bearer "), Some("".to_string()));
    assert_eq!(strip_prefix("Bearer", "Bearer "), None);
    assert_eq!(strip_prefix("bearer abc", "Bearer "), None);
    assert_eq!(strip_prefix("abc", ""), Some("abc".to_string()));
    assert_eq!(strip_prefix("éa", "é"), Some("a".to_string()));
}

#[test]
fn equal_compares_characters() {
    assert!(equal("", ""));
    assert!(equal("abc", "abc"));
    assert!(!equal("abc", "abd"));
    assert!(!equal("abc", "ab"));
    assert!(!equal("Abc", "abc"));
}

#[test]
fn concat_and_chars() {
    assert_eq!(joined("ab", "cd"), "abcd");
    assert_eq!(joined("", ""), "");
    assert_eq!(chars_of("aé"), vec!['a', 'é']);
}
