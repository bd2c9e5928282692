use firewall_manager::text::{chars_of, contains_chars, is_whitespace, matches_query, trimmed};

#[test]
fn white_space_matches_std_for_every_char() {
    for n in 0u32..=0x10ffff {
        if let Some(c) = char::from_u32(n) {
            assert_eq!(is_whitespace(c), c.is_whitespace(), "char {:#x}", n);
        }
    }
}

#[test]
fn trimmed_matches_std_trim() {
    let samples = ["", " ", "a", " a ", "\t\na b\r\n", "\u{3000}x\u{205f}", "ab", "\u{200b}x"];
    for s in samples.iter() {
        assert_eq!(trimmed(s), s.trim(), "input {:?}", s);
    }
}

#[test]
fn chars_of_lists_the_characters() {
    assert_eq!(chars_of("héllo"), vec!['h', 'é', 'l', 'l', 'o']);
}

#[test]
fn contains_finds_runs() {
    let hay = chars_of("firewalld");
    assert!(contains_chars(&hay, &chars_of("wall")));
    assert!(contains_chars(&hay, &chars_of("")));
    assert!(contains_chars(&hay, &chars_of("firewalld")));
    assert!(!contains_chars(&hay, &chars_of("walls")));
    assert!(!contains_chars(&chars_of(""), &chars_of("a")));
}

#[test]
fn service_filter_ignores_case() {
    assert!(matches_query("SSH", "ss"));
    assert!(matches_query("dhcpv6-client", "V6"));
    assert!(matches_query("http", ""));
    assert!(!matches_query("http", "HTTPS"));
}
