use zen::text::{find, parse_u32, replace, str_byte_len, to_chars, trim_end, trim_start};

#[test]
fn trimming_and_searching() {
    assert_eq!(trim_end(&to_chars("ab \t")), to_chars("ab"));
    assert_eq!(trim_start(&to_chars("  ab")), to_chars("ab"));
    assert_eq!(find(&to_chars("a*/b"), &to_chars("*/")), Some(1));
    assert_eq!(find(&to_chars("ab"), &to_chars("c")), None);
    assert_eq!(replace(&to_chars("{1}. {1}"), &to_chars("{1}"), &to_chars("7")), to_chars("7. 7"));
}

#[test]
fn numbers_and_lengths() {
    assert_eq!(parse_u32("42"), Some(42));
    assert_eq!(parse_u32("4294967295"), Some(u32::MAX));
    assert_eq!(parse_u32("4294967296"), None);
    assert_eq!(parse_u32(""), None);
    assert_eq!(parse_u32("1a"), None);
    assert_eq!(str_byte_len("é"), 2);
}
