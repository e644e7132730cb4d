use get_proxy::tools::{repr, b64d, remove_extended_prefix, adjust_alias};
use get_proxy::text::{str_eq, replace_exec, ends_with_exec, find_chars, chars_of};
use get_proxy::decimal::{decimal_chars, parse_uint};

#[test]
fn repr_escapes_controls_and_quotes() {
    assert_eq!(repr("a\tb\r\nc\"d\\e"), "a\\tb\\r\\nc\\\"d\\\\e");
    assert_eq!(repr("plain 文字"), "plain 文字");
}

#[test]
fn b64d_decodes_with_padding_added() {
    let s = String::from("aGVsbG8");
    assert_eq!(b64d(&s, "u", false), Some(String::from("hello")));
    let s2 = String::from("aGVsbG8=\r\n");
    assert_eq!(b64d(&s2, "u", false), Some(String::from("hello")));
}

#[test]
fn b64d_fails_on_text() {
    let s = String::from("vless://not base64");
    assert_eq!(b64d(&s, "u", true), None);
}

#[test]
fn b64d_fails_on_bytes_that_are_no_utf8() {
    let s = String::from("//79");
    assert_eq!(b64d(&s, "u", false), None);
}

#[test]
fn extended_prefix_is_removed() {
    assert_eq!(remove_extended_prefix("\\\\?\\C:\\dir\\file.json"), "C:\\dir\\file.json");
    assert_eq!(remove_extended_prefix("C:\\dir"), "C:\\dir");
    assert_eq!(remove_extended_prefix("\\\\?"), "\\\\?");
}

#[test]
fn alias_loses_spaces_and_tabs() {
    assert_eq!(adjust_alias(String::from(" 美国 node\t1 ")), "美国node1");
    assert_eq!(adjust_alias(String::new()), "");
}

#[test]
fn alias_cleaning_is_idempotent_on_values() {
    for s in ["a b", "\t\t", "x", " 日本 \t东京 "] {
        let once = adjust_alias(String::from(s));
        assert_eq!(adjust_alias(once.clone()), once);
        assert!(!once.contains(' ') && !once.contains('\t'));
    }
}

#[test]
fn text_helpers() {
    assert!(str_eq("abc", "abc"));
    assert!(!str_eq("abc", "abd"));
    assert_eq!(replace_exec("a:b:c", ":", "_"), "a_b_c");
    assert_eq!(replace_exec("aaa", "aa", "b"), "ba");
    assert!(ends_with_exec("list.yaml", ".yaml"));
    assert!(!ends_with_exec("yaml", ".yaml"));
    let s = chars_of("hello world");
    let p = chars_of("o w");
    assert_eq!(find_chars(&s, &p), Some(4));
    assert_eq!(find_chars(&s, &chars_of("xyz")), None);
}

#[test]
fn decimal_text_and_back() {
    let d: String = decimal_chars(40213).into_iter().collect();
    assert_eq!(d, "40213");
    assert_eq!(parse_uint(&chars_of("40213"), u64::MAX), Some(40213));
    assert_eq!(parse_uint(&chars_of("+7"), 255), Some(7));
    assert_eq!(parse_uint(&chars_of("256"), 255), None);
    assert_eq!(parse_uint(&chars_of(""), 255), None);
    assert_eq!(parse_uint(&chars_of("1x"), 255), None);
}
