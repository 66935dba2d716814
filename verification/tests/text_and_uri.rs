use node_config::groups::normalize_groups;
use node_config::order::lex_less;
use node_config::text::{
    chars_of, i64_to_string, parse_i32, split_lines_csv, trim, trim_lower, trim_upper,
    u64_to_string,
};
use node_config::uri::{decode_link_component, decode_uri_component, encode_uri_component};

fn strings(v: &[&str]) -> Vec<String> {
    v.iter().map(|s| s.to_string()).collect()
}

fn parse(s: &str) -> Option<i32> {
    parse_i32(&chars_of(s))
}

#[test]
fn trim_removes_unicode_white_space() {
    assert_eq!(trim("\u{3000} a b \n\t"), "a b");
    assert_eq!(trim("   "), "");
}

#[test]
fn csv_entries_are_trimmed_and_not_empty() {
    let entries = split_lines_csv(" a, b\n\nc,,\r\n d ");
    assert_eq!(entries, strings(&["a", "b", "c", "d"]));
    for e in &entries {
        assert!(!e.is_empty());
        assert_eq!(e.trim(), e);
        assert!(!e.contains(',') && !e.contains('\n') && !e.contains('\r'));
    }
    assert!(split_lines_csv(" , \n").is_empty());
}

#[test]
fn groups_are_trimmed_deduplicated_and_stable() {
    let groups = strings(&["  x", "y", "x", " ", "y ", "z"]);
    let once = normalize_groups(&groups);
    assert_eq!(once, strings(&["x", "y", "z"]));
    assert_eq!(normalize_groups(&once), once);
}

#[test]
fn signed_port_parsing_follows_i32_from_str() {
    assert_eq!(parse("443"), Some(443));
    assert_eq!(parse("+5"), Some(5));
    assert_eq!(parse("-2147483648"), Some(i32::MIN));
    assert_eq!(parse("2147483647"), Some(i32::MAX));
    assert_eq!(parse("2147483648"), None);
    assert_eq!(parse("-2147483649"), None);
    assert_eq!(parse("-+5"), None);
    assert_eq!(parse(""), None);
    assert_eq!(parse("-"), None);
    assert_eq!(parse("12a"), None);
}

#[test]
fn decimal_texts() {
    assert_eq!(u64_to_string(0), "0");
    assert_eq!(u64_to_string(18446744073709551615), "18446744073709551615");
    assert_eq!(i64_to_string(-12), "-12");
    assert_eq!(i64_to_string(i64::MIN), "-9223372036854775808");
}

#[test]
fn case_mapping_wrappers() {
    assert_eq!(trim_upper(" grpc "), "GRPC");
    assert_eq!(trim_lower(" ÀB "), "àb");
}

#[test]
fn lexicographic_order() {
    assert!(lex_less("abc", "abd"));
    assert!(lex_less("ab", "abc"));
    assert!(!lex_less("abc", "abc"));
    assert!(!lex_less("b", "abc"));
}

#[test]
fn encode_uri_component_escapes_reserved_bytes() {
    assert_eq!(
        encode_uri_component("a b/ü!'()*-._~€"),
        "a%20b%2F%C3%BC!'()*-._~%E2%82%AC"
    );
    assert_eq!(encode_uri_component(""), "");
}

#[test]
fn decode_uri_component_reads_escapes() {
    assert_eq!(decode_uri_component("a%20b%2F%C3%BC").as_deref(), Some("a b/ü"));
    assert_eq!(decode_uri_component("%E2%82%AC").as_deref(), Some("€"));
    assert_eq!(decode_uri_component("%f0%9f%98%80").as_deref(), Some("😀"));
    assert_eq!(decode_uri_component("plain+text").as_deref(), Some("plain+text"));
}

#[test]
fn decode_uri_component_refuses_malformed_text() {
    assert_eq!(decode_uri_component("%"), None);
    assert_eq!(decode_uri_component("%4"), None);
    assert_eq!(decode_uri_component("%zz"), None);
    assert_eq!(decode_uri_component("%C3"), None);
    assert_eq!(decode_uri_component("%C3%28"), None);
    assert_eq!(decode_uri_component("%C0%80"), None);
    assert_eq!(decode_uri_component("%ED%A0%80"), None);
    assert_eq!(decode_uri_component("%80"), None);
    assert_eq!(decode_uri_component("%F8%88%80%80%80"), None);
}

#[test]
fn decoding_gives_back_what_encoding_wrote() {
    for s in ["", "hello", "a b&c=d#e?f", "ü€😀", "100%", "%41", "line\nbreak"] {
        let encoded = encode_uri_component(s);
        assert_eq!(decode_uri_component(&encoded).as_deref(), Some(s));
        assert_eq!(decode_link_component(&encoded), s);
    }
}

#[test]
fn link_component_falls_back_to_the_raw_text() {
    assert_eq!(decode_link_component("%zz"), "%zz");
    assert_eq!(decode_link_component("a%2Bb"), "a+b");
}
