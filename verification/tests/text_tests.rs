use authware::handler::auth::parse_token_from_url;
use authware::utils::ip_extractor::{extract_ip, Header};
use authware::utils::num::{i64_to_dec, parse_i32, u64_to_dec};
use authware::utils::text::{split_on, str_eq, trim};

#[test]
fn test_extract_ip() {
    let cases: [(Option<&str>, i16, &str); 9] = [
        (None, -2, ""),
        (Some(""), -2, ""),
        (Some("1,2"), -2, "1"),
        (Some("1,2,3"), -2, "2"),
        (Some("1,2,3"), -3, "1"),
        (Some("1,2,3"), 0, "1"),
        (Some("1,2,3"), 2, "3"),
        (Some("1,2,3"), 10, ""),
        (Some("1.1.1.1,2"), -2, "1.1.1.1"),
    ];
    for (input, index, expected) in cases {
        let actual = extract_ip(input, index);
        assert_eq!(expected, actual);
    }
}

#[test]
fn test_extract_ip_signed_indexing() {
    let header = "a,b,c";
    let cases: [(i16, &str); 7] =
        [(0, "a"), (2, "c"), (-1, "c"), (-2, "b"), (-3, "a"), (-4, ""), (3, "")];
    for (index, expected) in cases {
        assert_eq!(extract_ip(Some(header), index), expected);
    }
}

#[test]
fn test_header_extractor() {
    let h = Header::new(-2);
    assert_eq!(h.get(Some("2.2.2.2,1.1.1.1")), "2.2.2.2");
    assert_eq!(h.get(None), "");
}

#[test]
fn test_parse_token_from_url() {
    let cases: [(&str, Option<&str>); 6] = [
        ("", None),
        ("/olia", None),
        ("/olia?token=aaaaa", Some("aaaaa")),
        ("/olia?vvv=aaaaa", None),
        ("/olia?aaaa=nnnnnn&token=aaaaa", Some("aaaaa")),
        ("/olia?token=aaaaa%3D", Some("aaaaa=")),
    ];
    for (input, expected) in cases {
        let actual = parse_token_from_url(input);
        assert_eq!(expected.map(|s| s.to_string()), actual);
    }
}

#[test]
fn test_split_on() {
    assert_eq!(split_on("a,b,c", ','), vec!["a", "b", "c"]);
    assert_eq!(split_on("", ','), vec![""]);
    assert_eq!(split_on(",x,", ','), vec!["", "x", ""]);
}

#[test]
fn test_str_eq() {
    assert!(str_eq("abc", "abc"));
    assert!(!str_eq("abc", "abd"));
    assert!(!str_eq("abc", "ab"));
    assert!(str_eq("", ""));
}

#[test]
fn test_trim() {
    assert_eq!(trim("  role "), "role");
    assert_eq!(trim("role"), "role");
    assert_eq!(trim(" \t\n "), "");
    assert_eq!(trim("\u{a0}wide\u{3000}"), "wide");
}

#[test]
fn test_decimal_rendering() {
    assert_eq!(u64_to_dec(0), "0");
    assert_eq!(u64_to_dec(8), "8");
    assert_eq!(u64_to_dec(120), "120");
    assert_eq!(i64_to_dec(-45), "-45");
    assert_eq!(i64_to_dec(i64::MIN), "-9223372036854775808");
}

#[test]
fn test_parse_i32() {
    assert_eq!(parse_i32("12"), Some(12));
    assert_eq!(parse_i32("-7"), Some(-7));
    assert_eq!(parse_i32("+7"), Some(7));
    assert_eq!(parse_i32("2147483647"), Some(i32::MAX));
    assert_eq!(parse_i32("-2147483648"), Some(i32::MIN));
    assert_eq!(parse_i32("2147483648"), None);
    assert_eq!(parse_i32("aaa"), None);
    assert_eq!(parse_i32(""), None);
    assert_eq!(parse_i32("1 2"), None);
}
