use dawn_launcher::data_url::{base64_decode, parse_data_url};
use dawn_launcher::decimal::{format_i64, parse_i64, parse_index_upto};
use dawn_launcher::paths::{absolute_path_from, make_absolute_path, make_relative_path, relative_path_from_diff};
use dawn_launcher::pattern::like_matches;
use dawn_launcher::text::{chars_le, str_chars, string_from_chars, trim_chars};

fn cs(s: &str) -> Vec<char> {
    s.chars().collect()
}

#[test]
fn decimal_format_and_parse() {
    assert_eq!(format_i64(0), "0");
    assert_eq!(format_i64(42), "42");
    assert_eq!(format_i64(-7), "-7");
    assert_eq!(format_i64(i64::MIN), i64::MIN.to_string());
    assert_eq!(format_i64(i64::MAX), i64::MAX.to_string());
    assert_eq!(parse_i64("123"), Some(123));
    assert_eq!(parse_i64("+5"), Some(5));
    assert_eq!(parse_i64("-0"), Some(0));
    assert_eq!(parse_i64("-9223372036854775808"), Some(i64::MIN));
    assert_eq!(parse_i64("9223372036854775808"), None);
    assert_eq!(parse_i64("99999999999999999999"), None);
    assert_eq!(parse_i64(""), None);
    assert_eq!(parse_i64("-"), None);
    assert_eq!(parse_i64(" 1"), None);
    assert_eq!(parse_i64("1a"), None);
    for v in [0i64, 1, -1, 10, 1234567, i64::MIN, i64::MAX] {
        assert_eq!(parse_i64(&format_i64(v)), Some(v));
    }
}

#[test]
fn trimming_and_chars() {
    assert_eq!(trim_chars(&cs("  a b \t\n")), cs("a b"));
    assert_eq!(trim_chars(&cs("\u{3000}x\u{a0}")), cs("x"));
    assert_eq!(trim_chars(&cs("   ")), cs(""));
    assert_eq!(str_chars("héllo"), cs("héllo"));
    assert_eq!(string_from_chars(&cs("héllo")), "héllo");
    assert!(chars_le(&cs("B"), &cs("a")));
    assert!(chars_le(&cs("ab"), &cs("abc")));
    assert!(!chars_le(&cs("b"), &cs("abc")));
}

#[test]
fn like_pattern_matching() {
    assert!(like_matches(&cs("%abc%"), &cs("xxABCyy")));
    assert!(like_matches(&cs("a_c"), &cs("abc")));
    assert!(!like_matches(&cs("a_c"), &cs("ac")));
    assert!(like_matches(&cs("%"), &cs("")));
    assert!(!like_matches(&cs(""), &cs("a")));
    assert!(like_matches(&cs("é%"), &cs("éa")));
    assert!(!like_matches(&cs("É%"), &cs("éa")));
}

#[test]
fn data_url_split() {
    assert_eq!(
        parse_data_url("data:image/png;base64,iVBOR"),
        Some(("image/png".to_string(), "iVBOR".to_string()))
    );
    assert_eq!(parse_data_url("data:a;b,c,d"), Some(("a".to_string(), "c,d".to_string())));
    assert_eq!(parse_data_url("image/png;base64,x"), None);
    assert_eq!(parse_data_url("data:image/png,x"), None);
    assert_eq!(parse_data_url("data:image/png;base64"), None);
}

#[test]
fn base64_decoding() {
    assert_eq!(base64_decode("TWFu"), Some(b"Man".to_vec()));
    assert_eq!(base64_decode("TWE="), Some(b"Ma".to_vec()));
    assert_eq!(base64_decode("TQ=="), Some(b"M".to_vec()));
    assert_eq!(base64_decode("SGVs bG8\n"), Some(b"Hello".to_vec()));
    assert_eq!(base64_decode("+/+/"), Some(vec![0xfb, 0xff, 0xbf]));
    assert_eq!(base64_decode("TW=!!"), Some(b"M".to_vec()));
    assert_eq!(base64_decode("TW!u"), None);
    assert_eq!(base64_decode("é"), None);
    assert_eq!(base64_decode(""), Some(vec![]));
}

#[test]
fn relative_paths() {
    assert_eq!(
        make_relative_path("/data/apps/x.exe", "/data"),
        Some("./apps/x.exe".to_string())
    );
    assert_eq!(make_relative_path("/other/x", "/data/d"), Some("../../other/x".to_string()));
    assert_eq!(make_relative_path("http://a.b", "/data"), None);
    assert_eq!(make_relative_path("https://a.b", "/data"), None);
    assert_eq!(make_relative_path("./x", "/data"), None);
    assert_eq!(make_relative_path("/data", "/data"), None);
    assert_eq!(make_relative_path("rel/x", "/data"), None);
    assert_eq!(relative_path_from_diff(Some("a\\b".to_string())), Some("./a/b".to_string()));
    assert_eq!(relative_path_from_diff(Some("..\\b".to_string())), Some("../b".to_string()));
    assert_eq!(relative_path_from_diff(Some(String::new())), None);
    assert_eq!(relative_path_from_diff(None), None);
}

#[test]
fn absolute_paths() {
    assert_eq!(make_absolute_path("C:\\x", "/base"), None);
    assert_eq!(make_absolute_path("\\\\server\\x", "/base"), None);
    assert_eq!(make_absolute_path("x/y", "/base"), None);
    assert_eq!(make_absolute_path("https://a", "/base"), None);
    assert_eq!(
        make_absolute_path("./no/such/file", "/definitely-missing"),
        Some("/definitely-missing/./no/such/file".to_string())
    );
    assert_eq!(make_absolute_path(".", "/"), Some("/".to_string()));
    assert_eq!(absolute_path_from("j".to_string(), Some("c".to_string())), "c");
    assert_eq!(absolute_path_from("j".to_string(), None), "j");
}

#[test]
fn base64_round_trip_of_standard_encoding() {
    // "any carnal pleasure" in standard Base64, with and without padding and
    // with white space inserted
    let bytes = b"any carnal pleasure".to_vec();
    assert_eq!(base64_decode("YW55IGNhcm5hbCBwbGVhc3VyZQ=="), Some(bytes.clone()));
    assert_eq!(base64_decode("YW55IGNhcm5hbCBwbGVhc3VyZQ"), Some(bytes.clone()));
    assert_eq!(base64_decode(" YW55 IGNh\ncm5h bCBw\tbGVh c3Vy ZQ = ="), Some(bytes));
    assert_eq!(base64_decode("AAEC/f7/"), Some(vec![0, 1, 2, 253, 254, 255]));
}

#[test]
fn numbers_in_a_range() {
    assert_eq!(parse_index_upto("2", 3), Some(2));
    assert_eq!(parse_index_upto("+3", 3), Some(3));
    assert_eq!(parse_index_upto("003", 3), Some(3));
    assert_eq!(parse_index_upto("0", 3), None);
    assert_eq!(parse_index_upto("4", 3), None);
    assert_eq!(parse_index_upto("-1", 3), None);
    assert_eq!(parse_index_upto("", 3), None);
    assert_eq!(parse_index_upto("+", 3), None);
    assert_eq!(parse_index_upto("99999999999999999999999", 3), None);
    assert_eq!(parse_index_upto("1x", 3), None);
}
