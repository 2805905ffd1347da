use x_likes_downloader::text::i32_to_dec;
use x_likes_downloader::text::join_underscore;
use x_likes_downloader::text::lowercase;
use x_likes_downloader::text::parse_i32;
use x_likes_downloader::text::replace_str;
use x_likes_downloader::text::split_lines;
use x_likes_downloader::text::split_str;
use x_likes_downloader::text::str_contains_char;
use x_likes_downloader::text::str_eq;
use x_likes_downloader::text::str_has_prefix;
use x_likes_downloader::text::strip_quotes;
use x_likes_downloader::text::trim_str;
use x_likes_downloader::text::u64_to_dec;

#[test]
fn equality_and_prefix() {
    assert!(str_eq("abc", "abc"));
    assert!(!str_eq("abc", "abd"));
    assert!(!str_eq("abc", "ab"));
    assert!(str_has_prefix("tweet-123", "tweet-"));
    assert!(!str_has_prefix("cursor-bottom-9", "tweet-"));
    assert!(str_has_prefix("x", ""));
    assert!(!str_has_prefix("", "x"));
    assert!(str_contains_char("a b", ' '));
    assert!(!str_contains_char("ab", ' '));
}

#[test]
fn trimming() {
    assert_eq!(trim_str("  a b \t\n"), "a b");
    assert_eq!(trim_str(""), "");
    assert_eq!(trim_str("   "), "");
    assert_eq!(trim_str("x"), "x");
    assert_eq!(strip_quotes("\"\"v\"\""), "v");
    assert_eq!(strip_quotes("plain"), "plain");
    assert_eq!(strip_quotes("\"\""), "");
}

#[test]
fn splitting() {
    assert_eq!(split_str("a_b_c", '_'), vec!["a", "b", "c"]);
    assert_eq!(split_str("", '_'), vec![""]);
    assert_eq!(split_str("a__b", '_'), vec!["a", "", "b"]);
    assert_eq!(split_str("_a_", '_'), vec!["", "a", ""]);
    assert_eq!(split_lines("a\nb\n"), vec!["a", "b"]);
    assert_eq!(split_lines("a\n\nb"), vec!["a", "", "b"]);
    assert_eq!(split_lines(""), Vec::<String>::new());
}

#[test]
fn joining() {
    let toks = vec!["a".to_string(), "b".to_string(), "c".to_string()];
    assert_eq!(join_underscore(&toks, 0), "");
    assert_eq!(join_underscore(&toks, 1), "a");
    assert_eq!(join_underscore(&toks, 3), "a_b_c");
}

#[test]
fn replacing() {
    assert_eq!(replace_str("{USERNAME} {ID}", "{USERNAME}", "alice"), "alice {ID}");
    assert_eq!(replace_str("a a a", " ", "_"), "a_a_a");
    assert_eq!(replace_str("aaa", "aa", "b"), "ba");
    assert_eq!(replace_str("xyz", "q", "r"), "xyz");
}

#[test]
fn integer_parsing() {
    assert_eq!(parse_i32("20"), Some(20));
    assert_eq!(parse_i32("+7"), Some(7));
    assert_eq!(parse_i32("-5"), Some(-5));
    assert_eq!(parse_i32("0"), Some(0));
    assert_eq!(parse_i32("2147483647"), Some(2147483647));
    assert_eq!(parse_i32("2147483648"), None);
    assert_eq!(parse_i32("-2147483648"), Some(-2147483648));
    assert_eq!(parse_i32("-2147483649"), None);
    assert_eq!(parse_i32(""), None);
    assert_eq!(parse_i32("+"), None);
    assert_eq!(parse_i32("12a"), None);
    assert_eq!(parse_i32("007"), Some(7));
}

#[test]
fn integer_formatting() {
    assert_eq!(u64_to_dec(0), "0");
    assert_eq!(u64_to_dec(10), "10");
    assert_eq!(u64_to_dec(9876543210), "9876543210");
    assert_eq!(i32_to_dec(-42), "-42");
    assert_eq!(i32_to_dec(7), "7");
    assert_eq!(i32_to_dec(-2147483648), "-2147483648");
}

#[test]
fn lowercase_is_not_identity() {
    assert_eq!(lowercase("AUTHORIZATION: Bearer X"), "authorization: bearer x");
    assert_eq!(lowercase(""), "");
}
