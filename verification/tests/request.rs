use serde_json::Value;

use x_likes_downloader::x_api::build_likes_url;
use x_likes_downloader::x_api::build_variables_json;
use x_likes_downloader::x_api::escape_json;

#[test]
fn variables_json_without_cursor() {
    let got = build_variables_json("12345", 20, &None);
    assert_eq!(
        got,
        "{\"count\":20,\"includePromotedContent\":false,\"userId\":\"12345\",\"withBirdwatchNotes\":false,\"withClientEventToken\":false,\"withV2Timeline\":true,\"withVoice\":true}"
    );
}

#[test]
fn variables_json_with_cursor() {
    let got = build_variables_json("u1", 5, &Some("CUR==".to_string()));
    assert_eq!(
        got,
        "{\"count\":5,\"cursor\":\"CUR==\",\"includePromotedContent\":false,\"userId\":\"u1\",\"withBirdwatchNotes\":false,\"withClientEventToken\":false,\"withV2Timeline\":true,\"withVoice\":true}"
    );
}

#[test]
fn variables_json_agrees_with_reference_serializer() {
    let mut m = serde_json::Map::new();
    m.insert("userId".to_string(), Value::String("9".to_string()));
    m.insert("count".to_string(), Value::from(40));
    m.insert("includePromotedContent".to_string(), Value::Bool(false));
    m.insert("withClientEventToken".to_string(), Value::Bool(false));
    m.insert("withBirdwatchNotes".to_string(), Value::Bool(false));
    m.insert("withVoice".to_string(), Value::Bool(true));
    m.insert("withV2Timeline".to_string(), Value::Bool(true));
    m.insert("cursor".to_string(), Value::String("a\"b\\c".to_string()));
    let reference = serde_json::to_string(&Value::Object(m)).unwrap();
    let got = build_variables_json("9", 40, &Some("a\"b\\c".to_string()));
    assert_eq!(got, reference);
}

#[test]
fn json_escaping() {
    assert_eq!(escape_json("plain"), "plain");
    assert_eq!(escape_json("a\"b"), "a\\\"b");
    assert_eq!(escape_json("a\\b"), "a\\\\b");
    assert_eq!(escape_json("a\nb\tc\r"), "a\\nb\\tc\\r");
    assert_eq!(escape_json("\u{08}\u{0c}"), "\\b\\f");
    assert_eq!(escape_json("\u{01}\u{1f}"), "\\u0001\\u001f");
}

#[test]
fn likes_url_percent_encodes_parameters() {
    let got = build_likes_url("https://x.test/likes", "{\"a\":\"b c\"}", "{}", "{\"t\":true}");
    assert_eq!(
        got,
        "https://x.test/likes?variables=%7B%22a%22%3A%22b%20c%22%7D&features=%7B%7D&fieldToggles=%7B%22t%22%3Atrue%7D"
    );
}
