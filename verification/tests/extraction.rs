use x_likes_downloader::extract::extract_media_urls;
use x_likes_downloader::extract::extract_tweet_data;
use x_likes_downloader::extract::extract_tweet_id;
use x_likes_downloader::extract::extract_tweet_object;
use x_likes_downloader::extract::extract_username;
use x_likes_downloader::json::Json;

fn obj(fields: Vec<(&str, Json)>) -> Json {
    Json::Obj(fields.into_iter().map(|(k, v)| (k.to_string(), v)).collect())
}

fn s(v: &str) -> Json {
    Json::Str(v.to_string())
}

fn nested_entry(nested_marker: &str, direct_marker: &str) -> Json {
    obj(vec![
        (
            "content",
            obj(vec![(
                "itemContent",
                obj(vec![(
                    "tweet_results",
                    obj(vec![("result", obj(vec![("tweet", obj(vec![("marker", s(nested_marker))]))]))]),
                )]),
            )]),
        ),
        ("tweet", obj(vec![("marker", s(direct_marker))])),
    ])
}

fn marker_of(t: &Json) -> String {
    match t.get("marker").and_then(|m| m.as_str()) {
        Some(v) => v.clone(),
        None => String::new(),
    }
}

#[test]
fn fallback_prefers_nested_path() {
    let entry = nested_entry("nested", "direct");
    let t = extract_tweet_object(&entry);
    assert_eq!(marker_of(t), "nested");
}

#[test]
fn fallback_uses_direct_tweet_field() {
    let entry = obj(vec![("tweet", obj(vec![("marker", s("direct"))]))]);
    let t = extract_tweet_object(&entry);
    assert_eq!(marker_of(t), "direct");
}

#[test]
fn fallback_uses_entry_itself() {
    let entry = obj(vec![("marker", s("plain"))]);
    let t = extract_tweet_object(&entry);
    assert_eq!(marker_of(t), "plain");
}

#[test]
fn username_at_fixed_path() {
    let tweet = obj(vec![(
        "core",
        obj(vec![(
            "user_results",
            obj(vec![("result", obj(vec![("legacy", obj(vec![("screen_name", s("alice"))]))]))]),
        )]),
    )]);
    assert_eq!(extract_username(&tweet), Some("alice".to_string()));
    assert_eq!(extract_username(&obj(vec![])), None);
}

fn video_media(variants: Vec<Json>) -> Json {
    obj(vec![
        ("type", s("video")),
        ("video_info", obj(vec![("variants", Json::Arr(variants))])),
    ])
}

#[test]
fn video_variant_selection_takes_best_bitrate() {
    let media = video_media(vec![
        obj(vec![("bitrate", Json::UInt(100)), ("url", s("A"))]),
        obj(vec![("bitrate", Json::UInt(500)), ("url", s("B"))]),
        obj(vec![("url", s("C"))]),
    ]);
    let tweet = obj(vec![(
        "legacy",
        obj(vec![("extended_entities", obj(vec![("media", Json::Arr(vec![media]))]))]),
    )]);
    assert_eq!(extract_media_urls(&tweet), vec!["B".to_string()]);
}

#[test]
fn video_with_only_bitrateless_variants_yields_nothing() {
    let media = video_media(vec![obj(vec![("url", s("C"))])]);
    let tweet = obj(vec![(
        "legacy",
        obj(vec![("extended_entities", obj(vec![("media", Json::Arr(vec![media]))]))]),
    )]);
    assert_eq!(extract_media_urls(&tweet), Vec::<String>::new());
}

#[test]
fn photo_takes_media_url_verbatim() {
    let media = obj(vec![("type", s("photo")), ("media_url_https", s("https://img/1.jpg"))]);
    let tweet = obj(vec![(
        "legacy",
        obj(vec![("entities", obj(vec![("media", Json::Arr(vec![media]))]))]),
    )]);
    assert_eq!(extract_media_urls(&tweet), vec!["https://img/1.jpg".to_string()]);
}

#[test]
fn extended_entities_wins_over_entities() {
    let ext = obj(vec![("type", s("photo")), ("media_url_https", s("ext.jpg"))]);
    let plain = obj(vec![("type", s("photo")), ("media_url_https", s("plain.jpg"))]);
    let tweet = obj(vec![(
        "legacy",
        obj(vec![
            ("extended_entities", obj(vec![("media", Json::Arr(vec![ext]))])),
            ("entities", obj(vec![("media", Json::Arr(vec![plain]))])),
        ]),
    )]);
    assert_eq!(extract_media_urls(&tweet), vec!["ext.jpg".to_string()]);
}

#[test]
fn other_media_types_are_ignored() {
    let media = obj(vec![("type", s("animated_gif")), ("media_url_https", s("g.gif"))]);
    let tweet = obj(vec![(
        "legacy",
        obj(vec![("entities", obj(vec![("media", Json::Arr(vec![media]))]))]),
    )]);
    assert_eq!(extract_media_urls(&tweet), Vec::<String>::new());
}

#[test]
fn tweet_id_prefers_top_level_rest_id() {
    let td = obj(vec![("rest_id", s("111")), ("tweet", obj(vec![("rest_id", s("222"))]))]);
    assert_eq!(extract_tweet_id(&td), Some("111".to_string()));
}

#[test]
fn tweet_id_falls_back_to_nested_tweet() {
    let td = obj(vec![("tweet", obj(vec![("rest_id", s("222"))]))]);
    assert_eq!(extract_tweet_id(&td), Some("222".to_string()));
    assert_eq!(extract_tweet_id(&obj(vec![])), None);
}

#[test]
fn tweet_data_resolves_nested_result() {
    let entry = obj(vec![(
        "content",
        obj(vec![(
            "itemContent",
            obj(vec![("tweet_results", obj(vec![("result", obj(vec![("rest_id", s("42"))]))]))]),
        )]),
    )]);
    let td = extract_tweet_data(&entry);
    assert_eq!(extract_tweet_id(td), Some("42".to_string()));
}
