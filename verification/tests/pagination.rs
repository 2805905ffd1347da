use x_likes_downloader::json::Json;
use x_likes_downloader::x_api::Page;
use x_likes_downloader::x_api::PageStep;
use x_likes_downloader::x_api::fetch_all_from_pages;
use x_likes_downloader::x_api::next_page_action;
use x_likes_downloader::x_api::parse_likes_response;

fn obj(fields: Vec<(&str, Json)>) -> Json {
    Json::Obj(fields.into_iter().map(|(k, v)| (k.to_string(), v)).collect())
}

fn s(v: &str) -> Json {
    Json::Str(v.to_string())
}

fn tweet_entry(id: &str) -> Json {
    obj(vec![("entryId", s(&format!("tweet-{}", id))), ("rest_id", s(id))])
}

fn cursor_entry(value: Option<&str>) -> Json {
    let content = match value {
        Some(v) => obj(vec![("value", s(v))]),
        None => obj(vec![]),
    };
    obj(vec![("entryId", s("cursor-bottom-1")), ("content", content)])
}

fn page_doc(entries: Vec<Json>) -> Json {
    obj(vec![(
        "data",
        obj(vec![(
            "user",
            obj(vec![(
                "result",
                obj(vec![(
                    "timeline_v2",
                    obj(vec![(
                        "timeline",
                        obj(vec![(
                            "instructions",
                            Json::Arr(vec![obj(vec![
                                ("type", s("TimelineAddEntries")),
                                ("entries", Json::Arr(entries)),
                            ])]),
                        )]),
                    )]),
                )]),
            )]),
        )]),
    )])
}

fn entry_ids(entries: &[Json]) -> Vec<String> {
    entries
        .iter()
        .map(|e| match e.get("rest_id").and_then(|v| v.as_str()) {
            Some(v) => v.clone(),
            None => String::new(),
        })
        .collect()
}

#[test]
fn page_parsing_collects_rows_and_cursor() {
    let doc = page_doc(vec![tweet_entry("1"), cursor_entry(Some("CUR1")), tweet_entry("2")]);
    let page = parse_likes_response(doc);
    assert_eq!(entry_ids(&page.entries), vec!["1", "2"]);
    assert_eq!(page.cursor, Some("CUR1".to_string()));
}

#[test]
fn last_cursor_row_wins_even_empty() {
    let doc = page_doc(vec![cursor_entry(Some("CUR1")), cursor_entry(None)]);
    let page = parse_likes_response(doc);
    assert_eq!(page.cursor, None);
}

#[test]
fn malformed_page_contributes_nothing() {
    let page = parse_likes_response(obj(vec![("data", obj(vec![]))]));
    assert!(page.entries.is_empty());
    assert_eq!(page.cursor, None);
}

#[test]
fn non_add_entries_instructions_are_skipped() {
    let doc = obj(vec![(
        "data",
        obj(vec![(
            "user",
            obj(vec![(
                "result",
                obj(vec![(
                    "timeline_v2",
                    obj(vec![(
                        "timeline",
                        obj(vec![(
                            "instructions",
                            Json::Arr(vec![obj(vec![
                                ("type", s("TimelineClearCache")),
                                ("entries", Json::Arr(vec![tweet_entry("9")])),
                            ])]),
                        )]),
                    )]),
                )]),
            )]),
        )]),
    )]);
    let page = parse_likes_response(doc);
    assert!(page.entries.is_empty());
}

fn page(ids: Vec<&str>, cursor: Option<&str>) -> Page {
    Page {
        entries: ids.into_iter().map(tweet_entry).collect(),
        cursor: cursor.map(|c| c.to_string()),
    }
}

#[test]
fn pagination_terminates_on_absent_cursor() {
    let pages = vec![page(vec!["1", "2"], Some("A")), page(vec!["3"], Some("B")), page(vec!["4"], None)];
    let got = fetch_all_from_pages(pages, true).expect("traversal should finish");
    assert_eq!(entry_ids(&got), vec!["1", "2", "3", "4"]);
}

#[test]
fn pagination_terminates_on_repeated_cursor() {
    let pages = vec![
        page(vec!["1"], Some("A")),
        page(vec!["2"], Some("B")),
        page(vec!["3"], Some("B")),
        page(vec!["never"], Some("C")),
    ];
    let got = fetch_all_from_pages(pages, true).expect("traversal should finish");
    assert_eq!(entry_ids(&got), vec!["1", "2", "3"]);
}

#[test]
fn single_page_mode_fetches_exactly_one_page() {
    let pages = vec![page(vec!["1"], Some("A")), page(vec!["never"], Some("B"))];
    let got = fetch_all_from_pages(pages, false).expect("one page is enough");
    assert_eq!(entry_ids(&got), vec!["1"]);
}

#[test]
fn incomplete_mock_is_reported() {
    let pages = vec![page(vec!["1"], Some("A"))];
    assert!(fetch_all_from_pages(pages, true).is_none());
}

#[test]
fn next_page_decision() {
    let prev = Some("A".to_string());
    assert!(matches!(next_page_action(false, &None, &Some("B".to_string())), PageStep::Stop));
    assert!(matches!(next_page_action(true, &prev, &None), PageStep::Stop));
    assert!(matches!(next_page_action(true, &prev, &Some("A".to_string())), PageStep::Stop));
    match next_page_action(true, &prev, &Some("B".to_string())) {
        PageStep::Continue(c) => assert_eq!(c, "B"),
        PageStep::Stop => panic!("should continue on a fresh cursor"),
    }
}
