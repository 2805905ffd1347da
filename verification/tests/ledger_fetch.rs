use x_likes_downloader::fetch::FetchOutcome;
use x_likes_downloader::fetch::Precheck;
use x_likes_downloader::fetch::format_file_prefix;
use x_likes_downloader::fetch::item_succeeded;
use x_likes_downloader::fetch::media_filename;
use x_likes_downloader::fetch::precheck_destination;
use x_likes_downloader::fetch::transfer_complete;
use x_likes_downloader::json::Json;
use x_likes_downloader::ledger::Ledger;
use x_likes_downloader::run::EntryPlan;
use x_likes_downloader::run::RunStats;
use x_likes_downloader::run::plan_entry;
use x_likes_downloader::run::plan_media_download;

#[test]
fn existing_file_skips_the_network() {
    assert!(matches!(precheck_destination(true, 12), Precheck::SkipExisting));
}

#[test]
fn zero_byte_file_is_deleted_and_refetched() {
    assert!(matches!(precheck_destination(true, 0), Precheck::DeleteThenFetch));
    assert!(matches!(precheck_destination(false, 0), Precheck::Fetch));
}

#[test]
fn completeness_check() {
    assert!(transfer_complete(100, &Some(100)));
    assert!(!transfer_complete(99, &Some(100)));
    assert!(transfer_complete(99, &None));
}

#[test]
fn prefix_formatting() {
    assert_eq!(format_file_prefix("{USERNAME} {ID}", "alice", "42"), "alice_42");
    assert_eq!(format_file_prefix("{USERNAME} {ID}", "", "42"), "_42");
    assert_eq!(format_file_prefix("x {USERNAME} y {ID}", "a b", "1"), "x_a_b_y_1");
}

#[test]
fn filename_from_url_path() {
    assert_eq!(
        media_filename("alice_42", "https://video.twimg.com/amplify/video.mp4"),
        Some("alice_42_video.mp4".to_string())
    );
    assert_eq!(media_filename("p", "https://host"), Some("p_".to_string()));
    assert_eq!(media_filename("p", "not a url"), None);
    assert_eq!(media_filename("p", "mailto:a@b"), Some("p_unknown".to_string()));
}

#[test]
fn item_outcome_aggregation() {
    assert!(item_succeeded(&vec![FetchOutcome::Failed, FetchOutcome::Success]));
    assert!(!item_succeeded(&vec![FetchOutcome::Failed, FetchOutcome::Failed]));
    assert!(!item_succeeded(&vec![]));
}

#[test]
fn ledger_loads_trimmed_unique_lines() {
    let led = Ledger::from_content("111\n222\n 111 \n");
    assert_eq!(led.downloaded_count(), 2);
    assert!(led.is_downloaded("111"));
    assert!(led.is_downloaded("222"));
    assert!(!led.is_downloaded("333"));
}

#[test]
fn ledger_grows_monotonically() {
    let mut led = Ledger::new();
    assert_eq!(led.downloaded_count(), 0);
    led.record_downloaded_id("a");
    led.record_downloaded_id("b");
    led.record_downloaded_id("a");
    assert_eq!(led.downloaded_count(), 2);
    assert!(led.is_downloaded("a"));
    assert!(led.is_downloaded("b"));
}

#[test]
fn recorded_ids_are_not_planned_again() {
    let mut led = Ledger::new();
    led.record_downloaded_id("42");
    let entry = Json::Obj(vec![("rest_id".to_string(), Json::Str("42".to_string()))]);
    assert!(matches!(plan_entry(&entry, &led), EntryPlan::AlreadyDone(_)));
    let fresh = Json::Obj(vec![("rest_id".to_string(), Json::Str("43".to_string()))]);
    match plan_entry(&fresh, &led) {
        EntryPlan::Process(id) => assert_eq!(id, "43"),
        _ => panic!("a new identifier should be processed"),
    }
    assert!(matches!(plan_entry(&Json::Obj(vec![]), &led), EntryPlan::NoId));
}

#[test]
fn media_plan_for_photo_item() {
    let media = Json::Obj(vec![
        ("type".to_string(), Json::Str("photo".to_string())),
        ("media_url_https".to_string(), Json::Str("https://img/a.jpg".to_string())),
    ]);
    let tweet = Json::Obj(vec![(
        "legacy".to_string(),
        Json::Obj(vec![(
            "entities".to_string(),
            Json::Obj(vec![("media".to_string(), Json::Arr(vec![media]))]),
        )]),
    )]);
    let plan = plan_media_download(&tweet, "42", "{USERNAME} {ID}").expect("one media reference");
    assert_eq!(plan.prefix, "_42");
    assert_eq!(plan.urls, vec!["https://img/a.jpg".to_string()]);
    assert!(plan_media_download(&Json::Obj(vec![]), "42", "{USERNAME} {ID}").is_none());
}

#[test]
fn run_stats_counting() {
    let mut stats = RunStats::new();
    stats.apply_item_result(&Some(true));
    stats.apply_item_result(&Some(false));
    stats.apply_item_result(&None);
    stats.apply_item_result(&Some(true));
    assert_eq!(stats.processed, 3);
    assert_eq!(stats.succeeded, 2);
    assert_eq!(stats.failed, 1);
}
