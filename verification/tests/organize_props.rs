use x_likes_downloader::organize::FileOrganizer;
use x_likes_downloader::organize::FileStep;
use x_likes_downloader::organize::OrganizeStats;
use x_likes_downloader::organize::author_matches_exec;
use x_likes_downloader::organize::find_target_folder;
use x_likes_downloader::organize::folder_index;
use x_likes_downloader::organize::folder_prefix;

#[test]
fn filename_with_trailing_id() {
    let (author, id) = FileOrganizer::parse_filename("alice_1234567890_photo.jpg")
        .expect("well-formed filename");
    assert_eq!(author, "alice");
    assert_eq!(id, "1234567890");
}

#[test]
fn filename_with_leading_id() {
    let (author, id) = FileOrganizer::parse_filename("1234567890_alice_photo.jpg")
        .expect("well-formed filename");
    assert_eq!(author, "alice");
    assert_eq!(id, "1234567890");
}

#[test]
fn filename_with_too_few_parts_fails() {
    assert!(FileOrganizer::parse_filename("onlytwo_parts.jpg").is_err());
}

#[test]
fn filename_without_digits_fails() {
    assert!(FileOrganizer::parse_filename("a_b_c.jpg").is_err());
}

#[test]
fn multi_token_author_is_joined() {
    let (author, id) = FileOrganizer::parse_filename("cool_artist_99_img.png")
        .expect("well-formed filename");
    assert_eq!(author, "cool_artist");
    assert_eq!(id, "99");
}

#[test]
fn highest_positioned_digit_token_is_the_id() {
    let (author, id) = FileOrganizer::parse_filename("7_alice_99_img.png")
        .expect("well-formed filename");
    assert_eq!(author, "7_alice");
    assert_eq!(id, "99");
}

#[test]
fn extension_is_stripped_at_the_last_dot() {
    let (author, id) = FileOrganizer::parse_filename("a_1_b.tar.gz").expect("parses");
    assert_eq!(author, "a");
    assert_eq!(id, "1");
}

#[test]
fn folder_prefixes() {
    assert_eq!(folder_prefix("alice_fan (123)"), "alice_fan");
    assert_eq!(folder_prefix("bob"), "bob");
    assert_eq!(folder_prefix(" leading"), "");
}

#[test]
fn folder_matching_rules() {
    assert!(author_matches_exec("alice", "alice"));
    assert!(author_matches_exec("alice_fan", "alice"));
    assert!(author_matches_exec("alice", "alice_fan"));
    assert!(!author_matches_exec("alice", "alicefan"));
    assert!(!author_matches_exec("bob", "alice"));
}

#[test]
fn folder_matching_example() {
    let prefixes = vec![folder_prefix("alice_fan (123)"), folder_prefix("bob")];
    assert_eq!(prefixes, vec!["alice_fan".to_string(), "bob".to_string()]);
    assert_eq!(find_target_folder("alice_fan", &prefixes), Some(0));
    assert_eq!(find_target_folder("bob", &prefixes), Some(1));
    assert_eq!(find_target_folder("carol", &prefixes), None);
}

#[test]
fn first_matching_folder_wins() {
    let prefixes = vec!["a".to_string(), "a_b".to_string()];
    assert_eq!(find_target_folder("a_b", &prefixes), Some(0));
}

#[test]
fn duplicate_resolution_counts_deletion_not_error() {
    let mut stats = OrganizeStats::new();
    stats.apply_step(&FileStep::Moved { deleted_dup: true });
    assert_eq!(stats.moved, 1);
    assert_eq!(stats.deleted, 1);
    assert_eq!(stats.errors, 0);
    assert_eq!(stats.skipped, 0);
}

#[test]
fn organize_step_counting() {
    let mut stats = OrganizeStats::new();
    stats.apply_step(&FileStep::Unparsable);
    stats.apply_step(&FileStep::NoFolder);
    stats.apply_step(&FileStep::DuplicateDeleteFailed);
    stats.apply_step(&FileStep::Moved { deleted_dup: false });
    stats.apply_step(&FileStep::MoveFailed { deleted_dup: true });
    assert_eq!(stats.skipped, 2);
    assert_eq!(stats.errors, 2);
    assert_eq!(stats.moved, 1);
    assert_eq!(stats.deleted, 1);
}

#[test]
fn folder_index_dedupes_prefixes() {
    let names = vec![
        "alice_fan (123)".to_string(),
        "bob".to_string(),
        "alice_fan (456)".to_string(),
    ];
    let (prefixes, picks) = folder_index(&names);
    assert_eq!(prefixes, vec!["alice_fan".to_string(), "bob".to_string()]);
    assert_eq!(picks, vec![2, 1]);
}
