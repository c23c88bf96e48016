use castiron::episodes::Episode;
use castiron::reconcile::{reconcile_episodes, sanitize_title};

fn record(guid: &str, feed_id: i32, date: &str) -> Episode {
    Episode {
        id: 0,
        guid: String::from(guid),
        title: format!("Episode {guid}"),
        date: String::from(date),
        played: false,
        played_seconds: 0,
        file_name: format!("{guid}.mp3"),
        url: format!("https://example.com/{guid}.mp3"),
        feed_id,
        downloaded: false,
    }
}

const GOOD_DATE: &str = "Wed, 01 Jan 2020 00:00:00 +0000";

#[test]
fn inserts_new_records_once() {
    let db: Vec<Episode> = Vec::new();
    let incoming = vec![record("a", 1, GOOD_DATE), record("b", 1, GOOD_DATE)];
    let out = reconcile_episodes(&db, &incoming);
    assert_eq!(out.episodes.len(), 2);
    assert_eq!(out.inserted.len(), 2);
    assert_eq!(out.warnings.len(), 0);
    assert_eq!(out.episodes[0].guid, "a");
    assert_eq!(out.episodes[1].guid, "b");
}

#[test]
fn reconciliation_is_idempotent() {
    let db: Vec<Episode> = Vec::new();
    let incoming = vec![record("a", 1, GOOD_DATE), record("b", 1, GOOD_DATE)];
    let once = reconcile_episodes(&db, &incoming);
    // mark some state on the persisted rows, as a user would
    let mut persisted = once.episodes;
    persisted[0].played = true;
    persisted[0].played_seconds = 42;
    persisted[1].downloaded = true;
    let twice = reconcile_episodes(&persisted, &incoming);
    assert_eq!(twice.inserted.len(), 0);
    assert_eq!(twice.episodes.len(), 2);
    assert!(twice.episodes[0].played);
    assert_eq!(twice.episodes[0].played_seconds, 42);
    assert!(twice.episodes[1].downloaded);
}

#[test]
fn same_guid_different_feed_is_a_new_row() {
    let db: Vec<Episode> = Vec::new();
    let incoming = vec![record("a", 1, GOOD_DATE), record("a", 2, GOOD_DATE)];
    let out = reconcile_episodes(&db, &incoming);
    assert_eq!(out.episodes.len(), 2);
    assert_eq!(out.episodes[0].feed_id, 1);
    assert_eq!(out.episodes[1].feed_id, 2);
}

#[test]
fn duplicate_record_in_one_batch_is_inserted_once() {
    let db: Vec<Episode> = Vec::new();
    let incoming = vec![record("a", 1, GOOD_DATE), record("a", 1, GOOD_DATE)];
    let out = reconcile_episodes(&db, &incoming);
    assert_eq!(out.episodes.len(), 1);
    assert_eq!(out.inserted.len(), 1);
}

#[test]
fn invalid_date_skips_record_with_warning_not_batch() {
    let db: Vec<Episode> = Vec::new();
    let incoming = vec![
        record("bad", 1, "not a date"),
        record("good", 1, GOOD_DATE),
    ];
    let out = reconcile_episodes(&db, &incoming);
    assert_eq!(out.episodes.len(), 1);
    assert_eq!(out.episodes[0].guid, "good");
    assert_eq!(out.warnings, vec![String::from("bad")]);
}

#[test]
fn inserted_date_is_normalized() {
    let db: Vec<Episode> = Vec::new();
    let incoming = vec![record("a", 1, GOOD_DATE)];
    let out = reconcile_episodes(&db, &incoming);
    // the stored form comes from the date parser, not the feed text
    assert_ne!(out.episodes[0].date, "");
    assert_ne!(out.episodes[0].date, GOOD_DATE);
    assert!(out.episodes[0].date.starts_with("2020-01-01"));
}

#[test]
fn sanitize_title_doubles_quotes() {
    assert_eq!(sanitize_title("It's \"fine\""), "It''s \"\"fine\"\"");
    assert_eq!(sanitize_title("plain"), "plain");
    assert_eq!(sanitize_title(""), "");
}
