use castiron::config::{convert_theme_string_to_enum, CastironConfig, ThemeKind};
use castiron::dates::normalize_publish_date;
use castiron::downloads::{
    check_thumbnail_exists, episode_file_path, parse_file_extension_from_image_url,
    thumbnail_path, trailing_extension,
};
use castiron::episodes::{mark_episodes_deleted_if_file_nonexistent, Episode};
use castiron::errors::CustomError;
use castiron::feeds::{feed_xml_path, plan_feed_refresh, FeedMeta};
use castiron::sync::plan_sync;

fn feed(id: i32, url: &str) -> FeedMeta {
    FeedMeta {
        id,
        feed_url: String::from(url),
        xml_file_path: None,
        feed_title: None,
        image_file_path: None,
    }
}

fn episode(id: i32, guid: &str, downloaded: bool) -> Episode {
    Episode {
        id,
        guid: String::from(guid),
        title: String::new(),
        date: String::new(),
        played: false,
        played_seconds: 0,
        file_name: format!("{guid}.mp3"),
        url: String::new(),
        feed_id: 1,
        downloaded,
    }
}

fn doc_with_one_item(title: &str, guid: &str) -> String {
    format!(
        "<rss><channel><title>{title}</title><item><guid>{guid}</guid><enclosure url=\"https://e.com/{guid}.mp3\" type=\"audio/mpeg\"/></item></channel></rss>"
    )
}

#[test]
fn one_failed_feed_does_not_disturb_the_others() {
    let feeds = vec![
        feed(1, "https://one.example/feed"),
        feed(2, "https://two.example/feed"),
        feed(3, "https://three.example/feed"),
    ];
    let docs = vec![
        Some(doc_with_one_item("One", "g1")),
        None, // feed 2's fetch failed this round
        Some(doc_with_one_item("Three", "g3")),
    ];
    let plan = plan_sync(&feeds, &docs);
    let guids: Vec<&str> = plan.episodes.iter().map(|e| e.guid.as_str()).collect();
    assert_eq!(guids, vec!["g1", "g3"]);
    assert_eq!(plan.episodes[0].feed_id, 1);
    assert_eq!(plan.episodes[1].feed_id, 3);
    assert_eq!(plan.failed_feeds, vec![2]);
    let titles: Vec<(i32, &str)> = plan
        .title_updates
        .iter()
        .map(|(id, t)| (*id, t.as_str()))
        .collect();
    assert_eq!(titles, vec![(1, "One"), (3, "Three")]);
}

#[test]
fn malformed_feed_counts_as_failed() {
    let feeds = vec![feed(1, "https://one.example/feed")];
    let docs = vec![Some(String::from("<rss><channel>"))];
    let plan = plan_sync(&feeds, &docs);
    assert_eq!(plan.episodes.len(), 0);
    assert_eq!(plan.failed_feeds, vec![1]);
}

#[test]
fn liveness_flag_true_without_file_becomes_false() {
    let eps = vec![episode(1, "a", true)];
    let present = vec![false];
    let (corrected, updates) = mark_episodes_deleted_if_file_nonexistent(&eps, &present);
    assert!(!corrected[0].downloaded);
    assert_eq!(updates, vec![(1, false)]);
}

#[test]
fn liveness_file_without_flag_becomes_true() {
    let eps = vec![episode(2, "b", false)];
    let present = vec![true];
    let (corrected, updates) = mark_episodes_deleted_if_file_nonexistent(&eps, &present);
    assert!(corrected[0].downloaded);
    assert_eq!(updates, vec![(2, true)]);
}

#[test]
fn liveness_consistent_state_issues_no_write() {
    let eps = vec![episode(1, "a", true), episode(2, "b", false)];
    let present = vec![true, false];
    let (corrected, updates) = mark_episodes_deleted_if_file_nonexistent(&eps, &present);
    assert_eq!(updates.len(), 0);
    assert!(corrected[0].downloaded);
    assert!(!corrected[1].downloaded);
}

#[test]
fn refresh_plan_uses_recorded_path() {
    let mut f = feed(4, "https://x.example/feed");
    f.xml_file_path = Some(String::from("./shows/kept.xml"));
    let plan = plan_feed_refresh(&f);
    assert_eq!(plan.xml_path, "./shows/kept.xml");
    assert!(!plan.record_path);
}

#[test]
fn refresh_plan_derives_and_records_default_path() {
    let f = feed(12, "https://x.example/feed");
    let plan = plan_feed_refresh(&f);
    assert_eq!(plan.xml_path, "./shows/12.xml");
    assert!(plan.record_path);
    assert_eq!(feed_xml_path(12), "./shows/12.xml");
}

#[test]
fn storage_paths_are_derived() {
    assert_eq!(episode_file_path("g.mp3"), "./episodes/g.mp3");
    assert_eq!(thumbnail_path(3, "png"), "./thumbnails/3.png");
}

#[test]
fn thumbnail_presence_is_checked_against_observed_files() {
    let present = vec![
        String::from("./thumbnails/1.png"),
        String::from("./thumbnails/3.jpg"),
    ];
    assert!(check_thumbnail_exists(&present, 3, "jpg"));
    assert!(!check_thumbnail_exists(&present, 3, "png"));
    assert!(!check_thumbnail_exists(&present, 2, "jpg"));
}

#[test]
fn image_url_extension_strips_query_and_fragment() {
    let ext = parse_file_extension_from_image_url(
        "https://example.com/art/cover.png?size=600#frag",
    )
    .unwrap();
    assert_eq!(ext, "png");
}

#[test]
fn image_url_extension_rejects_bad_url() {
    let r = parse_file_extension_from_image_url("not a url");
    assert!(matches!(r, Err(CustomError::ParseError)));
}

#[test]
fn trailing_extension_defaults_to_jpg() {
    assert_eq!(trailing_extension("ab"), "jpg");
    assert_eq!(trailing_extension("x/y.png"), "png");
}

#[test]
fn publish_dates_are_validated() {
    assert!(normalize_publish_date("Wed, 01 Jan 2020 00:00:00 +0000").is_some());
    assert!(normalize_publish_date("2020-01-01").is_none());
    assert!(normalize_publish_date("").is_none());
}

#[test]
fn theme_names_resolve_with_default_fallback() {
    assert_eq!(convert_theme_string_to_enum("Dracula"), ThemeKind::Dracula);
    assert_eq!(convert_theme_string_to_enum("Kanagawa Wave"), ThemeKind::KanagawaWave);
    assert_eq!(convert_theme_string_to_enum("no such theme"), ThemeKind::Light);
}

#[test]
fn default_config_uses_light_theme() {
    let c = CastironConfig::default();
    assert_eq!(c.theme, "Light");
    assert!(!c.auto_dl_new);
    assert!(!c.auto_rm_after_listen);
}

#[test]
fn error_classes_describe_themselves() {
    assert_eq!(CustomError::XmlError.describe(), "feed parse error");
    assert_eq!(CustomError::SqlError.describe(), "storage error");
}
