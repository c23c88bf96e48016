use castiron::episodes::Episode;
use castiron::errors::CustomError;
use castiron::parser::{derive_file_name, parse_feed, record_to_episode, ParseWarning};

fn feed_with_items(items: &str) -> String {
    let mut doc = String::from(
        "<?xml version=\"1.0\" encoding=\"UTF-8\"?>\n<rss version=\"2.0\"><channel><title>Good Show</title><image><url>https://example.com/art/cover.png?size=600</url></image>",
    );
    doc.push_str(items);
    doc.push_str("</channel></rss>");
    doc
}

#[test]
fn parses_channel_title_and_image() {
    let doc = feed_with_items("");
    let parsed = parse_feed(&doc).unwrap();
    assert_eq!(parsed.feed_title.as_deref(), Some("Good Show"));
    assert_eq!(
        parsed.image_url.as_deref(),
        Some("https://example.com/art/cover.png?size=600")
    );
    assert_eq!(parsed.episodes.len(), 0);
    assert_eq!(parsed.warnings.len(), 0);
}

#[test]
fn parses_all_five_items_not_just_the_first() {
    let mut items = String::new();
    for k in 1..=5 {
        items.push_str(&format!(
            "<item><title>Ep {k}</title><pubDate>Wed, 0{k} Jan 2020 00:00:00 +0000</pubDate><guid>guid-{k}</guid><enclosure url=\"https://example.com/{k}.mp3\" type=\"audio/mpeg\"/></item>"
        ));
    }
    let doc = feed_with_items(&items);
    let parsed = parse_feed(&doc).unwrap();
    assert_eq!(parsed.episodes.len(), 5);
    for (idx, rec) in parsed.episodes.iter().enumerate() {
        let k = idx + 1;
        assert_eq!(rec.guid, format!("guid-{k}"));
        assert_eq!(rec.title, format!("Ep {k}"));
        assert_eq!(rec.url, format!("https://example.com/{k}.mp3"));
        assert_eq!(rec.mime_type.as_deref(), Some("audio/mpeg"));
    }
}

#[test]
fn item_without_guid_is_skipped_with_warning() {
    let doc = feed_with_items(
        "<item><title>No guid</title><enclosure url=\"https://e.com/a.mp3\"/></item><item><guid>ok</guid><enclosure url=\"https://e.com/b.mp3\"/></item>",
    );
    let parsed = parse_feed(&doc).unwrap();
    assert_eq!(parsed.episodes.len(), 1);
    assert_eq!(parsed.episodes[0].guid, "ok");
    assert_eq!(parsed.warnings.len(), 1);
    assert!(matches!(parsed.warnings[0], ParseWarning::MissingGuid));
}

#[test]
fn item_without_enclosure_url_is_skipped_with_warning() {
    let doc = feed_with_items(
        "<item><guid>g1</guid><enclosure type=\"audio/mpeg\"/></item><item><guid>g2</guid></item>",
    );
    let parsed = parse_feed(&doc).unwrap();
    assert_eq!(parsed.episodes.len(), 0);
    assert_eq!(parsed.warnings.len(), 2);
    match &parsed.warnings[0] {
        ParseWarning::MissingEnclosureUrl { guid } => assert_eq!(guid, "g1"),
        other => panic!("unexpected warning {:?}", other),
    }
    match &parsed.warnings[1] {
        ParseWarning::MissingEnclosure { guid } => assert_eq!(guid, "g2"),
        other => panic!("unexpected warning {:?}", other),
    }
}

#[test]
fn malformed_document_fails_as_a_whole() {
    let r = parse_feed("<rss><channel><title>Broken</unclosed>");
    assert!(matches!(r, Err(CustomError::XmlError)));
    let r2 = parse_feed("<rss><channel></rss></channel>");
    assert!(matches!(r2, Err(CustomError::XmlError)));
}

#[test]
fn cdata_and_entities_are_decoded() {
    let doc = feed_with_items(
        "<item><title><![CDATA[Q & A]]></title><guid>g&amp;1</guid><enclosure url=\"https://e.com/a.mp3?a=1&amp;b=2\"/></item>",
    );
    let parsed = parse_feed(&doc).unwrap();
    assert_eq!(parsed.episodes.len(), 1);
    assert_eq!(parsed.episodes[0].title, "Q & A");
    assert_eq!(parsed.episodes[0].guid, "g&1");
    assert_eq!(parsed.episodes[0].url, "https://e.com/a.mp3?a=1&b=2");
}

#[test]
fn derived_filename_maps_mpeg_to_mp3() {
    assert_eq!(derive_file_name("abc123", Some("audio/mpeg")), "abc123.mp3");
}

#[test]
fn derived_filename_defaults_to_mp3() {
    assert_eq!(derive_file_name("abc123", None), "abc123.mp3");
    assert_eq!(derive_file_name("abc123", Some("audio/x-unknown")), "abc123.mp3");
}

#[test]
fn derived_filename_full_mime_table() {
    assert_eq!(derive_file_name("g", Some("audio/aac")), "g.aac");
    assert_eq!(derive_file_name("g", Some("audio/ogg")), "g.oga");
    assert_eq!(derive_file_name("g", Some("audio/opus")), "g.opus");
    assert_eq!(derive_file_name("g", Some("audio/wav")), "g.wav");
    assert_eq!(derive_file_name("g", Some("audio/webm")), "g.weba");
}

#[test]
fn record_becomes_unplayed_episode_with_derived_name() {
    let doc = feed_with_items(
        "<item><title>T</title><pubDate>D</pubDate><guid>gg</guid><enclosure url=\"https://e.com/a.ogg\" type=\"audio/ogg\"/></item>",
    );
    let parsed = parse_feed(&doc).unwrap();
    let e: Episode = record_to_episode(&parsed.episodes[0], 7);
    assert_eq!(e.id, 0);
    assert_eq!(e.guid, "gg");
    assert_eq!(e.title, "T");
    assert_eq!(e.date, "D");
    assert_eq!(e.file_name, "gg.oga");
    assert_eq!(e.url, "https://e.com/a.ogg");
    assert_eq!(e.feed_id, 7);
    assert!(!e.played && !e.downloaded);
    assert_eq!(e.played_seconds, 0);
}
