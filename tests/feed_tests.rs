use rcast::feed::{
    all_episodes, episode_from_item, episode_from_parts, new_episodes, parse_duration,
    parse_i64_chars, read_feed, subscription_from_feed, sync_podcast_feed, FeedItem, FetchError,
};
use rcast::types::{Episode, Podcast};

fn item(url: Option<&str>, title: Option<&str>) -> FeedItem {
    FeedItem {
        title: title.map(|t| t.to_string()),
        description: None,
        enclosure_url: url.map(|u| u.to_string()),
        enclosure_type: url.map(|_| "audio/ogg".to_string()),
        pub_date: None,
        duration: None,
    }
}

fn stored(podcast_id: i32, url: &str) -> Episode {
    Episode {
        id: Some(1),
        podcast_id,
        title: "old".to_string(),
        description: String::new(),
        url: url.to_string(),
        audio_type: "audio/mpeg".to_string(),
        publish_date: 0,
        is_played: false,
        duration: 0,
        created_at: 0,
        updated_at: 0,
    }
}

fn chars(s: &str) -> Vec<char> {
    s.chars().collect()
}

const FEED: &str = r#"<?xml version="1.0"?>
<rss version="2.0" xmlns:itunes="http://www.itunes.com/dtds/podcast-1.0.dtd">
<channel>
<title>Show</title>
<link>http://example.com</link>
<description>About the show</description>
<image><url>http://example.com/art.png</url><title>Show</title><link>http://example.com</link></image>
<item>
<title>First</title>
<enclosure url="http://example.com/1.mp3" length="1" type="audio/mpeg"/>
<pubDate>Tue, 10 Jun 2003 04:00:00 GMT</pubDate>
<itunes:duration>01:02:03</itunes:duration>
</item>
<item>
<title>No media</title>
</item>
<item>
<title>Second</title>
<description>two</description>
<enclosure url="http://example.com/2.mp3" length="1" type="audio/x-m4a"/>
<itunes:duration>45</itunes:duration>
</item>
<item>
<title>Second again</title>
<enclosure url="http://example.com/2.mp3" length="1" type="audio/mpeg"/>
</item>
</channel>
</rss>"#;

#[test]
fn duration_hours_minutes_seconds() {
    assert_eq!(parse_duration("01:02:03"), 3723);
}

#[test]
fn duration_minutes_seconds() {
    assert_eq!(parse_duration("02:03"), 123);
}

#[test]
fn duration_plain_seconds() {
    assert_eq!(parse_duration("45"), 45);
}

#[test]
fn duration_malformed_is_zero() {
    assert_eq!(parse_duration("bad:data"), 0);
    assert_eq!(parse_duration("1:2:3:4"), 0);
    assert_eq!(parse_duration(""), 0);
    assert_eq!(parse_duration("1:xx"), 0);
    assert_eq!(parse_duration(" 45"), 0);
}

#[test]
fn duration_signs_follow_integer_parsing() {
    assert_eq!(parse_duration("+7"), 7);
    assert_eq!(parse_duration("-5"), -5);
    assert_eq!(parse_duration("1:-1"), 59);
}

#[test]
fn duration_overflow_is_zero() {
    assert_eq!(parse_duration("9223372036854775807:00:00"), 0);
    assert_eq!(parse_duration("99999999999999999999"), 0);
}

#[test]
fn integer_parsing_limits() {
    assert_eq!(parse_i64_chars(&chars("9223372036854775807")), Some(i64::MAX));
    assert_eq!(parse_i64_chars(&chars("-9223372036854775808")), Some(i64::MIN));
    assert_eq!(parse_i64_chars(&chars("9223372036854775808")), None);
    assert_eq!(parse_i64_chars(&chars("-")), None);
    assert_eq!(parse_i64_chars(&chars("+")), None);
    assert_eq!(parse_i64_chars(&chars("007")), Some(7));
}

#[test]
fn episode_defaults_when_fields_missing() {
    let it = FeedItem {
        title: None,
        description: None,
        enclosure_url: Some("http://a/x.mp3".to_string()),
        enclosure_type: None,
        pub_date: None,
        duration: None,
    };
    let e = episode_from_parts(4, &it, None, 1000).unwrap();
    assert_eq!(e.title, "Untitled");
    assert_eq!(e.description, "");
    assert_eq!(e.audio_type, "audio/mpeg");
    assert_eq!(e.url, "http://a/x.mp3");
    assert_eq!(e.publish_date, 1000);
    assert_eq!(e.duration, 0);
    assert_eq!(e.podcast_id, 4);
    assert_eq!(e.id, None);
    assert!(!e.is_played);
    assert_eq!(e.created_at, 1000);
    assert_eq!(e.updated_at, 1000);
}

#[test]
fn episode_without_enclosure_is_skipped() {
    assert!(episode_from_parts(1, &item(None, Some("t")), Some(5), 9).is_none());
}

#[test]
fn episode_uses_parsed_date_and_duration() {
    let mut it = item(Some("http://a/1.mp3"), Some("T"));
    it.pub_date = Some("Tue, 10 Jun 2003 04:00:00 GMT".to_string());
    it.duration = Some("02:03".to_string());
    let e = episode_from_item(2, &it, 77).unwrap();
    assert_eq!(e.publish_date, 1055217600);
    assert_eq!(e.duration, 123);
    assert_eq!(e.audio_type, "audio/ogg");
}

#[test]
fn unparseable_date_falls_back_to_now() {
    let mut it = item(Some("http://a/1.mp3"), Some("T"));
    it.pub_date = Some("yesterday-ish".to_string());
    let e = episode_from_item(2, &it, 77).unwrap();
    assert_eq!(e.publish_date, 77);
}

#[test]
fn merge_keeps_new_urls_once_in_feed_order() {
    let existing = vec![stored(3, "http://a/old.mp3")];
    let items = vec![
        item(Some("http://a/new1.mp3"), Some("n1")),
        item(Some("http://a/old.mp3"), Some("old")),
        item(None, Some("none")),
        item(Some("http://a/new2.mp3"), Some("n2")),
        item(Some("http://a/new1.mp3"), Some("dup")),
    ];
    let out = new_episodes(3, &existing, &items, 10);
    let urls: Vec<&str> = out.iter().map(|e| e.url.as_str()).collect();
    assert_eq!(urls, vec!["http://a/new1.mp3", "http://a/new2.mp3"]);
    assert_eq!(out[0].title, "n1");
    assert_eq!(out[1].title, "n2");
    assert!(out.iter().all(|e| e.podcast_id == 3 && !e.is_played && e.created_at == 10));
}

#[test]
fn merge_result_does_not_depend_on_feed_order() {
    let existing = vec![stored(1, "http://a/b.mp3")];
    let forward = vec![
        item(Some("http://a/a.mp3"), None),
        item(Some("http://a/b.mp3"), None),
        item(Some("http://a/c.mp3"), None),
    ];
    let backward: Vec<FeedItem> = forward.iter().rev().cloned().collect();
    let mut one: Vec<String> = new_episodes(1, &existing, &forward, 0).into_iter().map(|e| e.url).collect();
    let mut two: Vec<String> = new_episodes(1, &existing, &backward, 0).into_iter().map(|e| e.url).collect();
    one.sort();
    two.sort();
    assert_eq!(one, two);
    assert_eq!(one, vec!["http://a/a.mp3".to_string(), "http://a/c.mp3".to_string()]);
}

#[test]
fn merge_with_empty_feed_is_empty() {
    let existing = vec![stored(1, "http://a/b.mp3")];
    assert!(new_episodes(1, &existing, &Vec::new(), 0).is_empty());
}

#[test]
fn second_sync_inserts_nothing() {
    let mut existing = vec![stored(1, "http://a/x.mp3")];
    let items = vec![
        item(Some("http://a/x.mp3"), None),
        item(Some("http://a/y.mp3"), None),
        item(Some("http://a/y.mp3"), None),
        item(Some("http://a/z.mp3"), None),
    ];
    let first = new_episodes(1, &existing, &items, 5);
    assert_eq!(first.len(), 2);
    existing.extend(first);
    let second = new_episodes(1, &existing, &items, 6);
    assert!(second.is_empty());
}

#[test]
fn all_episodes_keeps_every_item_with_media() {
    let items = vec![
        item(Some("http://a/1.mp3"), None),
        item(None, None),
        item(Some("http://a/1.mp3"), None),
    ];
    let out = all_episodes(9, &items, 1);
    assert_eq!(out.len(), 2);
    assert!(out.iter().all(|e| e.podcast_id == 9));
}

#[test]
fn read_feed_extracts_items() {
    let doc = read_feed(FEED.as_bytes()).unwrap();
    assert_eq!(doc.title, "Show");
    assert_eq!(doc.description, "About the show");
    assert_eq!(doc.image_url.as_deref(), Some("http://example.com/art.png"));
    assert_eq!(doc.items.len(), 4);
    assert_eq!(doc.items[0].enclosure_url.as_deref(), Some("http://example.com/1.mp3"));
    assert_eq!(doc.items[0].duration.as_deref(), Some("01:02:03"));
    assert_eq!(doc.items[1].enclosure_url, None);
    assert_eq!(doc.items[2].enclosure_type.as_deref(), Some("audio/x-m4a"));
}

#[test]
fn read_feed_rejects_garbage() {
    assert!(matches!(read_feed(b"this is not xml"), Err(FetchError::ParseError)));
}

#[test]
fn sync_feed_merges_against_existing() {
    let podcast = Podcast {
        id: Some(5),
        url: "http://example.com/feed".to_string(),
        title: "Show".to_string(),
        description: String::new(),
        image_url: String::new(),
        created_at: 0,
        updated_at: 0,
    };
    let existing = vec![stored(5, "http://example.com/1.mp3")];
    let out = sync_podcast_feed(&podcast, &existing, FEED.as_bytes(), 500).unwrap();
    assert_eq!(out.len(), 1);
    assert_eq!(out[0].url, "http://example.com/2.mp3");
    assert_eq!(out[0].title, "Second");
    assert_eq!(out[0].description, "two");
    assert_eq!(out[0].duration, 45);
    assert_eq!(out[0].publish_date, 500);
    assert_eq!(out[0].created_at, 500);
    assert!(sync_podcast_feed(&podcast, &existing, b"<nope", 500).is_err());
}

#[test]
fn subscription_builds_show_and_all_episodes() {
    let (podcast, document) = subscription_from_feed("http://example.com/feed", FEED.as_bytes(), 900).unwrap();
    assert_eq!(podcast.id, None);
    assert_eq!(podcast.url, "http://example.com/feed");
    assert_eq!(podcast.title, "Show");
    assert_eq!(podcast.image_url, "http://example.com/art.png");
    assert_eq!(podcast.created_at, 900);
    assert_eq!(podcast.description, "About the show");
    let episodes = all_episodes(11, &document.items, 900);
    assert_eq!(episodes.len(), 3);
    assert_eq!(episodes[0].publish_date, 1055217600);
    assert_eq!(episodes[0].duration, 3723);
}

#[test]
fn subscription_rejects_garbage() {
    assert!(matches!(subscription_from_feed("http://x", b"garbage", 1), Err(FetchError::ParseError)));
}
