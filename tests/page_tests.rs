use rcast::errors::DatabaseError;
use rcast::image_cache::{default_texture_pixels, url_to_cache_key};
use rcast::migrations::InitialMigration;
use rcast::pages::{AddPodcastModal, HomePage, MediaControls, PodcastDetailPage};
use rcast::text::{i64_to_decimal, lex_less_eq, occurs, string_of_chars, u64_to_decimal};
use rcast::types::{find_episode, Episode, EpisodeAction, Page, Podcast, SortOrder};

fn show(id: i32, title: &str, description: &str, updated_at: i64) -> Podcast {
    Podcast {
        id: Some(id),
        url: format!("http://example.com/{}", id),
        title: title.to_string(),
        description: description.to_string(),
        image_url: String::new(),
        created_at: 0,
        updated_at,
    }
}

fn episode(id: i32, title: &str, publish_date: i64) -> Episode {
    Episode {
        id: Some(id),
        podcast_id: 1,
        title: title.to_string(),
        description: String::new(),
        url: format!("http://example.com/{}.mp3", id),
        audio_type: "audio/mpeg".to_string(),
        publish_date,
        is_played: false,
        duration: 0,
        created_at: 0,
        updated_at: 0,
    }
}

fn titles(ps: &[Podcast]) -> Vec<&str> {
    ps.iter().map(|p| p.title.as_str()).collect()
}

#[test]
fn home_page_starts_unsorted() {
    let page = HomePage::new(vec![show(1, "b", "", 0), show(2, "a", "", 0)]);
    assert_eq!(titles(&page.filtered_podcasts), vec!["b", "a"]);
    assert_eq!(page.sort_order, SortOrder::AToZ);
}

#[test]
fn home_page_sorts_by_title() {
    let mut page = HomePage::new(vec![show(1, "beta", "", 0), show(2, "Alpha", "", 0), show(3, "alpha", "", 0)]);
    page.apply_filters();
    assert_eq!(titles(&page.filtered_podcasts), vec!["Alpha", "alpha", "beta"]);
    page.sort_order = SortOrder::ZToA;
    page.apply_filters();
    assert_eq!(titles(&page.filtered_podcasts), vec!["beta", "alpha", "Alpha"]);
}

#[test]
fn home_page_sort_is_stable() {
    let mut page = HomePage::new(vec![show(1, "same", "", 5), show(2, "same", "", 1), show(3, "same", "", 5)]);
    page.sort_order = SortOrder::PublishDateDesc;
    page.apply_filters();
    let ids: Vec<i32> = page.filtered_podcasts.iter().map(|p| p.id.unwrap()).collect();
    assert_eq!(ids, vec![1, 3, 2]);
    page.sort_order = SortOrder::PublishDateAsc;
    page.apply_filters();
    let ids: Vec<i32> = page.filtered_podcasts.iter().map(|p| p.id.unwrap()).collect();
    assert_eq!(ids, vec![2, 1, 3]);
}

#[test]
fn home_page_search_ignores_case() {
    let mut page = HomePage::new(vec![
        show(1, "Rust Weekly", "systems", 0),
        show(2, "Cooking", "Recipes with RUST-colored sauce", 0),
        show(3, "Gardening", "plants", 0),
    ]);
    page.search_query = "RuSt".to_string();
    page.apply_filters();
    assert_eq!(titles(&page.filtered_podcasts), vec!["Cooking", "Rust Weekly"]);
    page.search_query = "nothing".to_string();
    page.apply_filters();
    assert!(page.filtered_podcasts.is_empty());
}

#[test]
fn home_page_refresh_relists() {
    let mut page = HomePage::new(vec![]);
    page.refresh(vec![show(1, "z", "", 0), show(2, "y", "", 0)]);
    assert_eq!(titles(&page.filtered_podcasts), vec!["y", "z"]);
    assert_eq!(page.podcasts.len(), 2);
}

#[test]
fn publish_labels() {
    let day = 86400;
    let now = 100 * day;
    assert_eq!(episode(1, "t", now - 10).format_publish_date(now), "Today");
    assert_eq!(episode(1, "t", now + 10).format_publish_date(now), "Today");
    assert_eq!(episode(1, "t", now - day).format_publish_date(now), "1 day ago");
    assert_eq!(episode(1, "t", now - 3 * day - 5).format_publish_date(now), "3 days ago");
    assert_eq!(episode(1, "t", now - 7 * day).format_publish_date(now), "1 week ago");
    assert_eq!(episode(1, "t", now - 21 * day).format_publish_date(now), "3 weeks ago");
    assert_eq!(episode(1, "t", 0).format_publish_date(now), "01/01/1970");
    assert_eq!(episode(1, "t", 1055217600).format_publish_date(now), "06/10/2003");
    assert_eq!(episode(1, "t", i64::MIN).format_publish_date(0), "Unknown");
}

#[test]
fn detail_page_filters_and_orders_episodes() {
    let day = 86400;
    let now = 1_000 * day;
    let mut page = PodcastDetailPage::new();
    page.episodes = vec![episode(1, "Intro", now - 30 * day), episode(2, "Deep Dive", now), episode(3, "Outro", now - 2 * day)];
    page.apply_filters(now);
    let ids: Vec<i32> = page.filtered_episodes.iter().map(|e| e.id.unwrap()).collect();
    assert_eq!(ids, vec![2, 3, 1]);
    page.search_query = "DAYS".to_string();
    page.apply_filters(now);
    let ids: Vec<i32> = page.filtered_episodes.iter().map(|e| e.id.unwrap()).collect();
    assert_eq!(ids, vec![3]);
    page.search_query = "dive".to_string();
    page.sort_order = SortOrder::AToZ;
    page.apply_filters(now);
    assert_eq!(page.filtered_episodes.len(), 1);
    assert_eq!(page.filtered_episodes[0].title, "Deep Dive");
}

#[test]
fn detail_page_load_picks_show() {
    let mut page = PodcastDetailPage::new();
    page.load(2, Some(vec![show(1, "a", "", 0), show(2, "b", "", 0)]), vec![episode(5, "x", 0)], 10);
    assert_eq!(page.podcast.as_ref().map(|p| p.title.as_str()), Some("b"));
    assert_eq!(page.episodes.len(), 1);
    assert_eq!(page.filtered_episodes.len(), 1);
    page.load(9, None, vec![], 10);
    assert_eq!(page.podcast.as_ref().map(|p| p.title.as_str()), Some("b"));
    page.load(9, Some(vec![]), vec![], 10);
    assert!(page.podcast.is_none());
}

#[test]
fn modal_validation() {
    let mut m = AddPodcastModal::new();
    assert!(!m.show);
    m.open();
    assert!(m.show);
    assert!(!m.validate_url());
    assert_eq!(m.error_message, None);
    m.url_input = "not a url".to_string();
    assert!(!m.validate_url());
    assert_eq!(m.error_message.as_deref(), Some("Invalid URL"));
    m.url_input = "https://example.com/feed.rss".to_string();
    assert!(m.validate_url());
    assert_eq!(m.error_message, None);
    m.close();
    assert!(!m.show);
    assert!(m.url_input.is_empty());
    let _controls = MediaControls;
}

#[test]
fn artwork_cache_key() {
    let url = "http://example.com/art/cover.PNG";
    assert_eq!(url_to_cache_key(url), format!("{:x}.PNG", md5::compute(url.as_bytes())));
    let no_dot = "abc";
    assert_eq!(url_to_cache_key(no_dot), format!("{:x}.abc", md5::compute(no_dot.as_bytes())));
}

#[test]
fn placeholder_artwork() {
    let px = default_texture_pixels();
    assert_eq!(px.len(), 200 * 200);
    assert_eq!(px[0], (60, 60, 65));
    assert_eq!(px[39], (177, 177, 182));
    assert_eq!(px[40], (60, 60, 65));
    assert_eq!(px[200 + 1], (66, 66, 71));
}

#[test]
fn database_error_messages() {
    assert_eq!(DatabaseError::generic_error("boom".to_string()).message(), "Database error: boom");
    assert_eq!(DatabaseError::not_found("episode 3".to_string()).message(), "Not found: episode 3");
    assert_eq!(DatabaseError::migration_error("x".to_string()).message(), "Migration error: x");
    assert_eq!(DatabaseError::LockPoisoned.message(), "Lock Poisoned ");
}

#[test]
fn decimal_rendering() {
    assert_eq!(u64_to_decimal(0), "0");
    assert_eq!(u64_to_decimal(u64::MAX), u64::MAX.to_string());
    assert_eq!(i64_to_decimal(i64::MIN), i64::MIN.to_string());
    assert_eq!(i64_to_decimal(-42), "-42");
}

#[test]
fn text_helpers() {
    let c = |s: &str| s.chars().collect::<Vec<char>>();
    assert!(occurs(&c(""), &c("abc")));
    assert!(occurs(&c("bc"), &c("abc")));
    assert!(!occurs(&c("cb"), &c("abc")));
    assert!(lex_less_eq(&c("ab"), &c("abc")));
    assert!(!lex_less_eq(&c("b"), &c("abc")));
    assert!(lex_less_eq(&c("B"), &c("a")));
    assert_eq!(string_of_chars(&c("héllo")), "héllo");
}

#[test]
fn misc_records() {
    assert_eq!(InitialMigration.name(), "Initial Migration");
    let eps = vec![episode(3, "a", 0), episode(4, "b", 0), episode(4, "c", 0)];
    assert_eq!(find_episode(&eps, 4), Some(1));
    assert_eq!(find_episode(&eps, 9), None);
    assert_eq!(EpisodeAction::Play(2), EpisodeAction::Play(2));
    assert_ne!(Page::PodcastDetail(1), Page::Home);
}
