//! The state behind the list pages and the add-subscription dialog: search
//! filtering, ordering, and address validation.
use vstd::prelude::*;
use crate::sorting::{sort_listed, sorted_stable};
use crate::text::{chars_of, decimal, lower_of, lowercase, occurs, occurs_in, u64_to_decimal};
use crate::types::{Episode, Podcast, SortOrder};

verus! {

/// The `%m/%d/%Y` calendar date (UTC) that `chrono` renders for this many
/// seconds since the epoch, or none when the instant is out of its range.
pub uninterp spec fn calendar_date_of(timestamp: i64) -> Option<Seq<char>>;

/// Relies on `chrono::DateTime::from_timestamp` and `DateTime::format`: the
/// text depends on the instant alone.
#[verifier::external_body]
fn calendar_date(timestamp: i64) -> (r: Option<String>)
    ensures
        match r {
            Some(s) => calendar_date_of(timestamp) == Some(s@),
            None => calendar_date_of(timestamp) is None,
        },
{
    chrono::DateTime::from_timestamp(timestamp, 0).map(|dt| dt.format("%m/%d/%Y").to_string())
}

const DAY: i128 = 86400;

/// How an episode's date reads at time `now`: "Today", "N day(s) ago" for up
/// to six whole days, "N week(s) ago" for up to twenty-one, and the calendar
/// date otherwise.
pub open spec fn publish_label(publish_date: i64, now: i64) -> Seq<char> {
    let diff = now - publish_date;
    if -86400 < diff < 86400 {
        "Today"@
    } else if 86400 <= diff < 7 * 86400 {
        let days = diff / 86400;
        decimal(days as nat) + if days == 1 {
            " day ago"@
        } else {
            " days ago"@
        }
    } else if 7 * 86400 <= diff < 22 * 86400 {
        let weeks = (diff / 86400) / 7;
        decimal(weeks as nat) + if weeks == 1 {
            " week ago"@
        } else {
            " weeks ago"@
        }
    } else {
        match calendar_date_of(publish_date) {
            Some(d) => d,
            None => "Unknown"@,
        }
    }
}

impl Episode {
    pub fn format_publish_date(&self, now: i64) -> (r: String)
        ensures
            r@ == publish_label(self.publish_date, now),
    {
        let diff: i128 = now as i128 - self.publish_date as i128;
        proof {
            reveal_strlit("Today");
            reveal_strlit(" day ago");
            reveal_strlit(" days ago");
            reveal_strlit(" week ago");
            reveal_strlit(" weeks ago");
            reveal_strlit("Unknown");
        }
        if -DAY < diff && diff < DAY {
            String::from_str("Today")
        } else if DAY <= diff && diff < 7 * DAY {
            let days: u64 = (diff as u64) / 86400;
            let unit = if days == 1 {
                " day ago"
            } else {
                " days ago"
            };
            u64_to_decimal(days).concat(unit)
        } else if 7 * DAY <= diff && diff < 22 * DAY {
            let weeks: u64 = ((diff as u64) / 86400) / 7;
            let unit = if weeks == 1 {
                " week ago"
            } else {
                " weeks ago"
            };
            u64_to_decimal(weeks).concat(unit)
        } else {
            match calendar_date(self.publish_date) {
                Some(d) => d,
                None => String::from_str("Unknown"),
            }
        }
    }
}

/// Whether a show matches a lowercased search query.
pub open spec fn podcast_matches(p: Podcast, query: Seq<char>) -> bool {
    query.len() == 0 || occurs_in(query, lower_of(p.title@)) || occurs_in(
        query,
        lower_of(p.description@),
    )
}

pub open spec fn matching_podcasts(s: Seq<Podcast>, query: Seq<char>) -> Seq<Podcast>
    decreases s.len(),
{
    if s.len() == 0 {
        s
    } else {
        let p = matching_podcasts(s.drop_last(), query);
        if podcast_matches(s.last(), query) {
            p.push(s.last())
        } else {
            p
        }
    }
}

/// What the home page lists for a search text and an order.
pub open spec fn home_listing(s: Seq<Podcast>, search: Seq<char>, order: SortOrder) -> Seq<Podcast> {
    sorted_stable(matching_podcasts(s, lower_of(search)), order)
}

/// Whether an episode matches a lowercased search query at time `now`.
pub open spec fn episode_matches(e: Episode, query: Seq<char>, now: i64) -> bool {
    query.len() == 0 || occurs_in(query, lower_of(e.title@)) || occurs_in(
        query,
        lower_of(publish_label(e.publish_date, now)),
    )
}

pub open spec fn matching_episodes(s: Seq<Episode>, query: Seq<char>, now: i64) -> Seq<Episode>
    decreases s.len(),
{
    if s.len() == 0 {
        s
    } else {
        let p = matching_episodes(s.drop_last(), query, now);
        if episode_matches(s.last(), query, now) {
            p.push(s.last())
        } else {
            p
        }
    }
}

/// What the detail page lists for a search text and an order at time `now`.
pub open spec fn detail_listing(
    s: Seq<Episode>,
    search: Seq<char>,
    order: SortOrder,
    now: i64,
) -> Seq<Episode> {
    sorted_stable(matching_episodes(s, lower_of(search), now), order)
}

fn copy_podcasts(s: &Vec<Podcast>) -> (r: Vec<Podcast>)
    ensures
        r@ == s@,
{
    let mut r: Vec<Podcast> = Vec::new();
    let mut i: usize = 0;
    while i < s.len()
        invariant
            i <= s@.len(),
            r@ == s@.take(i as int),
        decreases s@.len() - i,
    {
        r.push(s[i].copied());
        i = i + 1;
        assert(r@ =~= s@.take(i as int));
    }
    assert(s@.take(s@.len() as int) =~= s@);
    r
}

fn filter_podcasts(s: &Vec<Podcast>, query: &Vec<char>) -> (r: Vec<Podcast>)
    ensures
        r@ == matching_podcasts(s@, query@),
{
    let mut r: Vec<Podcast> = Vec::new();
    let mut i: usize = 0;
    while i < s.len()
        invariant
            i <= s@.len(),
            r@ == matching_podcasts(s@.take(i as int), query@),
        decreases s@.len() - i,
    {
        let p = &s[i];
        let keep = query.len() == 0 || occurs(query, &chars_of(lowercase(p.title.as_str()).as_str()))
            || occurs(query, &chars_of(lowercase(p.description.as_str()).as_str()));
        proof {
            assert(s@.take(i + 1).drop_last() =~= s@.take(i as int));
            assert(s@.take(i + 1).last() == *p);
        }
        if keep {
            r.push(p.copied());
        }
        i = i + 1;
    }
    assert(s@.take(s@.len() as int) =~= s@);
    r
}

fn filter_episodes(s: &Vec<Episode>, query: &Vec<char>, now: i64) -> (r: Vec<Episode>)
    ensures
        r@ == matching_episodes(s@, query@, now),
{
    let mut r: Vec<Episode> = Vec::new();
    let mut i: usize = 0;
    while i < s.len()
        invariant
            i <= s@.len(),
            r@ == matching_episodes(s@.take(i as int), query@, now),
        decreases s@.len() - i,
    {
        let e = &s[i];
        let keep = query.len() == 0 || occurs(query, &chars_of(lowercase(e.title.as_str()).as_str()))
            || occurs(
            query,
            &chars_of(lowercase(e.format_publish_date(now).as_str()).as_str()),
        );
        proof {
            assert(s@.take(i + 1).drop_last() =~= s@.take(i as int));
            assert(s@.take(i + 1).last() == *e);
        }
        if keep {
            r.push(e.copied());
        }
        i = i + 1;
    }
    assert(s@.take(s@.len() as int) =~= s@);
    r
}

/// The list of subscribed shows, with its search text and order.
pub struct HomePage {
    pub podcasts: Vec<Podcast>,
    pub filtered_podcasts: Vec<Podcast>,
    pub search_query: String,
    pub sort_order: SortOrder,
}

impl HomePage {
    /// Lists `podcasts` as loaded, before any search or ordering is applied.
    pub fn new(podcasts: Vec<Podcast>) -> (r: HomePage)
        ensures
            r.podcasts@ == podcasts@,
            r.filtered_podcasts@ == podcasts@,
            r.search_query@.len() == 0,
            r.sort_order == SortOrder::AToZ,
    {
        let filtered_podcasts = copy_podcasts(&podcasts);
        HomePage { podcasts, filtered_podcasts, search_query: String::new(), sort_order: SortOrder::AToZ }
    }

    /// Replaces the shows with a fresh load and lists them again.
    pub fn refresh(&mut self, podcasts: Vec<Podcast>)
        ensures
            final(self).podcasts@ == podcasts@,
            final(self).filtered_podcasts@ == home_listing(
                podcasts@,
                old(self).search_query@,
                old(self).sort_order,
            ),
            final(self).search_query == old(self).search_query,
            final(self).sort_order == old(self).sort_order,
    {
        self.podcasts = podcasts;
        self.apply_filters();
    }

    /// Lists the shows whose lowercased title or description contains the
    /// lowercased search text, ordered stably by title or update time.
    pub fn apply_filters(&mut self)
        ensures
            final(self).filtered_podcasts@ == home_listing(
                old(self).podcasts@,
                old(self).search_query@,
                old(self).sort_order,
            ),
            final(self).podcasts == old(self).podcasts,
            final(self).search_query == old(self).search_query,
            final(self).sort_order == old(self).sort_order,
    {
        let query = chars_of(lowercase(self.search_query.as_str()).as_str());
        let kept = filter_podcasts(&self.podcasts, &query);
        self.filtered_podcasts = sort_listed(kept, self.sort_order);
    }
}

/// One show's page: the show, its episodes, and the search text and order.
pub struct PodcastDetailPage {
    pub podcast: Option<Podcast>,
    pub episodes: Vec<Episode>,
    pub filtered_episodes: Vec<Episode>,
    pub description_expanded: bool,
    pub search_query: String,
    pub sort_order: SortOrder,
}

/// The first show in `s` with id `id`, if any.
pub open spec fn first_with_id(s: Seq<Podcast>, id: i32) -> Option<Podcast>
    decreases s.len(),
{
    if s.len() == 0 {
        None
    } else if s[0].id == Some(id) {
        Some(s[0])
    } else {
        first_with_id(s.drop_first(), id)
    }
}

impl PodcastDetailPage {
    pub fn new() -> (r: PodcastDetailPage)
        ensures
            r.podcast is None,
            r.episodes@.len() == 0,
            r.filtered_episodes@.len() == 0,
            !r.description_expanded,
            r.search_query@.len() == 0,
            r.sort_order == SortOrder::PublishDateDesc,
    {
        PodcastDetailPage {
            podcast: None,
            episodes: Vec::new(),
            filtered_episodes: Vec::new(),
            description_expanded: false,
            search_query: String::new(),
            sort_order: SortOrder::PublishDateDesc,
        }
    }

    /// Shows `podcast_id`: picks it from `podcasts` when the shows could be
    /// loaded (keeping the current one otherwise) and lists `episodes` as
    /// of `now`.
    pub fn load(&mut self, podcast_id: i32, podcasts: Option<Vec<Podcast>>, episodes: Vec<Episode>, now: i64)
        ensures
            final(self).podcast == match podcasts {
                Some(ps) => first_with_id(ps@, podcast_id),
                None => old(self).podcast,
            },
            final(self).episodes@ == episodes@,
            final(self).filtered_episodes@ == detail_listing(
                episodes@,
                old(self).search_query@,
                old(self).sort_order,
                now,
            ),
    {
        match podcasts {
            Some(ps) => {
                let mut found: Option<Podcast> = None;
                let mut i: usize = 0;
                assert(ps@.skip(0) =~= ps@);
                while i < ps.len()
                    invariant
                        i <= ps@.len(),
                        found is None ==> first_with_id(ps@, podcast_id) == first_with_id(
                            ps@.skip(i as int),
                            podcast_id,
                        ),
                        found is Some ==> found == first_with_id(ps@, podcast_id),
                    decreases ps@.len() - i,
                {
                    if found.is_none() {
                        assert(ps@.skip(i as int).drop_first() =~= ps@.skip(i + 1));
                        assert(ps@.skip(i as int)[0] == ps@[i as int]);
                        if ps[i].id == Some(podcast_id) {
                            found = Some(ps[i].copied());
                        }
                    }
                    i = i + 1;
                }
                proof {
                    if found is None {
                        assert(ps@.skip(ps@.len() as int).len() == 0);
                    }
                }
                self.podcast = found;
            },
            None => {},
        }
        self.episodes = episodes;
        self.apply_filters(now);
    }

    /// Lists, as of `now`, the episodes whose lowercased title or date
    /// label contains the lowercased search text, ordered stably by title
    /// or publication date.
    pub fn apply_filters(&mut self, now: i64)
        ensures
            final(self).filtered_episodes@ == detail_listing(
                old(self).episodes@,
                old(self).search_query@,
                old(self).sort_order,
                now,
            ),
            final(self).podcast == old(self).podcast,
            final(self).episodes == old(self).episodes,
            final(self).search_query == old(self).search_query,
            final(self).sort_order == old(self).sort_order,
    {
        let query = chars_of(lowercase(self.search_query.as_str()).as_str());
        let kept = filter_episodes(&self.episodes, &query, now);
        self.filtered_episodes = sort_listed(kept, self.sort_order);
    }
}

/// Whether the `url` crate parses this text as an absolute address.
pub uninterp spec fn url_is_valid(s: Seq<char>) -> bool;

/// Relies on `url::Url::parse`: whether parsing succeeds depends on the
/// text alone.
#[verifier::external_body]
fn url_parses(s: &str) -> (r: bool)
    ensures
        r == url_is_valid(s@),
{
    url::Url::parse(s).is_ok()
}

/// The dialog in which a feed address is typed to subscribe to it.
pub struct AddPodcastModal {
    pub show: bool,
    pub url_input: String,
    pub error_message: Option<String>,
}

impl AddPodcastModal {
    pub fn new() -> (r: AddPodcastModal)
        ensures
            !r.show,
            r.url_input@.len() == 0,
            r.error_message is None,
    {
        AddPodcastModal { show: false, url_input: String::new(), error_message: None }
    }

    pub fn open(&mut self)
        ensures
            final(self).show,
            final(self).url_input@.len() == 0,
            final(self).error_message is None,
    {
        self.show = true;
        self.url_input = String::new();
        self.error_message = None;
    }

    pub fn close(&mut self)
        ensures
            !final(self).show,
            final(self).url_input@.len() == 0,
            final(self).error_message is None,
    {
        self.show = false;
        self.url_input = String::new();
        self.error_message = None;
    }

    /// Whether the typed address can be submitted; an address that does not
    /// parse sets the error text "Invalid URL", an empty one clears it.
    pub fn validate_url(&mut self) -> (r: bool)
        ensures
            r == (old(self).url_input@.len() > 0 && url_is_valid(old(self).url_input@)),
            final(self).show == old(self).show,
            final(self).url_input == old(self).url_input,
            match final(self).error_message {
                Some(m) => !r && old(self).url_input@.len() > 0 && m@ == "Invalid URL"@,
                None => r || old(self).url_input@.len() == 0,
            },
    {
        if self.url_input.as_str().is_empty() {
            self.error_message = None;
            return false;
        }
        if url_parses(self.url_input.as_str()) {
            self.error_message = None;
            true
        } else {
            proof {
                reveal_strlit("Invalid URL");
            }
            self.error_message = Some(String::from_str("Invalid URL"));
            false
        }
    }
}

/// The transport bar; it holds no state of its own.
pub struct MediaControls;

} // verus!
