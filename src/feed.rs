//! Reading a feed document into plain records, turning feed items into
//! episodes, and the incremental merge against what a show already holds.
use vstd::prelude::*;
use crate::text::{chars_of, digit_value};
use crate::types::{Episode, Podcast};
use rss::Channel;

verus! {

/// The seconds since the epoch that `chrono::DateTime::parse_from_rfc2822`
/// gives for this text, if it is a valid RFC 2822 date.
pub uninterp spec fn rfc2822_seconds(s: Seq<char>) -> Option<i64>;

/// Relies on `chrono::DateTime::parse_from_rfc2822` and `DateTime::timestamp`:
/// the instant depends on the text alone.
#[verifier::external_body]
fn rfc2822_timestamp(s: &str) -> (r: Option<i64>)
    ensures
        r == rfc2822_seconds(s@),
{
    chrono::DateTime::parse_from_rfc2822(s).ok().map(|d| d.timestamp())
}

/// Why a feed could not be turned into records.
#[derive(Debug, Clone)]
pub enum FetchError {
    NetworkError(String),
    ParseError,
}

/// One item of a feed, as plain values.
#[derive(Debug, Clone)]
pub struct FeedItem {
    pub title: Option<String>,
    pub description: Option<String>,
    pub enclosure_url: Option<String>,
    pub enclosure_type: Option<String>,
    pub pub_date: Option<String>,
    pub duration: Option<String>,
}

/// A parsed feed channel, as plain values.
#[derive(Debug, Clone)]
pub struct FeedDocument {
    pub title: String,
    pub description: String,
    pub image_url: Option<String>,
    pub items: Vec<FeedItem>,
}

fn text(s: &str) -> (r: String)
    ensures
        r@ == s@,
{
    s.to_owned()
}

fn owned(s: Option<&str>) -> (r: Option<String>)
    ensures
        r is Some <==> s is Some,
        s is Some ==> r->0@ == s->0@,
{
    match s {
        Some(t) => Some(t.to_owned()),
        None => None,
    }
}

/// The text of an optional field.
pub open spec fn opt_view(o: Option<String>) -> Option<Seq<char>> {
    match o {
        Some(s) => Some(s@),
        None => None,
    }
}

/// A feed item as plain values: title, description, enclosure address,
/// enclosure type, publication date, duration.
pub open spec fn item_view(i: FeedItem) -> (
    Option<Seq<char>>,
    Option<Seq<char>>,
    Option<Seq<char>>,
    Option<Seq<char>>,
    Option<Seq<char>>,
    Option<Seq<char>>,
) {
    (
        opt_view(i.title),
        opt_view(i.description),
        opt_view(i.enclosure_url),
        opt_view(i.enclosure_type),
        opt_view(i.pub_date),
        opt_view(i.duration),
    )
}

/// A feed document as plain values: title, description, artwork address
/// and items.
pub open spec fn doc_view(d: FeedDocument) -> (
    Seq<char>,
    Seq<char>,
    Option<Seq<char>>,
    Seq<
        (
            Option<Seq<char>>,
            Option<Seq<char>>,
            Option<Seq<char>>,
            Option<Seq<char>>,
            Option<Seq<char>>,
            Option<Seq<char>>,
        ),
    >,
) {
    (d.title@, d.description@, opt_view(d.image_url), d.items@.map_values(|i: FeedItem| item_view(i)))
}

/// What `rss::Channel::read_from` reads from these bytes, as plain values
/// laid out as `doc_view`; none when they are not a feed document.
pub uninterp spec fn feed_of(bytes: Seq<u8>) -> Option<
    (
        Seq<char>,
        Seq<char>,
        Option<Seq<char>>,
        Seq<
            (
                Option<Seq<char>>,
                Option<Seq<char>>,
                Option<Seq<char>>,
                Option<Seq<char>>,
                Option<Seq<char>>,
                Option<Seq<char>>,
            ),
        >,
    ),
>;

/// Relies on `rss::Channel::read_from` and the field accessors of `Channel`,
/// `Image`, `Item`, `Enclosure` and `ITunesItemExtension`: the document, and
/// whether there is one, depend on the bytes alone.
#[verifier::external_body]
fn parse_feed(bytes: &[u8]) -> (r: Option<FeedDocument>)
    ensures
        r is None <==> feed_of(bytes@) is None,
        r matches Some(d) ==> feed_of(bytes@) == Some(doc_view(d)),
{
    let c = Channel::read_from(bytes).ok()?;
    let items = c.items().iter().map(|i| FeedItem {
        title: owned(i.title()),
        description: owned(i.description()),
        enclosure_url: owned(i.enclosure().map(|e| e.url())),
        enclosure_type: owned(i.enclosure().map(|e| e.mime_type())),
        pub_date: owned(i.pub_date()),
        duration: owned(i.itunes_ext().and_then(|x| x.duration())),
    }).collect();
    Some(FeedDocument { title: text(c.title()), description: text(c.description()), image_url: owned(c.image().map(|m| m.url())), items })
}

/// Parses a feed document; fails exactly when the bytes are not a feed.
pub fn read_feed(bytes: &[u8]) -> (r: Result<FeedDocument, FetchError>)
    ensures
        r is Ok <==> feed_of(bytes@) is Some,
        r matches Ok(d) ==> feed_of(bytes@) == Some(doc_view(d)),
        r is Err ==> r->Err_0 is ParseError,
{
    match parse_feed(bytes) {
        Some(d) => Ok(d),
        None => Err(FetchError::ParseError),
    }
}


/// `s` cut at every occurrence of `sep`; there is always at least one part.
pub open spec fn split_on(s: Seq<char>, sep: char) -> Seq<Seq<char>>
    decreases s.len(),
{
    if s.len() == 0 {
        seq![Seq::empty()]
    } else {
        let p = split_on(s.drop_last(), sep);
        if s.last() == sep {
            p.push(Seq::empty())
        } else {
            p.update(p.len() - 1, p.last().push(s.last()))
        }
    }
}

pub proof fn lemma_split_nonempty(s: Seq<char>, sep: char)
    ensures
        split_on(s, sep).len() >= 1,
    decreases s.len(),
{
    if s.len() > 0 {
        lemma_split_nonempty(s.drop_last(), sep);
    }
}

/// The value of a run of decimal digits.
pub open spec fn digits_value(s: Seq<char>) -> int
    decreases s.len(),
{
    if s.len() == 0 {
        0
    } else {
        let d: int = match digit_value(s.last()) {
            Some(v) => v as int,
            None => 0,
        };
        digits_value(s.drop_last()) * 10 + d
    }
}

pub open spec fn all_digits(s: Seq<char>) -> bool {
    forall|i: int| 0 <= i < s.len() ==> (#[trigger] digit_value(s[i])) is Some
}

/// A signed decimal integer as `str::parse::<i64>` reads it: an optional
/// sign, then one or more digits, with a value that fits.
pub open spec fn parse_i64(s: Seq<char>) -> Option<i64> {
    let signed = s.len() > 0 && (s[0] == '-' || s[0] == '+');
    let body = if signed {
        s.drop_first()
    } else {
        s
    };
    let v = if s.len() > 0 && s[0] == '-' {
        -digits_value(body)
    } else {
        digits_value(body)
    };
    if body.len() == 0 || !all_digits(body) || v < i64::MIN || v > i64::MAX {
        None
    } else {
        Some(v as i64)
    }
}

/// Seconds in an iTunes duration: `H:MM:SS`, `MM:SS` or plain seconds;
/// any other shape, a part that is not an integer, or a total that does not
/// fit gives 0.
pub open spec fn duration_seconds(d: Seq<char>) -> i64 {
    let parts = split_on(d, ':');
    let total: Option<int> = if parts.len() == 3 {
        match (parse_i64(parts[0]), parse_i64(parts[1]), parse_i64(parts[2])) {
            (Some(h), Some(m), Some(s)) => Some(h * 3600 + m * 60 + s),
            _ => None,
        }
    } else if parts.len() == 2 {
        match (parse_i64(parts[0]), parse_i64(parts[1])) {
            (Some(m), Some(s)) => Some(m * 60 + s),
            _ => None,
        }
    } else if parts.len() == 1 {
        match parse_i64(parts[0]) {
            Some(s) => Some(s as int),
            None => None,
        }
    } else {
        None
    };
    match total {
        Some(t) => if i64::MIN <= t <= i64::MAX {
            t as i64
        } else {
            0
        },
        None => 0,
    }
}

fn split_colons(s: &Vec<char>) -> (r: Vec<Vec<char>>)
    ensures
        r@.len() == split_on(s@, ':').len(),
        forall|i: int| 0 <= i < r@.len() ==> #[trigger] r@[i]@ == split_on(s@, ':')[i],
{
    let mut parts: Vec<Vec<char>> = Vec::new();
    let mut current: Vec<char> = Vec::new();
    let mut i: usize = 0;
    while i < s.len()
        invariant
            i <= s@.len(),
            split_on(s@.take(i as int), ':').len() == parts@.len() + 1,
            forall|j: int|
                0 <= j < parts@.len() ==> #[trigger] parts@[j]@ == split_on(
                    s@.take(i as int),
                    ':',
                )[j],
            current@ == split_on(s@.take(i as int), ':').last(),
        decreases s@.len() - i,
    {
        let c = s[i];
        proof {
            assert(s@.take(i + 1).drop_last() =~= s@.take(i as int));
            lemma_split_nonempty(s@.take(i as int), ':');
        }
        if c == ':' {
            parts.push(current);
            current = Vec::new();
        } else {
            current.push(c);
        }
        i = i + 1;
    }
    assert(s@.take(s@.len() as int) =~= s@);
    parts.push(current);
    parts
}

proof fn lemma_digits_value_nonneg(s: Seq<char>)
    ensures
        digits_value(s) >= 0,
    decreases s.len(),
{
    if s.len() > 0 {
        lemma_digits_value_nonneg(s.drop_last());
    }
}

fn digit_of(c: char) -> (r: Option<u8>)
    ensures
        r is Some <==> digit_value(c) is Some,
        r is Some ==> r->0 as nat == digit_value(c)->0,
{
    if c == '0' {
        Some(0)
    } else if c == '1' {
        Some(1)
    } else if c == '2' {
        Some(2)
    } else if c == '3' {
        Some(3)
    } else if c == '4' {
        Some(4)
    } else if c == '5' {
        Some(5)
    } else if c == '6' {
        Some(6)
    } else if c == '7' {
        Some(7)
    } else if c == '8' {
        Some(8)
    } else if c == '9' {
        Some(9)
    } else {
        None
    }
}

const VALUE_CAP: u128 = 0x1_0000_0000_0000_0000;

/// Reads a signed decimal integer the way `str::parse::<i64>` does.
pub fn parse_i64_chars(s: &Vec<char>) -> (r: Option<i64>)
    ensures
        r == parse_i64(s@),
{
    let negative = s.len() > 0 && s[0] == '-';
    let start: usize = if s.len() > 0 && (s[0] == '-' || s[0] == '+') {
        1
    } else {
        0
    };
    let ghost body = if start == 1 {
        s@.drop_first()
    } else {
        s@
    };
    assert(body =~= s@.skip(start as int));
    assert(body == (if s@.len() > 0 && (s@[0] == '-' || s@[0] == '+') {
        s@.drop_first()
    } else {
        s@
    }));
    if start == s.len() {
        return None;
    }
    let mut acc: u128 = 0;
    let mut i: usize = start;
    while i < s.len()
        invariant
            start <= i <= s@.len(),
            body =~= s@.skip(start as int),
            body == (if s@.len() > 0 && (s@[0] == '-' || s@[0] == '+') {
                s@.drop_first()
            } else {
                s@
            }),
            acc as int == if digits_value(body.take(i - start)) < VALUE_CAP {
                digits_value(body.take(i - start))
            } else {
                VALUE_CAP as int
            },
            all_digits(body.take(i - start)),
        decreases s@.len() - i,
    {
        let d = match digit_of(s[i]) {
            Some(d) => d,
            None => {
                assert(body[i - start] == s@[i as int]);
                assert(digit_value(body[i - start]) is None);
                assert(!all_digits(body));
                return None;
            },
        };
        proof {
            let k = (i - start) as int;
            assert(body.take(k + 1).drop_last() =~= body.take(k));
            assert(body.take(k + 1).last() == s@[i as int]);
            lemma_digits_value_nonneg(body.take(k));
            let v = digits_value(body.take(k));
            assert(digits_value(body.take(k + 1)) == v * 10 + d);
            if v >= VALUE_CAP {
                assert(v * 10 + d >= VALUE_CAP) by (nonlinear_arith)
                    requires
                        v >= VALUE_CAP,
                        d >= 0,
                ;
            }
            assert(all_digits(body.take(k + 1))) by {
                assert forall|j: int| 0 <= j < k + 1 implies (#[trigger] digit_value(
                    body.take(k + 1)[j],
                )) is Some by {
                    if j < k {
                        assert(body.take(k + 1)[j] == body.take(k)[j]);
                    }
                }
            }
        }
        let next = acc * 10 + d as u128;
        acc = if next < VALUE_CAP {
            next
        } else {
            VALUE_CAP
        };
        i = i + 1;
    }
    assert(body.take(body.len() as int) =~= body);
    proof {
        lemma_digits_value_nonneg(body);
    }
    if negative {
        if acc <= 9223372036854775808u128 {
            if acc == 9223372036854775808u128 {
                Some(i64::MIN)
            } else {
                Some(-(acc as i64))
            }
        } else {
            None
        }
    } else {
        if acc <= 9223372036854775807u128 {
            Some(acc as i64)
        } else {
            None
        }
    }
}

/// Seconds in an iTunes duration text; see `duration_seconds`.
pub fn parse_duration(d: &str) -> (r: i64)
    ensures
        r == duration_seconds(d@),
{
    let chars = chars_of(d);
    let parts = split_colons(&chars);
    let total: Option<i128> = if parts.len() == 3 {
        match (parse_i64_chars(&parts[0]), parse_i64_chars(&parts[1]), parse_i64_chars(&parts[2])) {
            (Some(h), Some(m), Some(s)) => Some(h as i128 * 3600 + m as i128 * 60 + s as i128),
            _ => None,
        }
    } else if parts.len() == 2 {
        match (parse_i64_chars(&parts[0]), parse_i64_chars(&parts[1])) {
            (Some(m), Some(s)) => Some(m as i128 * 60 + s as i128),
            _ => None,
        }
    } else if parts.len() == 1 {
        match parse_i64_chars(&parts[0]) {
            Some(s) => Some(s as i128),
            None => None,
        }
    } else {
        None
    };
    match total {
        Some(t) => if i64::MIN as i128 <= t && t <= i64::MAX as i128 {
            t as i64
        } else {
            0
        },
        None => 0,
    }
}


pub open spec fn item_url(item: FeedItem) -> Option<Seq<char>> {
    match item.enclosure_url {
        Some(u) => Some(u@),
        None => None,
    }
}

pub open spec fn opt_text(t: Option<String>, default: Seq<char>) -> Seq<char> {
    match t {
        Some(s) => s@,
        None => default,
    }
}

/// The publication instant an item states, if it states a valid one.
pub open spec fn published_at(item: FeedItem) -> Option<i64> {
    match item.pub_date {
        Some(d) => rfc2822_seconds(d@),
        None => None,
    }
}

/// `e` is the new episode record for `item`, given the parsed publication
/// instant and the time of the fetch.
pub open spec fn episode_for(
    e: Episode,
    podcast_id: i32,
    item: FeedItem,
    published: Option<i64>,
    now: i64,
) -> bool {
    &&& item_url(item) == Some(e.url@)
    &&& e.id is None
    &&& e.podcast_id == podcast_id
    &&& e.title@ == opt_text(item.title, "Untitled"@)
    &&& e.description@ == opt_text(item.description, Seq::empty())
    &&& e.audio_type@ == opt_text(item.enclosure_type, "audio/mpeg"@)
    &&& e.publish_date == (match published {
        Some(p) => p,
        None => now,
    })
    &&& !e.is_played
    &&& e.duration == (match item.duration {
        Some(d) => duration_seconds(d@),
        None => 0,
    })
    &&& e.created_at == now
    &&& e.updated_at == now
}

/// Builds the episode for a feed item once its publication date is known;
/// an item without an enclosure gives none.
pub fn episode_from_parts(podcast_id: i32, item: &FeedItem, published: Option<i64>, now: i64) -> (r:
    Option<Episode>)
    ensures
        r is None <==> item.enclosure_url is None,
        r matches Some(e) ==> episode_for(e, podcast_id, *item, published, now),
{
    let url = match &item.enclosure_url {
        Some(u) => u.clone(),
        None => return None,
    };
    proof {
        reveal_strlit("Untitled");
        reveal_strlit("audio/mpeg");
    }
    let title = match &item.title {
        Some(t) => t.clone(),
        None => String::from_str("Untitled"),
    };
    let description = match &item.description {
        Some(t) => t.clone(),
        None => String::new(),
    };
    let audio_type = match &item.enclosure_type {
        Some(t) => t.clone(),
        None => String::from_str("audio/mpeg"),
    };
    let publish_date = match published {
        Some(p) => p,
        None => now,
    };
    let duration = match &item.duration {
        Some(d) => parse_duration(d.as_str()),
        None => 0,
    };
    Some(
        Episode {
            id: None,
            podcast_id,
            title,
            description,
            url,
            audio_type,
            publish_date,
            is_played: false,
            duration,
            created_at: now,
            updated_at: now,
        },
    )
}

/// Builds the episode for a feed item, reading its RFC 2822 date.
pub fn episode_from_item(podcast_id: i32, item: &FeedItem, now: i64) -> (r: Option<Episode>)
    ensures
        r is None <==> item.enclosure_url is None,
        r matches Some(e) ==> episode_for(e, podcast_id, *item, published_at(*item), now),
{
    let published = match &item.pub_date {
        Some(d) => rfc2822_timestamp(d.as_str()),
        None => None,
    };
    episode_from_parts(podcast_id, item, published, now)
}

/// Some episode of `episodes` has source address `u`.
pub open spec fn has_url(episodes: Seq<Episode>, u: Seq<char>) -> bool {
    exists|k: int| 0 <= k < episodes.len() && (#[trigger] episodes[k]).url@ == u
}

/// Some item among the first `n` has an enclosure at `u`.
pub open spec fn item_has_url(items: Seq<FeedItem>, n: int, u: Seq<char>) -> bool {
    exists|j: int| 0 <= j < n && item_url(#[trigger] items[j]) == Some(u)
}

/// Item `i` is the first one with its enclosure address, and that address
/// is not among the show's existing episodes.
pub open spec fn first_fresh(items: Seq<FeedItem>, i: int, existing: Seq<Episode>) -> bool {
    match item_url(items[i]) {
        Some(u) => !has_url(existing, u) && !item_has_url(items, i, u),
        None => false,
    }
}

/// Indices, in order, of the items among the first `n` that the merge keeps.
pub open spec fn fresh_indices(items: Seq<FeedItem>, existing: Seq<Episode>, n: int) -> Seq<int>
    decreases n,
{
    if n <= 0 {
        Seq::empty()
    } else {
        let p = fresh_indices(items, existing, n - 1);
        if first_fresh(items, n - 1, existing) {
            p.push(n - 1)
        } else {
            p
        }
    }
}

/// `out` is what merging `items` into a show holding `existing` yields.
pub open spec fn merged(
    out: Seq<Episode>,
    podcast_id: i32,
    existing: Seq<Episode>,
    items: Seq<FeedItem>,
    now: i64,
) -> bool {
    let sel = fresh_indices(items, existing, items.len() as int);
    &&& out.len() == sel.len()
    &&& forall|k: int|
        0 <= k < out.len() ==> episode_for(
            #[trigger] out[k],
            podcast_id,
            items[sel[k]],
            published_at(items[sel[k]]),
            now,
        )
}

pub proof fn lemma_fresh_indices_bounds(items: Seq<FeedItem>, existing: Seq<Episode>, n: int)
    ensures
        forall|k: int|
            0 <= k < fresh_indices(items, existing, n).len() ==> 0 <= #[trigger] fresh_indices(
                items,
                existing,
                n,
            )[k] < n,
        forall|k: int, l: int|
            0 <= k < l < fresh_indices(items, existing, n).len() ==> #[trigger] fresh_indices(
                items,
                existing,
                n,
            )[k] < #[trigger] fresh_indices(items, existing, n)[l],
        forall|k: int|
            0 <= k < fresh_indices(items, existing, n).len() ==> first_fresh(
                items,
                #[trigger] fresh_indices(items, existing, n)[k],
                existing,
            ),
    decreases n,
{
    if n > 0 {
        lemma_fresh_indices_bounds(items, existing, n - 1);
        let p = fresh_indices(items, existing, n - 1);
        let s = fresh_indices(items, existing, n);
        if first_fresh(items, n - 1, existing) {
            assert(s == p.push(n - 1));
            assert forall|k: int| 0 <= k < s.len() implies 0 <= #[trigger] s[k] < n by {
                if k < p.len() {
                    assert(s[k] == p[k]);
                }
            }
            assert forall|k: int, l: int| 0 <= k < l < s.len() implies #[trigger] s[k] < #[trigger] s[l] by {
                assert(s[k] == p[k]);
                if l < p.len() {
                    assert(s[l] == p[l]);
                }
            }
            assert forall|k: int| 0 <= k < s.len() implies first_fresh(items, #[trigger] s[k], existing) by {
                if k < p.len() {
                    assert(s[k] == p[k]);
                }
            }
        } else {
            assert(s == p);
        }
    }
}

fn url_among(episodes: &Vec<Episode>, u: &String) -> (r: bool)
    ensures
        r == has_url(episodes@, u@),
{
    let mut k: usize = 0;
    while k < episodes.len()
        invariant
            k <= episodes@.len(),
            forall|j: int| 0 <= j < k ==> (#[trigger] episodes@[j]).url@ != u@,
        decreases episodes@.len() - k,
    {
        if episodes[k].url == *u {
            return true;
        }
        k = k + 1;
    }
    false
}

proof fn lemma_item_has_url_step(items: Seq<FeedItem>, i: int, u: Seq<char>)
    requires
        0 <= i < items.len(),
    ensures
        item_has_url(items, i + 1, u) <==> (item_has_url(items, i, u) || item_url(items[i]) == Some(
            u,
        )),
{
    if item_has_url(items, i + 1, u) {
        let j = choose|j: int| 0 <= j < i + 1 && item_url(#[trigger] items[j]) == Some(u);
        if j < i {
            assert(item_has_url(items, i, u));
        }
    }
    if item_url(items[i]) == Some(u) {
        assert(item_has_url(items, i + 1, u));
    }
    if item_has_url(items, i, u) {
        let j = choose|j: int| 0 <= j < i && item_url(#[trigger] items[j]) == Some(u);
        assert(item_has_url(items, i + 1, u));
    }
}

/// The episodes to insert for a show: one for the first item carrying each
/// enclosure address that the show does not hold yet, in feed order.
pub fn new_episodes(podcast_id: i32, existing: &Vec<Episode>, items: &Vec<FeedItem>, now: i64) -> (r:
    Vec<Episode>)
    ensures
        merged(r@, podcast_id, existing@, items@, now),
{
    let mut out: Vec<Episode> = Vec::new();
    let mut i: usize = 0;
    while i < items.len()
        invariant
            i <= items@.len(),
            out@.len() == fresh_indices(items@, existing@, i as int).len(),
            forall|k: int|
                0 <= k < out@.len() ==> episode_for(
                    #[trigger] out@[k],
                    podcast_id,
                    items@[fresh_indices(items@, existing@, i as int)[k]],
                    published_at(items@[fresh_indices(items@, existing@, i as int)[k]]),
                    now,
                ),
            forall|u: Seq<char>|
                #[trigger] item_has_url(items@, i as int, u) ==> has_url(existing@, u) || has_url(
                    out@,
                    u,
                ),
            forall|u: Seq<char>| #[trigger] has_url(out@, u) ==> item_has_url(items@, i as int, u),
        decreases items@.len() - i,
    {
        let ghost prev = out@;
        let item = &items[i];
        proof {
            lemma_fresh_indices_bounds(items@, existing@, i as int);
            assert forall|u: Seq<char>|
                #[trigger] item_has_url(items@, i + 1, u) implies (item_has_url(items@, i as int, u)
                || item_url(items@[i as int]) == Some(u)) by {
                lemma_item_has_url_step(items@, i as int, u);
            }
            assert forall|u: Seq<char>|
                item_has_url(items@, i as int, u) implies #[trigger] item_has_url(
                items@,
                i + 1,
                u,
            ) by {
                lemma_item_has_url_step(items@, i as int, u);
            }
        }
        match &item.enclosure_url {
            Some(u) => {
                let known = url_among(existing, u) || url_among(&out, u);
                if !known {
                    let e = episode_from_item(podcast_id, item, now);
                    match e {
                        Some(e) => {
                            out.push(e);
                            proof {
                                assert(out@[prev.len() as int] == e);
                                assert forall|v: Seq<char>| #[trigger]
                                    has_url(out@, v) implies item_has_url(
                                    items@,
                                    i + 1,
                                    v,
                                ) by {
                                    let k = choose|k: int|
                                        0 <= k < out@.len() && (#[trigger] out@[k]).url@ == v;
                                    if k < prev.len() {
                                        assert(prev[k] == out@[k]);
                                        assert(has_url(prev, v));
                                    }
                                }
                                assert forall|v: Seq<char>|
                                    #[trigger] has_url(prev, v) implies has_url(out@, v) by {
                                    let k = choose|k: int|
                                        0 <= k < prev.len() && (#[trigger] prev[k]).url@ == v;
                                    assert(out@[k] == prev[k]);
                                }
                                assert(has_url(out@, u@));
                            }
                        },
                        None => {},
                    }
                } else {
                    proof {
                        assert(!first_fresh(items@, i as int, existing@));
                    }
                }
            },
            None => {},
        }
        i = i + 1;
    }
    out
}


proof fn lemma_first_carrier(items: Seq<FeedItem>, n: int, u: Seq<char>) -> (j: int)
    requires
        item_has_url(items, n, u),
        n <= items.len(),
    ensures
        0 <= j < n,
        item_url(items[j]) == Some(u),
        !item_has_url(items, j, u),
    decreases n,
{
    if item_has_url(items, n - 1, u) {
        lemma_first_carrier(items, n - 1, u)
    } else {
        let w = choose|w: int| 0 <= w < n && item_url(#[trigger] items[w]) == Some(u);
        assert(w == n - 1);
        n - 1
    }
}

proof fn lemma_fresh_index_listed(items: Seq<FeedItem>, existing: Seq<Episode>, n: int, j: int) -> (k:
    int)
    requires
        0 <= j < n,
        first_fresh(items, j, existing),
    ensures
        0 <= k < fresh_indices(items, existing, n).len(),
        fresh_indices(items, existing, n)[k] == j,
    decreases n,
{
    let p = fresh_indices(items, existing, n - 1);
    if j == n - 1 {
        p.len() as int
    } else {
        let k = lemma_fresh_index_listed(items, existing, n - 1, j);
        if first_fresh(items, n - 1, existing) {
            assert(fresh_indices(items, existing, n)[k] == p[k]);
        }
        k
    }
}

/// A merge keeps exactly the feed items whose address the show does not hold
/// yet, each address once: no kept address is already held, kept addresses
/// are pairwise distinct, every new address of the feed is kept, and the
/// record kept for an address is built from the first item that carries it.
pub proof fn lemma_merge_exact(
    out: Seq<Episode>,
    podcast_id: i32,
    existing: Seq<Episode>,
    items: Seq<FeedItem>,
    now: i64,
)
    requires
        merged(out, podcast_id, existing, items, now),
    ensures
        forall|k: int| 0 <= k < out.len() ==> !has_url(existing, (#[trigger] out[k]).url@),
        forall|k: int, l: int|
            0 <= k < l < out.len() ==> (#[trigger] out[k]).url@ != (#[trigger] out[l]).url@,
        forall|u: Seq<char>|
            #[trigger] item_has_url(items, items.len() as int, u) && !has_url(existing, u)
                ==> has_url(out, u),
        forall|k: int|
            0 <= k < out.len() ==> exists|j: int|
                0 <= j < items.len() && item_url(#[trigger] items[j]) == Some(
                    (#[trigger] out[k]).url@,
                ) && !item_has_url(items, j, out[k].url@) && episode_for(
                    out[k],
                    podcast_id,
                    items[j],
                    published_at(items[j]),
                    now,
                ),
{
    let n = items.len() as int;
    let sel = fresh_indices(items, existing, n);
    lemma_fresh_indices_bounds(items, existing, n);
    assert forall|k: int| 0 <= k < out.len() implies !has_url(existing, (#[trigger] out[k]).url@) by {
        assert(first_fresh(items, sel[k], existing));
    }
    assert forall|k: int, l: int| 0 <= k < l < out.len() implies (#[trigger] out[k]).url@
        != (#[trigger] out[l]).url@ by {
        assert(sel[k] < sel[l]);
        assert(first_fresh(items, sel[l], existing));
        if out[k].url@ == out[l].url@ {
            assert(item_url(items[sel[k]]) == Some(out[l].url@));
            assert(item_has_url(items, sel[l], out[l].url@));
        }
    }
    assert forall|u: Seq<char>| #[trigger]
        item_has_url(items, n, u) && !has_url(existing, u) implies has_url(out, u) by {
        let j = lemma_first_carrier(items, n, u);
        let k = lemma_fresh_index_listed(items, existing, n, j);
        assert(out[k].url@ == u);
    }
    assert forall|k: int| 0 <= k < out.len() implies exists|j: int|
        0 <= j < items.len() && item_url(#[trigger] items[j]) == Some((#[trigger] out[k]).url@)
            && !item_has_url(items, j, out[k].url@) && episode_for(
            out[k],
            podcast_id,
            items[j],
            published_at(items[j]),
            now,
        ) by {
        let j = sel[k];
        assert(first_fresh(items, j, existing));
        assert(item_url(items[j]) == Some(out[k].url@));
    }
}

proof fn lemma_nothing_fresh(items: Seq<FeedItem>, existing: Seq<Episode>, n: int)
    requires
        forall|j: int| 0 <= j < n ==> !first_fresh(items, j, existing),
    ensures
        fresh_indices(items, existing, n).len() == 0,
    decreases n,
{
    if n > 0 {
        lemma_nothing_fresh(items, existing, n - 1);
    }
}

/// Syncing a second time against an unchanged feed inserts nothing: once the
/// store holds every address it held before plus those the first merge
/// inserted, merging the same items again yields no episode.
pub proof fn lemma_merge_idempotent(
    out: Seq<Episode>,
    podcast_id: i32,
    existing: Seq<Episode>,
    items: Seq<FeedItem>,
    now: i64,
    stored: Seq<Episode>,
    again: Seq<Episode>,
    later: i64,
)
    requires
        merged(out, podcast_id, existing, items, now),
        forall|u: Seq<char>|
            has_url(existing, u) || has_url(out, u) ==> #[trigger] has_url(stored, u),
        merged(again, podcast_id, stored, items, later),
    ensures
        again.len() == 0,
{
    let n = items.len() as int;
    lemma_merge_exact(out, podcast_id, existing, items, now);
    assert forall|j: int| 0 <= j < n implies !first_fresh(items, j, stored) by {
        match item_url(items[j]) {
            Some(u) => {
                assert(item_has_url(items, n, u));
                assert(has_url(existing, u) || has_url(out, u));
                assert(has_url(stored, u));
            },
            None => {},
        }
    }
    lemma_nothing_fresh(items, stored, n);
}


/// Indices, in order, of the items among the first `n` that carry an enclosure.
pub open spec fn enclosure_indices(items: Seq<FeedItem>, n: int) -> Seq<int>
    decreases n,
{
    if n <= 0 {
        Seq::empty()
    } else {
        let p = enclosure_indices(items, n - 1);
        if items[n - 1].enclosure_url is Some {
            p.push(n - 1)
        } else {
            p
        }
    }
}

/// `out` holds one episode per item with an enclosure, in feed order.
pub open spec fn extracted(out: Seq<Episode>, podcast_id: i32, items: Seq<FeedItem>, now: i64) -> bool {
    let sel = enclosure_indices(items, items.len() as int);
    &&& out.len() == sel.len()
    &&& forall|k: int|
        0 <= k < out.len() ==> episode_for(
            #[trigger] out[k],
            podcast_id,
            items[sel[k]],
            published_at(items[sel[k]]),
            now,
        )
}

/// Every episode a newly added feed offers: one per item with an enclosure.
pub fn all_episodes(podcast_id: i32, items: &Vec<FeedItem>, now: i64) -> (r: Vec<Episode>)
    ensures
        extracted(r@, podcast_id, items@, now),
{
    let mut out: Vec<Episode> = Vec::new();
    let mut i: usize = 0;
    while i < items.len()
        invariant
            i <= items@.len(),
            out@.len() == enclosure_indices(items@, i as int).len(),
            forall|k: int|
                0 <= k < out@.len() ==> episode_for(
                    #[trigger] out@[k],
                    podcast_id,
                    items@[enclosure_indices(items@, i as int)[k]],
                    published_at(items@[enclosure_indices(items@, i as int)[k]]),
                    now,
                ),
        decreases items@.len() - i,
    {
        match episode_from_item(podcast_id, &items[i], now) {
            Some(e) => {
                out.push(e);
            },
            None => {},
        }
        i = i + 1;
    }
    out
}

/// `p` is the new show record for the feed at `url`.
pub open spec fn podcast_for(p: Podcast, url: Seq<char>, doc: FeedDocument, now: i64) -> bool {
    &&& p.id is None
    &&& p.url@ == url
    &&& p.title@ == doc.title@
    &&& p.description@ == doc.description@
    &&& p.image_url@ == opt_text(doc.image_url, Seq::empty())
    &&& p.created_at == now
    &&& p.updated_at == now
}

pub fn podcast_from_document(url: &str, doc: &FeedDocument, now: i64) -> (r: Podcast)
    ensures
        podcast_for(r, url@, *doc, now),
{
    let image_url = match &doc.image_url {
        Some(u) => u.clone(),
        None => String::new(),
    };
    Podcast {
        id: None,
        url: url.to_owned(),
        title: doc.title.clone(),
        description: doc.description.clone(),
        image_url,
        created_at: now,
        updated_at: now,
    }
}

/// The episodes a re-sync of `podcast` inserts, from its freshly fetched
/// feed bytes, the episodes it already holds and the time of the fetch.
pub fn sync_podcast_feed(podcast: &Podcast, existing: &Vec<Episode>, bytes: &[u8], now: i64) -> (r:
    Result<Vec<Episode>, FetchError>)
    requires
        podcast.id is Some,
    ensures
        r is Ok <==> feed_of(bytes@) is Some,
        r is Err ==> r->Err_0 is ParseError,
        r matches Ok(v) ==> exists|d: FeedDocument|
            feed_of(bytes@) == Some(#[trigger] doc_view(d)) && merged(
                v@,
                podcast.id->0,
                existing@,
                d.items@,
                now,
            ),
{
    let document = read_feed(bytes)?;
    let podcast_id = match podcast.id {
        Some(id) => id,
        None => 0,
    };
    let v = new_episodes(podcast_id, existing, &document.items, now);
    let ghost d = document;
    let r: Result<Vec<Episode>, FetchError> = Ok(v);
    assert(feed_of(bytes@) == Some(doc_view(d)) && merged(
        r->Ok_0@,
        podcast.id->0,
        existing@,
        d.items@,
        now,
    ));
    r
}

/// The show record for a feed being subscribed to, fetched at `now`, with
/// the document its episodes are to be taken from.
pub fn subscription_from_feed(url: &str, bytes: &[u8], now: i64) -> (r: Result<
    (Podcast, FeedDocument),
    FetchError,
>)
    ensures
        r is Ok <==> feed_of(bytes@) is Some,
        r is Err ==> r->Err_0 is ParseError,
        r matches Ok((p, d)) ==> feed_of(bytes@) == Some(doc_view(d)) && podcast_for(
            p,
            url@,
            d,
            now,
        ),
{
    let document = read_feed(bytes)?;
    let podcast = podcast_from_document(url, &document, now);
    Ok((podcast, document))
}

} // verus!
