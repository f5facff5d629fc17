//! Stable ordering of show and episode lists.
use vstd::prelude::*;
use crate::text::{chars_of, lex_less_eq, lex_lt};
use crate::types::{Episode, Podcast, SortOrder};

verus! {

/// A record that lists can be ordered by: a title and an instant.
pub trait Listed: Sized {
    spec fn sort_title(&self) -> Seq<char>;

    spec fn sort_time(&self) -> i64;

    fn title_chars(&self) -> (r: Vec<char>)
        ensures
            r@ == self.sort_title(),
    ;

    fn time_key(&self) -> (r: i64)
        ensures
            r == self.sort_time(),
    ;
}

impl Listed for Podcast {
    open spec fn sort_title(&self) -> Seq<char> {
        self.title@
    }

    open spec fn sort_time(&self) -> i64 {
        self.updated_at
    }

    fn title_chars(&self) -> (r: Vec<char>) {
        chars_of(self.title.as_str())
    }

    fn time_key(&self) -> (r: i64) {
        self.updated_at
    }
}

impl Listed for Episode {
    open spec fn sort_title(&self) -> Seq<char> {
        self.title@
    }

    open spec fn sort_time(&self) -> i64 {
        self.publish_date
    }

    fn title_chars(&self) -> (r: Vec<char>) {
        chars_of(self.title.as_str())
    }

    fn time_key(&self) -> (r: i64) {
        self.publish_date
    }
}

/// `x` belongs strictly before `y` under `order`.
pub open spec fn goes_before<T: Listed>(x: T, y: T, order: SortOrder) -> bool {
    match order {
        SortOrder::AToZ => lex_lt(x.sort_title(), y.sort_title()),
        SortOrder::ZToA => lex_lt(y.sort_title(), x.sort_title()),
        SortOrder::PublishDateAsc => x.sort_time() < y.sort_time(),
        SortOrder::PublishDateDesc => x.sort_time() > y.sort_time(),
    }
}

/// `x` placed into the ordered `s` after every entry it does not go
/// before.
pub open spec fn insert_ordered<T: Listed>(s: Seq<T>, x: T, order: SortOrder) -> Seq<T>
    decreases s.len(),
{
    if s.len() == 0 {
        seq![x]
    } else if goes_before(x, s.last(), order) {
        insert_ordered(s.drop_last(), x, order).push(s.last())
    } else {
        s.push(x)
    }
}

/// The stable sort of `s` under `order`: entries that compare equal keep
/// their relative order.
pub open spec fn sorted_stable<T: Listed>(s: Seq<T>, order: SortOrder) -> Seq<T>
    decreases s.len(),
{
    if s.len() == 0 {
        s
    } else {
        insert_ordered(sorted_stable(s.drop_last(), order), s.last(), order)
    }
}

fn precedes<T: Listed>(x: &T, y: &T, order: SortOrder) -> (r: bool)
    ensures
        r == goes_before(*x, *y, order),
{
    match order {
        SortOrder::AToZ => !lex_less_eq(&y.title_chars(), &x.title_chars()),
        SortOrder::ZToA => !lex_less_eq(&x.title_chars(), &y.title_chars()),
        SortOrder::PublishDateAsc => x.time_key() < y.time_key(),
        SortOrder::PublishDateDesc => x.time_key() > y.time_key(),
    }
}

proof fn lemma_insert_at<T: Listed>(s: Seq<T>, x: T, order: SortOrder, j: int)
    requires
        0 <= j <= s.len(),
        forall|k: int| j <= k < s.len() ==> goes_before(x, #[trigger] s[k], order),
        j > 0 ==> !goes_before(x, s[j - 1], order),
    ensures
        insert_ordered(s, x, order) == s.take(j).push(x) + s.skip(j),
    decreases s.len(),
{
    if s.len() == 0 {
        assert(s.take(j).push(x) + s.skip(j) =~= seq![x]);
    } else if j == s.len() {
        assert(s.take(j) =~= s);
        assert(s.take(j).push(x) + s.skip(j) =~= s.push(x));
    } else {
        assert(goes_before(x, s[s.len() - 1], order));
        let d = s.drop_last();
        assert forall|k: int| j <= k < d.len() implies goes_before(x, #[trigger] d[k], order) by {
            assert(d[k] == s[k]);
        }
        if j > 0 {
            assert(d[j - 1] == s[j - 1]);
        }
        lemma_insert_at(d, x, order, j);
        assert(d.take(j) =~= s.take(j));
        assert(d.skip(j).push(s.last()) =~= s.skip(j));
        assert((d.take(j).push(x) + d.skip(j)).push(s.last()) =~= s.take(j).push(x) + s.skip(j));
    }
}

fn insert_stable<T: Listed>(sorted: &mut Vec<T>, x: T, order: SortOrder)
    ensures
        final(sorted)@ == insert_ordered(old(sorted)@, x, order),
        final(sorted)@.len() == old(sorted)@.len() + 1,
{
    let mut j: usize = sorted.len();
    while j > 0 && precedes(&x, &sorted[j - 1], order)
        invariant
            j <= sorted@.len(),
            forall|k: int| j <= k < sorted@.len() ==> goes_before(x, #[trigger] sorted@[k], order),
        decreases j,
    {
        j = j - 1;
    }
    proof {
        lemma_insert_at(sorted@, x, order, j as int);
    }
    let ghost before = sorted@;
    sorted.insert(j, x);
    assert(sorted@ =~= before.take(j as int).push(x) + before.skip(j as int));
}

/// Sorts stably: by title or by instant, ascending or descending.
pub fn sort_listed<T: Listed>(items: Vec<T>, order: SortOrder) -> (r: Vec<T>)
    ensures
        r@ == sorted_stable(items@, order),
{
    let mut rest = items;
    let ghost all = rest@;
    let mut out: Vec<T> = Vec::new();
    while rest.len() > 0
        invariant
            all.len() == out@.len() + rest@.len(),
            rest@ == all.skip(out@.len() as int),
            out@ == sorted_stable(all.take(out@.len() as int), order),
        decreases rest@.len(),
    {
        let ghost n = out@.len() as int;
        let x = rest.remove(0);
        proof {
            assert(all.take(n + 1).drop_last() =~= all.take(n));
            assert(all.take(n + 1).last() == x);
            assert(rest@ =~= all.skip(n + 1));
        }
        insert_stable(&mut out, x, order);
    }
    assert(all.take(all.len() as int) =~= all);
    out
}

} // verus!
