//! The snapshot of the feed that the reader is served from.

use crate::model::FeedViewPostFlat;
use vstd::prelude::*;

verus! {

/// Whether some entry of `s` shows the post with the content identifier `cid`.
pub open spec fn holds_cid(s: Seq<FeedViewPostFlat>, cid: Seq<char>) -> bool {
    exists|i: int| 0 <= i < s.len() && (#[trigger] s[i]).cid() == cid
}

/// Whether no two entries of `s` show one post.
pub open spec fn distinct_cids(s: Seq<FeedViewPostFlat>) -> bool {
    forall|i: int, j: int|
        0 <= i < j < s.len() ==> (#[trigger] s[i]).cid() != (#[trigger] s[j]).cid()
}

/// How many entries of `s` show the post with the content identifier `cid`.
pub open spec fn occurrences(s: Seq<FeedViewPostFlat>, cid: Seq<char>) -> nat {
    s.filter(|v: FeedViewPostFlat| v.cid() == cid).len()
}

/// `feed` with the entries of `more` behind it, one by one, each only
/// where no entry before it shows the same post.
pub open spec fn merged(feed: Seq<FeedViewPostFlat>, more: Seq<FeedViewPostFlat>) -> Seq<
    FeedViewPostFlat,
>
    decreases more.len(),
{
    if more.len() == 0 {
        feed
    } else {
        let so_far = merged(feed, more.drop_last());
        if holds_cid(so_far, more.last().cid()) {
            so_far
        } else {
            so_far.push(more.last())
        }
    }
}

/// The entries a buffer holds: none where nothing was published yet.
pub open spec fn snapshot_of(feed: Option<Vec<FeedViewPostFlat>>) -> Seq<FeedViewPostFlat> {
    match feed {
        Some(v) => v@,
        None => Seq::empty(),
    }
}

/// An entry put behind a sequence counts once more for its own post and
/// not at all for any other.
pub proof fn lemma_occurrences_push(s: Seq<FeedViewPostFlat>, v: FeedViewPostFlat, cid: Seq<char>)
    ensures
        occurrences(s.push(v), cid) == occurrences(s, cid) + if v.cid() == cid {
            1nat
        } else {
            0nat
        },
{
    reveal(Seq::filter);
    assert(s.push(v).drop_last() =~= s);
}

/// A post is shown by some entry exactly where it is counted at least once.
pub proof fn lemma_occurrences_held(s: Seq<FeedViewPostFlat>, cid: Seq<char>)
    ensures
        holds_cid(s, cid) <==> occurrences(s, cid) > 0,
        distinct_cids(s) ==> occurrences(s, cid) <= 1,
    decreases s.len(),
{
    reveal(Seq::filter);
    if s.len() > 0 {
        let front = s.drop_last();
        lemma_occurrences_held(front, cid);
        assert(s =~= front.push(s.last()));
        lemma_occurrences_push(front, s.last(), cid);
        if holds_cid(front, cid) {
            let i = choose|i: int| 0 <= i < front.len() && (#[trigger] front[i]).cid() == cid;
            assert(s[i].cid() == cid);
        }
        if holds_cid(s, cid) {
            let i = choose|i: int| 0 <= i < s.len() && (#[trigger] s[i]).cid() == cid;
            if i < front.len() {
                assert(front[i].cid() == cid);
            }
        }
        if s.last().cid() == cid {
            assert(s[s.len() - 1].cid() == cid);
        }
        if distinct_cids(s) {
            assert forall|i: int, j: int| 0 <= i < j < front.len() implies (#[trigger] front[i]).cid()
                != (#[trigger] front[j]).cid() by {
                assert(s[i].cid() != s[j].cid());
            }
            if s.last().cid() == cid && holds_cid(front, cid) {
                let i = choose|i: int| 0 <= i < front.len() && (#[trigger] front[i]).cid() == cid;
                assert(s[i].cid() != s[s.len() - 1].cid());
            }
        }
    }
}

/// What a merge leaves: the entries the buffer held, in their places; of a
/// post the buffer showed, as many entries as before; of a post only the
/// new entries show, one entry; and of no other post any.
pub proof fn lemma_merged(feed: Seq<FeedViewPostFlat>, more: Seq<FeedViewPostFlat>)
    ensures
        feed.len() <= merged(feed, more).len() <= feed.len() + more.len(),
        merged(feed, more).take(feed.len() as int) == feed,
        forall|cid: Seq<char>| #[trigger]
            holds_cid(merged(feed, more), cid) <==> holds_cid(feed, cid) || holds_cid(more, cid),
        forall|cid: Seq<char>| #[trigger]
            occurrences(merged(feed, more), cid) == if holds_cid(feed, cid) {
                occurrences(feed, cid)
            } else if holds_cid(more, cid) {
                1nat
            } else {
                0nat
            },
        distinct_cids(feed) ==> distinct_cids(merged(feed, more)),
    decreases more.len(),
{
    let out = merged(feed, more);
    if more.len() == 0 {
        assert(feed.take(feed.len() as int) =~= feed);
        assert forall|cid: Seq<char>| #[trigger]
            occurrences(out, cid) == if holds_cid(feed, cid) {
                occurrences(feed, cid)
            } else if holds_cid(more, cid) {
                1nat
            } else {
                0nat
            } by {
            lemma_occurrences_held(feed, cid);
        }
    } else {
        let front = more.drop_last();
        let last = more.last();
        let so_far = merged(feed, front);
        lemma_merged(feed, front);
        assert(out.take(feed.len() as int) =~= so_far.take(feed.len() as int));
        assert forall|cid: Seq<char>| holds_cid(more, cid) <==> (holds_cid(front, cid)
            || last.cid() == cid) by {
            if holds_cid(front, cid) {
                let i = choose|i: int| 0 <= i < front.len() && (#[trigger] front[i]).cid() == cid;
                assert(more[i].cid() == cid);
            }
            if last.cid() == cid {
                assert(more[more.len() - 1].cid() == cid);
            }
            if holds_cid(more, cid) {
                let i = choose|i: int| 0 <= i < more.len() && (#[trigger] more[i]).cid() == cid;
                if i < front.len() {
                    assert(front[i].cid() == cid);
                }
            }
        }
        assert forall|cid: Seq<char>| #[trigger]
            holds_cid(out, cid) <==> holds_cid(feed, cid) || holds_cid(more, cid) by {
            assert(holds_cid(so_far, cid) <==> holds_cid(feed, cid) || holds_cid(front, cid));
            lemma_occurrences_held(out, cid);
            lemma_occurrences_held(so_far, cid);
            lemma_occurrences_push(so_far, last, cid);
        }
        assert forall|cid: Seq<char>| #[trigger]
            occurrences(out, cid) == if holds_cid(feed, cid) {
                occurrences(feed, cid)
            } else if holds_cid(more, cid) {
                1nat
            } else {
                0nat
            } by {
            assert(occurrences(so_far, cid) == if holds_cid(feed, cid) {
                occurrences(feed, cid)
            } else if holds_cid(front, cid) {
                1nat
            } else {
                0nat
            });
            assert(holds_cid(so_far, cid) <==> holds_cid(feed, cid) || holds_cid(front, cid));
            lemma_occurrences_push(so_far, last, cid);
            lemma_occurrences_held(so_far, cid);
        }
        if distinct_cids(feed) && !holds_cid(so_far, last.cid()) {
            assert forall|i: int, j: int| 0 <= i < j < out.len() implies (#[trigger] out[i]).cid() != (
            #[trigger] out[j]).cid() by {
                if j < so_far.len() {
                    assert(so_far[i].cid() != so_far[j].cid());
                } else {
                    assert(so_far[i].cid() != last.cid());
                }
            }
        }
    }
}

/// Tells whether some entry of `feed` shows the same post as `item`.
pub fn contains(feed: &Vec<FeedViewPostFlat>, item: &FeedViewPostFlat) -> (r: bool)
    ensures
        r == holds_cid(feed@, item.cid()),
{
    let mut i: usize = 0;
    while i < feed.len()
        invariant
            i <= feed.len(),
            forall|j: int| 0 <= j < i ==> (#[trigger] feed@[j]).cid() != item.cid(),
        decreases feed.len() - i,
    {
        if feed[i] == *item {
            return true;
        }
        i += 1;
    }
    false
}

/// Copies the entries of a feed.
pub fn duplicate_feed(feed: &Vec<FeedViewPostFlat>) -> (r: Vec<FeedViewPostFlat>)
    ensures
        r@ == feed@,
{
    let mut out: Vec<FeedViewPostFlat> = Vec::new();
    let mut i: usize = 0;
    while i < feed.len()
        invariant
            i <= feed.len(),
            out@ == feed@.take(i as int),
        decreases feed.len() - i,
    {
        out.push(feed[i].duplicate());
        proof {
            assert(feed@.take(i + 1) =~= feed@.take(i as int).push(feed@[i as int]));
        }
        i += 1;
    }
    proof {
        assert(feed@.take(i as int) =~= feed@);
    }
    out
}

/// Empties the buffer: a snapshot without entries is published.
pub fn clean_feed(feed: &mut Option<Vec<FeedViewPostFlat>>)
    ensures
        *final(feed) matches Some(v) && v@ == Seq::<FeedViewPostFlat>::empty(),
{
    *feed = Some(Vec::new());
}

/// Publishes a snapshot in the place of the one before.
pub fn publish(feed: &mut Option<Vec<FeedViewPostFlat>>, entries: Vec<FeedViewPostFlat>)
    ensures
        *final(feed) == Some(entries),
{
    *feed = Some(entries);
}

/// Grows the buffer by the entries of `more` that it does not hold yet: an
/// entry is held where an entry before it shows the same post. What the
/// buffer held stays, in its place.
pub fn merge_feed(feed: &mut Option<Vec<FeedViewPostFlat>>, more: Vec<FeedViewPostFlat>)
    ensures
        *final(feed) matches Some(v) && v@ == merged(snapshot_of(*old(feed)), more@),
{
    let mut existing: Vec<FeedViewPostFlat> = match feed.take() {
        Some(v) => v,
        None => Vec::new(),
    };
    let ghost before = existing@;
    let ghost all = more@;
    let mut rest = more;
    let ghost mut done: Seq<FeedViewPostFlat> = Seq::empty();
    while rest.len() > 0
        invariant
            done + rest@ == all,
            existing@ == merged(before, done),
        decreases rest.len(),
    {
        let item = rest.remove(0);
        proof {
            let next = done.push(item);
            assert(next.drop_last() =~= done);
            assert(next + rest@ =~= all);
            done = next;
        }
        if !contains(&existing, &item) {
            existing.push(item);
        }
    }
    proof {
        assert(done =~= all);
    }
    *feed = Some(existing);
}

/// The entries the buffer holds, copied: none where nothing was published.
pub fn snapshot(feed: &Option<Vec<FeedViewPostFlat>>) -> (r: Option<Vec<FeedViewPostFlat>>)
    ensures
        r is Some == *feed is Some,
        r matches Some(v) ==> v@ == feed->0@,
{
    match feed {
        Some(v) => Some(duplicate_feed(v)),
        None => None,
    }
}

} // verus!
