//! The order in which the timeline is served: newest first, and entries of
//! one instant in the order they came in.

use crate::model::{compare_records_by_created_at, FeedViewPostFlat};
use crate::time::Timestamp;
use std::cmp::Ordering;
use vstd::prelude::*;

verus! {

/// `sorted` with `v` put behind every entry that is not older than `v`.
pub open spec fn placed(sorted: Seq<FeedViewPostFlat>, v: FeedViewPostFlat) -> Seq<
    FeedViewPostFlat,
>
    decreases sorted.len(),
{
    if sorted.len() == 0 {
        seq![v]
    } else if sorted.last().created_at.is_before(v.created_at) {
        placed(sorted.drop_last(), v).push(sorted.last())
    } else {
        sorted.push(v)
    }
}

/// The entries of `s` from the newest to the oldest, entries of one instant
/// in the order they have in `s`.
pub open spec fn newest_first(s: Seq<FeedViewPostFlat>) -> Seq<FeedViewPostFlat>
    decreases s.len(),
{
    if s.len() == 0 {
        Seq::empty()
    } else {
        placed(newest_first(s.drop_last()), s.last())
    }
}

/// Whether no entry of `r` is older than one that follows it.
pub open spec fn descending(r: Seq<FeedViewPostFlat>) -> bool {
    forall|i: int, j: int|
        0 <= i < j < r.len() ==> !(#[trigger] r[i]).created_at.is_before((#[trigger] r[j]).created_at)
}

/// The entries of `s` that were created at the instant of `t`, in their order.
pub open spec fn created_at_instant(s: Seq<FeedViewPostFlat>, t: Timestamp) -> Seq<
    FeedViewPostFlat,
> {
    s.filter(|v: FeedViewPostFlat| v.created_at.same_instant(t))
}

/// Where `v` goes: `placed` is an insertion at the index behind the last
/// entry that is not older than `v`.
pub proof fn lemma_placed_is_insert(sorted: Seq<FeedViewPostFlat>, v: FeedViewPostFlat, p: int)
    requires
        0 <= p <= sorted.len(),
        forall|j: int| p <= j < sorted.len() ==> (#[trigger] sorted[j]).created_at.is_before(v.created_at),
        p > 0 ==> !sorted[p - 1].created_at.is_before(v.created_at),
    ensures
        placed(sorted, v) == sorted.insert(p, v),
    decreases sorted.len(),
{
    if sorted.len() == 0 {
        assert(seq![v] =~= sorted.insert(p, v));
    } else if sorted.last().created_at.is_before(v.created_at) {
        let front = sorted.drop_last();
        assert(p < sorted.len());
        assert forall|j: int| p <= j < front.len() implies (#[trigger] front[j]).created_at.is_before(
            v.created_at,
        ) by {
            assert(front[j] == sorted[j]);
        }
        if p > 0 {
            assert(front[p - 1] == sorted[p - 1]);
        }
        lemma_placed_is_insert(front, v, p);
        assert(front.insert(p, v).push(sorted.last()) =~= sorted.insert(p, v));
    } else {
        if p < sorted.len() {
            assert(sorted[sorted.len() - 1].created_at.is_before(v.created_at));
        }
        assert(sorted.push(v) =~= sorted.insert(p, v));
    }
}

/// The entries of `s.push(x)` created at the instant of `t` are those of
/// `s`, and `x` behind them where it was created then.
pub proof fn lemma_created_at_instant_push(s: Seq<FeedViewPostFlat>, x: FeedViewPostFlat, t: Timestamp)
    ensures
        created_at_instant(s.push(x), t) == if x.created_at.same_instant(t) {
            created_at_instant(s, t).push(x)
        } else {
            created_at_instant(s, t)
        },
{
    reveal(Seq::filter);
    assert(s.push(x).drop_last() =~= s);
}

/// Placing an entry keeps a descending sequence descending, makes it one
/// longer, and adds that entry and no other; among the entries of its own
/// instant the placed entry comes last.
pub proof fn lemma_placed(sorted: Seq<FeedViewPostFlat>, v: FeedViewPostFlat)
    ensures
        placed(sorted, v).len() == sorted.len() + 1,
        placed(sorted, v).to_multiset() == sorted.to_multiset().insert(v),
        descending(sorted) ==> descending(placed(sorted, v)),
        forall|t: Timestamp|
            #[trigger] created_at_instant(placed(sorted, v), t) == if v.created_at.same_instant(t) {
                created_at_instant(sorted, t).push(v)
            } else {
                created_at_instant(sorted, t)
            },
    decreases sorted.len(),
{
    broadcast use vstd::seq_lib::to_multiset_build;

    let out = placed(sorted, v);
    if sorted.len() == 0 {
        assert(sorted =~= Seq::empty());
        assert(seq![v] =~= sorted.push(v));
        assert forall|t: Timestamp|
            #[trigger] created_at_instant(out, t) == if v.created_at.same_instant(t) {
                created_at_instant(sorted, t).push(v)
            } else {
                created_at_instant(sorted, t)
            } by {
            lemma_created_at_instant_push(sorted, v, t);
        }
    } else if sorted.last().created_at.is_before(v.created_at) {
        let front = sorted.drop_last();
        let last = sorted.last();
        lemma_placed(front, v);
        let inner = placed(front, v);
        assert(sorted =~= front.push(last));
        assert(out.to_multiset() =~= sorted.to_multiset().insert(v));
        if descending(sorted) {
            assert forall|i: int, j: int| 0 <= i < j < front.len() implies !(#[trigger] front[i]).created_at.is_before(
                (#[trigger] front[j]).created_at,
            ) by {
                assert(front[i] == sorted[i] && front[j] == sorted[j]);
            }
            assert(descending(inner));
            assert forall|i: int, j: int| 0 <= i < j < out.len() implies !(#[trigger] out[i]).created_at.is_before(
                (#[trigger] out[j]).created_at,
            ) by {
                if j < inner.len() {
                    assert(out[i] == inner[i] && out[j] == inner[j]);
                } else {
                    assert(out[i] == inner[i]);
                    assert(inner.to_multiset().count(inner[i]) > 0) by {
                        inner.to_multiset_ensures();
                    }
                    if inner[i] != v {
                        assert(front.to_multiset().count(inner[i]) > 0);
                        front.to_multiset_ensures();
                        let k = choose|k: int| 0 <= k < front.len() && front[k] == inner[i];
                        assert(sorted[k] == inner[i]);
                        assert(!sorted[k].created_at.is_before(sorted[sorted.len() - 1].created_at));
                    }
                }
            }
        }
        assert forall|t: Timestamp|
            #[trigger] created_at_instant(out, t) == if v.created_at.same_instant(t) {
                created_at_instant(sorted, t).push(v)
            } else {
                created_at_instant(sorted, t)
            } by {
            lemma_created_at_instant_push(inner, last, t);
            lemma_created_at_instant_push(front, last, t);
            assert(created_at_instant(inner, t) == if v.created_at.same_instant(t) {
                created_at_instant(front, t).push(v)
            } else {
                created_at_instant(front, t)
            });
        }
    } else {
        if descending(sorted) {
            assert forall|i: int, j: int| 0 <= i < j < out.len() implies !(#[trigger] out[i]).created_at.is_before(
                (#[trigger] out[j]).created_at,
            ) by {
                if j < sorted.len() {
                    assert(out[i] == sorted[i] && out[j] == sorted[j]);
                } else {
                    assert(out[i] == sorted[i]);
                    if i < sorted.len() - 1 {
                        assert(!sorted[i].created_at.is_before(sorted[sorted.len() - 1].created_at));
                    }
                }
            }
        }
        assert forall|t: Timestamp|
            #[trigger] created_at_instant(out, t) == if v.created_at.same_instant(t) {
                created_at_instant(sorted, t).push(v)
            } else {
                created_at_instant(sorted, t)
            } by {
            lemma_created_at_instant_push(sorted, v, t);
        }
    }
}

/// The timeline's order is descending, holds the entries it was made from,
/// each as often as it was given, and keeps entries of one instant in the
/// order they were given in.
pub proof fn lemma_newest_first(s: Seq<FeedViewPostFlat>)
    ensures
        newest_first(s).len() == s.len(),
        newest_first(s).to_multiset() == s.to_multiset(),
        descending(newest_first(s)),
        forall|t: Timestamp| #[trigger]
            created_at_instant(newest_first(s), t) == created_at_instant(s, t),
    decreases s.len(),
{
    broadcast use vstd::seq_lib::to_multiset_build;

    if s.len() == 0 {
        assert(s =~= Seq::empty());
    } else {
        let front = s.drop_last();
        lemma_newest_first(front);
        lemma_placed(newest_first(front), s.last());
        assert(s =~= front.push(s.last()));
        assert forall|t: Timestamp| #[trigger]
            created_at_instant(newest_first(s), t) == created_at_instant(s, t) by {
            lemma_created_at_instant_push(front, s.last(), t);
            assert(created_at_instant(newest_first(front), t) == created_at_instant(front, t));
        }
    }
}

/// Whether every entry of `r` is newer than the ones that follow it.
pub open spec fn strictly_descending(r: Seq<FeedViewPostFlat>) -> bool {
    forall|i: int, j: int|
        0 <= i < j < r.len() ==> (#[trigger] r[j]).created_at.is_before((#[trigger] r[i]).created_at)
}

/// Whether no two entries of `s` were created at one instant.
pub open spec fn distinct_instants(s: Seq<FeedViewPostFlat>) -> bool {
    forall|i: int, j: int|
        0 <= i < j < s.len() ==> !(#[trigger] s[i]).created_at.same_instant(
            (#[trigger] s[j]).created_at,
        )
}

/// An entry is placed at some index, and every other entry keeps its order.
pub proof fn lemma_placed_somewhere(sorted: Seq<FeedViewPostFlat>, v: FeedViewPostFlat) -> (p: int)
    ensures
        0 <= p <= sorted.len(),
        placed(sorted, v) == sorted.insert(p, v),
    decreases sorted.len(),
{
    if sorted.len() == 0 {
        assert(seq![v] =~= sorted.insert(0, v));
        0
    } else if sorted.last().created_at.is_before(v.created_at) {
        let p = lemma_placed_somewhere(sorted.drop_last(), v);
        assert(sorted.drop_last().insert(p, v).push(sorted.last()) =~= sorted.insert(p, v));
        p
    } else {
        assert(sorted.push(v) =~= sorted.insert(sorted.len() as int, v));
        sorted.len() as int
    }
}

/// Entries that were created at different instants come out with every
/// entry newer than the ones that follow it, in whatever order they went in.
pub proof fn lemma_newest_first_strict(s: Seq<FeedViewPostFlat>)
    requires
        distinct_instants(s),
    ensures
        strictly_descending(newest_first(s)),
    decreases s.len(),
{
    if s.len() > 0 {
        let front = s.drop_last();
        let v = s.last();
        assert forall|i: int, j: int| 0 <= i < j < front.len() implies !(#[trigger] front[i]).created_at.same_instant(
            (#[trigger] front[j]).created_at,
        ) by {
            assert(front[i] == s[i] && front[j] == s[j]);
        }
        lemma_newest_first_strict(front);
        lemma_newest_first(front);
        lemma_newest_first(s);
        let sorted = newest_first(front);
        let out = newest_first(s);
        let p = lemma_placed_somewhere(sorted, v);
        assert forall|k: int| 0 <= k < sorted.len() implies !(#[trigger] sorted[k]).created_at.same_instant(
            v.created_at,
        ) by {
            assert(sorted.contains(sorted[k]));
            vstd::seq_lib::to_multiset_contains(sorted, sorted[k]);
            vstd::seq_lib::to_multiset_contains(front, sorted[k]);
            let m = choose|m: int| 0 <= m < front.len() && front[m] == sorted[k];
            assert(s[m] == sorted[k]);
            assert(!s[m].created_at.same_instant(s[s.len() - 1].created_at));
        }
        assert forall|i: int, j: int| 0 <= i < j < out.len() implies (#[trigger] out[j]).created_at.is_before(
            (#[trigger] out[i]).created_at,
        ) by {
            assert(!out[i].created_at.is_before(out[j].created_at));
            if i == p {
                assert(out[j] == sorted[j - 1]);
            } else if j == p {
                assert(out[i] == sorted[i]);
            } else {
                let a = if i < p {
                    i
                } else {
                    i - 1
                };
                let b = if j < p {
                    j
                } else {
                    j - 1
                };
                assert(out[i] == sorted[a] && out[j] == sorted[b]);
            }
        }
    }
}

/// Puts `v` into a timeline, behind every entry that is not older than `v`.
pub fn place(sorted: &mut Vec<FeedViewPostFlat>, v: FeedViewPostFlat)
    ensures
        final(sorted)@ == placed(old(sorted)@, v),
{
    let mut p: usize = sorted.len();
    while p > 0 && goes_behind(&sorted[p - 1], &v)
        invariant
            p <= sorted.len(),
            forall|j: int|
                p <= j < sorted.len() ==> (#[trigger] sorted@[j]).created_at.is_before(v.created_at),
        decreases p,
    {
        p -= 1;
    }
    proof {
        lemma_placed_is_insert(sorted@, v, p as int);
    }
    sorted.insert(p, v);
}

/// Tells whether `a` is to stand behind `b`, being the older one.
pub fn goes_behind(a: &FeedViewPostFlat, b: &FeedViewPostFlat) -> (r: bool)
    ensures
        r == a.created_at.is_before(b.created_at),
{
    match compare_records_by_created_at(a, b) {
        Ordering::Greater => true,
        _ => false,
    }
}

/// Puts a timeline in order: newest first, entries of one instant in the
/// order they had.
pub fn sort_timeline_by_created_at(timeline: &mut Vec<FeedViewPostFlat>)
    ensures
        final(timeline)@ == newest_first(old(timeline)@),
        descending(final(timeline)@),
        final(timeline)@.to_multiset() == old(timeline)@.to_multiset(),
{
    let mut out: Vec<FeedViewPostFlat> = Vec::new();
    let mut i: usize = 0;
    while i < timeline.len()
        invariant
            i <= timeline.len(),
            out@ == newest_first(timeline@.take(i as int)),
        decreases timeline.len() - i,
    {
        let v = timeline[i].duplicate();
        proof {
            assert(timeline@.take(i + 1).drop_last() =~= timeline@.take(i as int));
        }
        place(&mut out, v);
        i += 1;
    }
    proof {
        assert(timeline@.take(i as int) =~= timeline@);
        lemma_newest_first(timeline@);
    }
    *timeline = out;
}

} // verus!
