//! Pagination tokens of the remote timeline and the choice of the latest one.

use crate::time::{parse_utc, utc_reading, ParseFailure, Timestamp};
use std::cmp::Ordering;
use vstd::prelude::*;
use vstd::std_specs::cmp::{PartialEqSpecImpl, PartialOrdSpecImpl};

verus! {

/// A pagination token the remote service handed out for a named timeline.
/// The token is expected to be a date and time, and is kept as it came.
#[derive(Debug)]
pub struct TimelineCursor {
    pub cursor: String,
    pub timeline: String,
}

/// The answer to a request for a timeline, which carries nothing.
#[derive(Debug)]
pub struct TimelineResponse {}

/// How two instants stand to each other on the time line.
pub open spec fn instant_order(a: Timestamp, b: Timestamp) -> Ordering {
    if a.is_before(b) {
        Ordering::Less
    } else if b.is_before(a) {
        Ordering::Greater
    } else {
        Ordering::Equal
    }
}

impl TimelineCursor {
    /// The token.
    pub open spec fn token(&self) -> Seq<char> {
        self.cursor@
    }

    /// The name of the timeline the token belongs to.
    pub open spec fn timeline_name(&self) -> Seq<char> {
        self.timeline@
    }

    /// The instant the token reads as, where it does.
    pub open spec fn instant(&self) -> Result<Timestamp, ParseFailure> {
        utc_reading(self.token())
    }

    /// How the two tokens' instants stand to each other; `Equal` where
    /// either token does not read as an instant.
    pub open spec fn order_or_equal(&self, other: &TimelineCursor) -> Ordering {
        match (self.instant(), other.instant()) {
            (Ok(a), Ok(b)) => instant_order(a, b),
            _ => Ordering::Equal,
        }
    }

    /// A cursor of `timeline` with the token `cursor`.
    pub fn new(cursor: String, timeline: String) -> (r: TimelineCursor)
        ensures
            r == (TimelineCursor { cursor, timeline }),
    {
        TimelineCursor { cursor, timeline }
    }

    /// The token.
    pub fn cursor(&self) -> (r: &String)
        ensures
            r@ == self.token(),
    {
        &self.cursor
    }

    /// The name of the timeline.
    pub fn timeline(&self) -> (r: &String)
        ensures
            r@ == self.timeline_name(),
    {
        &self.timeline
    }

    /// A copy with the same token and timeline.
    pub fn duplicate(&self) -> (r: TimelineCursor)
        ensures
            r == *self,
    {
        TimelineCursor { cursor: self.cursor.clone(), timeline: self.timeline.clone() }
    }

    /// Orders two cursors by their instants, and calls them equal where
    /// either token does not read as an instant.
    pub fn cmp(&self, other: &TimelineCursor) -> (r: Ordering)
        ensures
            r == self.order_or_equal(other),
    {
        match (parse_utc(self.cursor.as_str()), parse_utc(other.cursor.as_str())) {
            (Ok(a), Ok(b)) => {
                if a.before(&b) {
                    Ordering::Less
                } else if b.before(&a) {
                    Ordering::Greater
                } else {
                    Ordering::Equal
                }
            },
            _ => Ordering::Equal,
        }
    }
}

impl PartialEq for TimelineCursor {
    /// Two cursors are equal when they name one timeline and their tokens
    /// read alike: as one instant, or as failures of one kind.
    fn eq(&self, other: &TimelineCursor) -> (r: bool) {
        if !(self.timeline == other.timeline) {
            return false;
        }
        match (parse_utc(self.cursor.as_str()), parse_utc(other.cursor.as_str())) {
            (Ok(a), Ok(b)) => a.same(&b),
            (Err(e), Err(f)) => e == f,
            _ => false,
        }
    }
}

impl PartialEqSpecImpl for TimelineCursor {
    open spec fn obeys_eq_spec() -> bool {
        true
    }

    open spec fn eq_spec(&self, other: &TimelineCursor) -> bool {
        self.timeline_name() == other.timeline_name() && match (self.instant(), other.instant()) {
            (Ok(a), Ok(b)) => a.same_instant(b),
            (Err(e), Err(f)) => e == f,
            _ => false,
        }
    }
}

impl Eq for TimelineCursor {

}

impl PartialOrd for TimelineCursor {
    /// Orders two cursors by their instants; they are not ordered where
    /// either token does not read as an instant.
    fn partial_cmp(&self, other: &TimelineCursor) -> (r: Option<Ordering>) {
        match (parse_utc(self.cursor.as_str()), parse_utc(other.cursor.as_str())) {
            (Ok(a), Ok(b)) => {
                if a.before(&b) {
                    Some(Ordering::Less)
                } else if b.before(&a) {
                    Some(Ordering::Greater)
                } else {
                    Some(Ordering::Equal)
                }
            },
            _ => None,
        }
    }
}

impl PartialOrdSpecImpl for TimelineCursor {
    open spec fn obeys_partial_cmp_spec() -> bool {
        true
    }

    open spec fn partial_cmp_spec(&self, other: &TimelineCursor) -> Option<Ordering> {
        match (self.instant(), other.instant()) {
            (Ok(a), Ok(b)) => Some(instant_order(a, b)),
            _ => None,
        }
    }
}

/// Whether the cursor at `i` belongs to `timeline` and reads as an instant.
pub open spec fn counts(cursors: Seq<TimelineCursor>, timeline: Seq<char>, i: int) -> bool {
    &&& 0 <= i < cursors.len()
    &&& cursors[i].timeline_name() == timeline
    &&& cursors[i].instant() is Ok
}

/// Whether the cursor at `i` is the latest of `timeline`: it counts, no
/// cursor that counts reads as a later instant, and every cursor after it
/// that counts reads as an earlier one.
pub open spec fn is_latest(cursors: Seq<TimelineCursor>, timeline: Seq<char>, i: int) -> bool {
    &&& counts(cursors, timeline, i)
    &&& forall|j: int| #[trigger]
        counts(cursors, timeline, j) ==> !cursors[i].instant()->Ok_0.is_before(
            cursors[j].instant()->Ok_0,
        )
    &&& forall|j: int|
        i < j && #[trigger] counts(cursors, timeline, j) ==> cursors[j].instant()->Ok_0.is_before(
            cursors[i].instant()->Ok_0,
        )
}

/// A timeline has one latest cursor at most.
pub proof fn lemma_latest_unique(cursors: Seq<TimelineCursor>, timeline: Seq<char>, i: int, j: int)
    requires
        is_latest(cursors, timeline, i),
        is_latest(cursors, timeline, j),
    ensures
        i == j,
{
    if i < j {
        assert(counts(cursors, timeline, j));
        assert(counts(cursors, timeline, i));
    } else if j < i {
        assert(counts(cursors, timeline, i));
        assert(counts(cursors, timeline, j));
    }
}

/// The cursor whose token reads as a later instant than every other token
/// of its timeline that reads is the latest, wherever it stands and
/// whatever tokens that do not read stand beside it.
pub proof fn lemma_latest_is_maximum(cursors: Seq<TimelineCursor>, timeline: Seq<char>, k: int)
    requires
        counts(cursors, timeline, k),
        forall|j: int|
            j != k && #[trigger] counts(cursors, timeline, j)
                ==> cursors[j].instant()->Ok_0.is_before(cursors[k].instant()->Ok_0),
    ensures
        is_latest(cursors, timeline, k),
        forall|i: int| is_latest(cursors, timeline, i) ==> i == k,
{
    assert forall|i: int| is_latest(cursors, timeline, i) implies i == k by {
        lemma_latest_unique(cursors, timeline, i, k);
    }
}

/// The token of the latest cursor of `timeline`: none where no cursor of
/// that timeline reads as an instant.
pub fn latest_cursor(cursors: &Vec<TimelineCursor>, timeline: &String) -> (r: Option<String>)
    ensures
        r is None <==> forall|i: int| !counts(cursors@, timeline@, i),
        r matches Some(token) ==> exists|i: int| #[trigger]
            is_latest(cursors@, timeline@, i) && token@ == cursors@[i].token(),
{
    let mut best: Option<(usize, Timestamp)> = None;
    let mut i: usize = 0;
    while i < cursors.len()
        invariant
            i <= cursors.len(),
            best is None ==> forall|j: int| 0 <= j < i ==> !counts(cursors@, timeline@, j),
            best matches Some((b, at)) ==> {
                &&& b < i
                &&& counts(cursors@, timeline@, b as int)
                &&& cursors@[b as int].instant() == Ok::<Timestamp, ParseFailure>(at)
                &&& forall|j: int|
                    0 <= j < i && #[trigger] counts(cursors@, timeline@, j) ==> !at.is_before(
                        cursors@[j].instant()->Ok_0,
                    )
                &&& forall|j: int|
                    b < j < i && #[trigger] counts(cursors@, timeline@, j)
                        ==> cursors@[j].instant()->Ok_0.is_before(at)
            },
        decreases cursors.len() - i,
    {
        let c = &cursors[i];
        if *c.timeline() == *timeline {
            match parse_utc(c.cursor().as_str()) {
                Ok(at) => {
                    let wins = match best {
                        Some((_, top)) => !at.before(&top),
                        None => true,
                    };
                    if wins {
                        best = Some((i, at));
                    }
                },
                Err(_) => {},
            }
        }
        i += 1;
    }
    match best {
        Some((b, _)) => {
            let token = cursors[b].cursor().clone();
            assert(is_latest(cursors@, timeline@, b as int));
            Some(token)
        },
        None => None,
    }
}

} // verus!
