//! Filling the cache backwards from a post the reader already has: how far
//! back to look, when the cache holds enough, and when to ask the remote
//! timeline for an older page.

use crate::commands::GetTimelineArgs;
use crate::model::{FeedViewPostFlat, TimelinePage};
use crate::store::{lemma_wider_span_shows_more, unreadable_items, CacheStore, Span, Tables};
use crate::time::{
    checked_add_minutes, checked_sub_minutes, format_rfc3339, minutes_earlier, minutes_later,
    rfc3339_text, Timestamp,
};
use vstd::prelude::*;

verus! {

/// How far before the cursor the cache is searched, in minutes.
pub const LOOKBACK_MINUTES: i64 = 300;

/// How far the cursor moves back before each request, in minutes.
pub const STEP_MINUTES: i64 = 30;

/// How many pages one backfill asks the remote timeline for at most.
pub const FETCH_CAP: u32 = 11;

/// How many older entries a backfill looks for where the caller names no number.
pub const TARGET_COUNT: usize = 11;

/// How far behind a post a refresh from that post starts, in minutes.
pub const REFRESH_AHEAD_MINUTES: i64 = 10;

/// The name under which the cursors of the home timeline are recorded.
pub const TIMELINE: &'static str = "default";

/// Why a backfill or a refresh cannot start.
#[derive(Clone, Copy, Debug, PartialEq, Eq, Structural)]
pub enum BackfillError {
    /// The feed has no entry with the given content identifier, or no post
    /// is stored for it.
    NotFound,
    /// The calendar does not reach as far as the search would have to.
    OutOfRange,
}

/// Where a backfill stands. The entries it looks at are those created from
/// `lower` on and before `anchor`, the creation time of the post it started
/// from; `cursor` is where the last request to the remote timeline started.
/// At the start `cursor` is `anchor` and `lower` lies [`LOOKBACK_MINUTES`]
/// before it; with every request both move [`STEP_MINUTES`] back.
#[derive(Clone, Copy, Debug, PartialEq, Eq, Structural)]
pub struct Backfill {
    pub anchor: Timestamp,
    pub cursor: Timestamp,
    pub lower: Timestamp,
    pub target: usize,
    pub fetches_left: u32,
}

/// What a backfill decides when it is told how much the cache holds.
#[derive(Debug)]
pub enum Verdict {
    /// Ask the remote timeline for a page and store what comes back.
    Fetch(GetTimelineArgs),
    /// Stop: the entries for the reader are those created within this span.
    Read(Span),
}

/// What a backfill does next.
#[derive(Debug)]
pub enum Step {
    /// Ask the remote timeline for a page and store what comes back.
    Fetch(GetTimelineArgs),
    /// Stop: these are the older entries for the reader.
    Done(Vec<FeedViewPostFlat>),
}

/// How a backfill ends: where it stands and what the cache holds then, the
/// entries for the reader, the number of requests that were made, and the
/// number of entries among the answers that were refused.
pub struct Outcome {
    pub state: Backfill,
    pub tables: Tables,
    pub batch: Seq<FeedViewPostFlat>,
    pub fetches: nat,
    pub refused: nat,
}

impl Outcome {
    /// This end, reached after `n` requests were made before it, whose
    /// answers held `refused` entries that were refused.
    pub open spec fn later(self, n: nat, refused: nat) -> Outcome {
        Outcome { fetches: self.fetches + n, refused: self.refused + refused, ..self }
    }
}

/// How many entries of the answer to a request are refused when it is
/// stored: those with a creation time that does not read as a date and
/// time. A request that failed brings no entry.
pub open spec fn refused_in(answer: Option<TimelinePage>) -> nat {
    match answer {
        Some(page) => unreadable_items(page.feed@),
        None => 0,
    }
}

/// The tables after the answer to a request is stored: a page is written,
/// its cursor under the name `timeline`, and a request that failed leaves
/// the tables alone.
pub open spec fn absorbed(t: Tables, answer: Option<TimelinePage>, timeline: String) -> Tables {
    match answer {
        Some(page) => t.with_page(page, timeline),
        None => t,
    }
}

impl Backfill {
    /// The entries the backfill looks at.
    pub open spec fn window(self) -> Span {
        Span::Window { from: self.lower, until: self.anchor }
    }

    /// Whether the cache holds more entries in the window than were asked for.
    pub open spec fn dense(self, t: Tables) -> bool {
        t.hits(self.window()).len() > self.target
    }

    /// The backfill one step further back: the cursor and the start of the
    /// window each lie [`STEP_MINUTES`] earlier. There is none where no
    /// request is left, or where the calendar does not reach that far.
    pub open spec fn stepped_back(self) -> Option<Backfill> {
        if self.fetches_left == 0 {
            None
        } else {
            match (
                minutes_earlier(self.cursor, STEP_MINUTES),
                minutes_earlier(self.lower, STEP_MINUTES),
            ) {
                (Some(cursor), Some(lower)) => if rfc3339_text(cursor) is Some {
                    Some(
                        Backfill {
                            cursor,
                            lower,
                            fetches_left: (self.fetches_left - 1) as u32,
                            ..self
                        },
                    )
                } else {
                    None
                },
                _ => None,
            }
        }
    }

    /// The token of the request that goes with a step back: the cursor the
    /// step arrives at, as text.
    pub open spec fn step_token(self) -> Seq<char> {
        rfc3339_text(self.stepped_back()->0.cursor)->0
    }

    /// Whether the backfill stops here, the cache being what it is.
    pub open spec fn finished(self, t: Tables) -> bool {
        self.dense(t) || self.stepped_back() is None
    }

    /// The backfill that starts from the feed entry with the content
    /// identifier `cid`.
    pub open spec fn begun(t: Tables, cid: Seq<char>, target: usize) -> Result<
        Backfill,
        BackfillError,
    > {
        match t.feed_post(cid) {
            Some(row) => match minutes_earlier(row.at, LOOKBACK_MINUTES) {
                Some(lower) => Ok(
                    Backfill {
                        anchor: row.at,
                        cursor: row.at,
                        lower,
                        target,
                        fetches_left: FETCH_CAP,
                    },
                ),
                None => Err(BackfillError::OutOfRange),
            },
            None => Err(BackfillError::NotFound),
        }
    }

    /// Where the whole backfill ends when the remote timeline gives
    /// `answers` to its requests, in this order, and no data once they are
    /// used up.
    pub open spec fn run(self, t: Tables, answers: Seq<Option<TimelinePage>>, timeline: String) -> Outcome
        decreases self.fetches_left,
    {
        if self.finished(t) {
            Outcome {
                state: self,
                tables: t,
                batch: t.timeline(self.window()),
                fetches: 0,
                refused: 0,
            }
        } else {
            let next = self.stepped_back()->0;
            let (answer, rest) = if answers.len() > 0 {
                (answers.first(), answers.drop_first())
            } else {
                (None, answers)
            };
            next.run(absorbed(t, answer, timeline), rest, timeline).later(1, refused_in(answer))
        }
    }

    /// Starts a backfill from the feed entry with the content identifier
    /// `cid`, looking for more than `target_count` older entries. The window
    /// starts before the creation time of that entry's post: outside a leap
    /// second, [`LOOKBACK_MINUTES`] times sixty seconds before it.
    pub fn begin(store: &CacheStore, cid: &String, target_count: usize) -> (r: Result<
        Backfill,
        BackfillError,
    >)
        requires
            store.wf(),
        ensures
            r == Backfill::begun(store@, cid@, target_count),
            r matches Ok(b) ==> b.lower.is_before(b.anchor),
            r matches Ok(b) ==> b.anchor.plain() ==> b.lower.is_minutes_before(
                b.anchor,
                LOOKBACK_MINUTES as int,
            ),
    {
        match store.feed_post_row(cid) {
            Some(row) => match checked_sub_minutes(row.at, LOOKBACK_MINUTES) {
                Some(lower) => Ok(
                    Backfill {
                        anchor: row.at,
                        cursor: row.at,
                        lower,
                        target: target_count,
                        fetches_left: FETCH_CAP,
                    },
                ),
                None => Err(BackfillError::OutOfRange),
            },
            None => Err(BackfillError::NotFound),
        }
    }

    /// Moves the backfill one step back where a request is left and the
    /// calendar reaches that far, and hands out the token of the request.
    /// The cursor and the start of the window both move to an earlier
    /// instant: outside a leap second, by [`STEP_MINUTES`] times sixty
    /// seconds.
    pub fn step_back(&mut self) -> (r: Option<String>)
        ensures
            r is Some == old(self).stepped_back() is Some,
            r is Some ==> final(self).lower.is_before(old(self).lower),
            r is Some ==> final(self).cursor.is_before(old(self).cursor),
            r is Some && old(self).cursor.plain() ==> final(self).cursor.is_minutes_before(
                old(self).cursor,
                STEP_MINUTES as int,
            ),
            r is Some && old(self).lower.plain() ==> final(self).lower.is_minutes_before(
                old(self).lower,
                STEP_MINUTES as int,
            ),
            r matches Some(token) ==> *final(self) == old(self).stepped_back()->0 && token@
                == old(self).step_token(),
            r is None ==> *final(self) == *old(self),
    {
        if self.fetches_left == 0 {
            return None;
        }
        match (
            checked_sub_minutes(self.cursor, STEP_MINUTES),
            checked_sub_minutes(self.lower, STEP_MINUTES),
        ) {
            (Some(cursor), Some(lower)) => match format_rfc3339(cursor) {
                Some(token) => {
                    self.cursor = cursor;
                    self.lower = lower;
                    self.fetches_left = self.fetches_left - 1;
                    Some(token)
                },
                None => None,
            },
            _ => None,
        }
    }

    /// Whether the window of `later` holds every instant that the window of
    /// `self` holds: both end at one instant, and `later` starts no later.
    pub open spec fn widened_to(self, later: Backfill) -> bool {
        later.anchor == self.anchor && !self.lower.is_before(later.lower)
    }

    /// Decides what the backfill does next, `held` being the number of
    /// entries the cache holds in the window. Where that is more than were
    /// asked for, the backfill stops, and so it does where no request is
    /// left or the calendar ends: the window is to be read. Else it moves
    /// one step back and asks for the page at its new cursor.
    pub fn decide(&mut self, held: usize) -> (r: Verdict)
        ensures
            old(self).widened_to(*final(self)),
            (held > old(self).target || old(self).stepped_back() is None) ==> {
                &&& *final(self) == *old(self)
                &&& r == Verdict::Read(old(self).window())
            },
            !(held > old(self).target || old(self).stepped_back() is None) ==> {
                &&& *final(self) == old(self).stepped_back()->0
                &&& r matches Verdict::Fetch(args)
                &&& args.asks_from(Some(old(self).step_token()))
            },
    {
        let window = Span::Window { from: self.lower, until: self.anchor };
        if held > self.target {
            return Verdict::Read(window);
        }
        match self.step_back() {
            Some(token) => Verdict::Fetch(GetTimelineArgs::starting_at(Some(token))),
            None => Verdict::Read(window),
        }
    }

    /// Decides what the backfill does next with the cache at hand. Where
    /// the cache holds more entries in the window than were asked for, it
    /// stops with the timeline of the window; so it does where no request
    /// is left or the calendar ends. Else it moves one step back and asks
    /// for the page at its new cursor.
    pub fn step(&mut self, store: &CacheStore) -> (r: Step)
        requires
            store.wf(),
        ensures
            old(self).finished(store@) ==> {
                &&& *final(self) == *old(self)
                &&& r matches Step::Done(batch)
                &&& batch@ == store@.timeline(old(self).window())
            },
            !old(self).finished(store@) ==> {
                &&& *final(self) == old(self).stepped_back()->0
                &&& r matches Step::Fetch(args)
                &&& args.asks_from(Some(old(self).step_token()))
            },
            old(self).widened_to(*final(self)),
    {
        let window = Span::Window { from: self.lower, until: self.anchor };
        match self.decide(store.count(&window)) {
            Verdict::Fetch(args) => Step::Fetch(args),
            Verdict::Read(span) => Step::Done(store.select(&span, None)),
        }
    }
}

/// A backfill makes no more requests than it has left: it ends, whatever
/// the remote timeline answers.
pub proof fn lemma_run_bounded(
    start: Backfill,
    t: Tables,
    answers: Seq<Option<TimelinePage>>,
    timeline: String,
)
    ensures
        start.run(t, answers, timeline).fetches <= start.fetches_left,
        start.run(t, answers, timeline).state.fetches_left + start.run(
            t,
            answers,
            timeline,
        ).fetches == start.fetches_left,
    decreases start.fetches_left,
{
    if !start.finished(t) {
        let next = start.stepped_back()->0;
        let (answer, rest) = if answers.len() > 0 {
            (answers.first(), answers.drop_first())
        } else {
            (None, answers)
        };
        lemma_run_bounded(next, absorbed(t, answer, timeline), rest, timeline);
    }
}

/// A backfill that starts from a feed entry ends after [`FETCH_CAP`]
/// requests at most, whatever the cache holds and whatever the remote
/// timeline answers, be it nothing at all.
pub proof fn lemma_backfill_ends_within_cap(
    t: Tables,
    cid: Seq<char>,
    target: usize,
    answers: Seq<Option<TimelinePage>>,
    timeline: String,
)
    ensures
        Backfill::begun(t, cid, target) matches Ok(start) ==> start.run(
            t,
            answers,
            timeline,
        ).fetches <= FETCH_CAP,
{
    if Backfill::begun(t, cid, target) is Ok {
        lemma_run_bounded(Backfill::begun(t, cid, target)->Ok_0, t, answers, timeline);
    }
}

/// Where a backfill ends it hands out the timeline of its window as the
/// cache holds it then; and it ends because that window holds more than was
/// asked for, or because no step back is left.
pub proof fn lemma_run_ends(
    start: Backfill,
    t: Tables,
    answers: Seq<Option<TimelinePage>>,
    timeline: String,
)
    ensures
        ({
            let end = start.run(t, answers, timeline);
            &&& end.batch == end.tables.timeline(end.state.window())
            &&& end.state.finished(end.tables)
            &&& end.state.anchor == start.anchor
            &&& end.state.target == start.target
        }),
    decreases start.fetches_left,
{
    if !start.finished(t) {
        let next = start.stepped_back()->0;
        let (answer, rest) = if answers.len() > 0 {
            (answers.first(), answers.drop_first())
        } else {
            (None, answers)
        };
        lemma_run_ends(next, absorbed(t, answer, timeline), rest, timeline);
    }
}

/// Where the remote timeline has nothing to give, a backfill leaves the
/// cache as it is, and still ends with the timeline of its window.
pub proof fn lemma_run_on_silence(
    start: Backfill,
    t: Tables,
    answers: Seq<Option<TimelinePage>>,
    timeline: String,
)
    requires
        forall|k: int| 0 <= k < answers.len() ==> answers[k] is None,
    ensures
        start.run(t, answers, timeline).tables == t,
        start.run(t, answers, timeline).refused == 0,
        start.run(t, answers, timeline).batch == t.timeline(
            start.run(t, answers, timeline).state.window(),
        ),
        start.run(t, answers, timeline).fetches <= start.fetches_left,
    decreases start.fetches_left,
{
    lemma_run_ends(start, t, answers, timeline);
    lemma_run_bounded(start, t, answers, timeline);
    if !start.finished(t) {
        let next = start.stepped_back()->0;
        if answers.len() > 0 {
            assert(answers[0] is None);
            let rest = answers.drop_first();
            assert forall|k: int| 0 <= k < rest.len() implies rest[k] is None by {
                assert(rest[k] == answers[k + 1]);
            }
            lemma_run_on_silence(next, t, rest, timeline);
        } else {
            lemma_run_on_silence(next, t, answers, timeline);
        }
    }
}

/// Where the window of a backfill has only grown, the backfill hands out
/// whatever the cache shows, at its end, in the window it started with:
/// nothing that was gathered on the way is left behind.
pub proof fn lemma_run_serves_first_window(
    start: Backfill,
    t: Tables,
    answers: Seq<Option<TimelinePage>>,
    timeline: String,
)
    requires
        start.widened_to(start.run(t, answers, timeline).state),
    ensures
        forall|v: FeedViewPostFlat| #[trigger]
            start.run(t, answers, timeline).tables.hits(start.window()).contains(v)
                ==> start.run(t, answers, timeline).batch.contains(v),
{
    let end = start.run(t, answers, timeline);
    lemma_run_ends(start, t, answers, timeline);
    assert forall|x: Timestamp| start.window().admits(x) implies end.state.window().admits(x) by {
    }
    lemma_wider_span_shows_more(end.tables, start.window(), end.state.window());
}

/// The request that refreshes the timeline from the feed entry with the
/// content identifier `cid`: it starts [`REFRESH_AHEAD_MINUTES`] after the
/// creation time of that entry's post.
pub open spec fn refresh_token(t: Tables, cid: Seq<char>) -> Result<Seq<char>, BackfillError> {
    match t.feed_post(cid) {
        Some(row) => match minutes_later(row.at, REFRESH_AHEAD_MINUTES) {
            Some(cursor) => match rfc3339_text(cursor) {
                Some(token) => Ok(token),
                None => Err(BackfillError::OutOfRange),
            },
            None => Err(BackfillError::OutOfRange),
        },
        None => Err(BackfillError::NotFound),
    }
}

/// Makes the request that refreshes the timeline from the feed entry with
/// the content identifier `cid`.
pub fn refresh_request(store: &CacheStore, cid: &String) -> (r: Result<
    GetTimelineArgs,
    BackfillError,
>)
    requires
        store.wf(),
    ensures
        match refresh_token(store@, cid@) {
            Ok(token) => r matches Ok(args) && args.asks_from(Some(token)),
            Err(e) => r == Err::<GetTimelineArgs, BackfillError>(e),
        },
{
    match store.feed_post_row(cid) {
        Some(row) => match checked_add_minutes(row.at, REFRESH_AHEAD_MINUTES) {
            Some(cursor) => match format_rfc3339(cursor) {
                Some(token) => Ok(GetTimelineArgs::starting_at(Some(token))),
                None => Err(BackfillError::OutOfRange),
            },
            None => Err(BackfillError::OutOfRange),
        },
        None => Err(BackfillError::NotFound),
    }
}

} // verus!
