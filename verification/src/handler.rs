//! What is done when the reader asks: serving the snapshot, refreshing the
//! cache from the remote timeline, and filling it backwards.

use crate::backfill::{
    absorbed, refresh_request, refresh_token, refused_in, Backfill, BackfillError, Outcome, Step,
    FETCH_CAP, TIMELINE,
};
use crate::buffer::{clean_feed, duplicate_feed, merge_feed, merged, publish, snapshot_of};
use crate::commands::{GetTimelineArgs, Messages};
use crate::model::{duplicate_text, FeedViewPostFlat, TimelinePage};
use crate::store::{CacheStore, Span, Tables};
use vstd::prelude::*;
use vstd::string::StringExecFns;

verus! {

/// The answer to a request of the reader.
#[derive(Debug)]
pub enum Reply {
    /// The entries of the snapshot.
    Feed(Vec<FeedViewPostFlat>),
    /// Nothing was published yet.
    Nil,
    /// The request is not served.
    Unimplemented,
}

/// Serves the reader's requests from the snapshot of the feed.
#[derive(Debug)]
pub struct BskyRequestHandler {
    pub feed: Option<Vec<FeedViewPostFlat>>,
}

impl BskyRequestHandler {
    /// Answers a request by its name: `read` gets the snapshot, and every
    /// other name is told that it is not served.
    pub fn handle_request(&mut self, name: &str) -> (r: Reply)
        ensures
            final(self).feed == old(self).feed,
            name@ == "read"@ ==> match old(self).feed {
                Some(f) => r matches Reply::Feed(v) && v@ == f@,
                None => r is Nil,
            },
            name@ != "read"@ ==> r is Unimplemented,
    {
        match Messages::from_request(name) {
            Messages::Read => self.handle_read_request(),
            _ => Reply::Unimplemented,
        }
    }

    /// Hands out a copy of the snapshot, or `Nil` where nothing was
    /// published yet.
    pub fn handle_read_request(&mut self) -> (r: Reply)
        ensures
            final(self).feed == old(self).feed,
            match old(self).feed {
                Some(f) => r matches Reply::Feed(v) && v@ == f@,
                None => r is Nil,
            },
    {
        match &self.feed {
            Some(f) => Reply::Feed(duplicate_feed(f)),
            None => Reply::Nil,
        }
    }
}

/// One thing to do for an event of the reader.
#[derive(Debug)]
pub enum Task {
    /// Ask the remote timeline for the page at this token, or for the most
    /// recent page, and store it.
    UpdateTimeline(Option<String>),
    /// Empty the snapshot.
    CleanFeed,
    /// Publish the cached timeline as the snapshot.
    UpdateFeed,
    /// Fill the cache backwards from the post with this content identifier.
    FetchMore(String),
    /// Nothing: the event is not served.
    Unimplemented,
}

/// What is to be done for an event, in this order. `values` are the
/// event's arguments and `now` the present time as text.
pub open spec fn planned(message: Messages, values: Seq<String>, now: String) -> Seq<Task> {
    match message {
        Messages::Update => if values.len() == 0 {
            seq![Task::UpdateTimeline(Some(now)), Task::CleanFeed, Task::UpdateFeed]
        } else {
            seq![Task::CleanFeed, Task::UpdateFeed]
        },
        Messages::FetchMore => if values.len() == 0 {
            seq![Task::Unimplemented]
        } else {
            seq![Task::FetchMore(values[0])]
        },
        Messages::Refresh => if values.len() == 0 {
            seq![Task::UpdateTimeline(None), Task::UpdateFeed]
        } else {
            seq![Task::UpdateFeed]
        },
        _ => seq![Task::Unimplemented],
    }
}

/// The token asked for at the `k`-th request of a backfill that is in the
/// state `start`.
pub open spec fn asked(start: Backfill, k: nat) -> Seq<char>
    decreases k,
{
    if k == 0 {
        start.step_token()
    } else {
        asked(start.stepped_back()->0, (k - 1) as nat)
    }
}

/// Whether `answer` is what `source` gave to a request for the page at `token`.
pub open spec fn answered<F: Fn(GetTimelineArgs) -> Option<TimelinePage>>(
    source: &F,
    token: Seq<char>,
    answer: Option<TimelinePage>,
) -> bool {
    exists|args: GetTimelineArgs|
        args.asks_from(Some(token)) && #[trigger] call_ensures(source, (args,), answer)
}

/// What a backfill hands back: the number of requests it made, the number
/// of entries among the answers that were refused (no more than `usize`
/// holds), and the older entries for the reader, the newest first.
#[derive(Debug)]
pub struct FetchReport {
    pub requests: usize,
    pub refused: usize,
    pub batch: Vec<FeedViewPostFlat>,
}

/// What one round of keeping up to date hands back: the number of entries
/// of the answer that were refused, and the cached timeline, the newest
/// entry first.
#[derive(Debug)]
pub struct RefreshReport {
    pub refused: usize,
    pub timeline: Vec<FeedViewPostFlat>,
}

/// A count as `usize` holds it: the count itself, or the greatest `usize`
/// where the count is greater.
pub open spec fn capped(n: nat) -> usize {
    if n > usize::MAX {
        usize::MAX
    } else {
        n as usize
    }
}

/// Whether a backfill from the state `start` went as follows: `source`
/// gave `answers` to its requests, one after the other; the backfill ended
/// as `end`, which left the cache holding `after`; its window had only
/// grown; and `report` tells the requests made, the entries refused, and
/// the entries found.
pub open spec fn backfilled<F: Fn(GetTimelineArgs) -> Option<TimelinePage>>(
    source: &F,
    start: Backfill,
    answers: Seq<Option<TimelinePage>>,
    end: Outcome,
    report: FetchReport,
    after: Tables,
) -> bool {
    &&& answers.len() == report.requests
    &&& forall|k: int|
        #![trigger answers[k]]
        0 <= k < answers.len() ==> answered(source, asked(start, k as nat), answers[k])
    &&& end.fetches == report.requests
    &&& end.tables == after
    &&& start.widened_to(end.state)
    &&& report.batch@ == end.batch
    &&& report.refused == capped(end.refused)
}

/// Keeps the cache up to date and decides what an event of the reader
/// leads to. `timeline` is the name its cursors are recorded under.
#[derive(Debug)]
pub struct EventHandler {
    pub db: CacheStore,
    pub timeline: String,
}

impl EventHandler {
    /// Whether the cache is in order.
    pub open spec fn wf(&self) -> bool {
        self.db.wf()
    }

    /// A handler that keeps `db` up to date and records cursors under
    /// [`TIMELINE`].
    pub fn new(db: CacheStore) -> (r: EventHandler)
        ensures
            r.db == db,
            r.timeline@ == TIMELINE@,
    {
        EventHandler { db, timeline: String::from_str(TIMELINE) }
    }

    /// Plans what is done for an event. An update without arguments
    /// fetches the page at the present time, and every update empties the
    /// snapshot and publishes the cached timeline; a refresh without
    /// arguments fetches the most recent page, and every refresh publishes
    /// the cached timeline; `more` fills backwards from the post its first
    /// argument names, and is not served where it names none. Every other
    /// event is not served.
    pub fn recv(message: Messages, values: Vec<String>, now: String) -> (r: Vec<Task>)
        ensures
            r@ == planned(message, values@, now),
    {
        let ghost given = values@;
        let mut values = values;
        let mut tasks: Vec<Task> = Vec::new();
        match message {
            Messages::Update => {
                if values.len() == 0 {
                    tasks.push(Task::UpdateTimeline(Some(now)));
                }
                tasks.push(Task::CleanFeed);
                tasks.push(Task::UpdateFeed);
            },
            Messages::FetchMore => {
                if values.len() == 0 {
                    tasks.push(Task::Unimplemented);
                } else {
                    let cid = values.swap_remove(0);
                    tasks.push(Task::FetchMore(cid));
                }
            },
            Messages::Refresh => {
                if values.len() == 0 {
                    tasks.push(Task::UpdateTimeline(None));
                }
                tasks.push(Task::UpdateFeed);
            },
            _ => {
                tasks.push(Task::Unimplemented);
            },
        }
        proof {
            assert(tasks@ =~= planned(message, given, now));
        }
        tasks
    }

    /// Empties the snapshot.
    pub fn clean_feed(&mut self, feed: &mut Option<Vec<FeedViewPostFlat>>)
        ensures
            *final(self) == *old(self),
            *final(feed) matches Some(v) && v@ == Seq::<FeedViewPostFlat>::empty(),
    {
        clean_feed(feed);
    }

    /// Grows the snapshot by the entries of `more` that it does not hold
    /// yet: see [`merged`].
    pub fn merge_feed(feed: &mut Option<Vec<FeedViewPostFlat>>, more: Vec<FeedViewPostFlat>)
        ensures
            *final(feed) matches Some(v) && v@ == merged(snapshot_of(*old(feed)), more@),
    {
        merge_feed(feed, more);
    }

    /// Publishes the whole cached timeline as the snapshot, the newest
    /// entry first.
    pub fn update_feed(&mut self, feed: &mut Option<Vec<FeedViewPostFlat>>)
        requires
            old(self).wf(),
        ensures
            *final(self) == *old(self),
            *final(feed) matches Some(v) && v@ == old(self).db@.timeline(Span::All),
    {
        let cached = self.db.read_timeline(duplicate_text(&self.timeline), None);
        publish(feed, cached);
    }

    /// Stores the answer to a request: a page is written with its cursor,
    /// and a request that failed leaves the cache as it is. The result
    /// counts the entries of the page that were refused.
    pub fn absorb(&mut self, answer: Option<TimelinePage>) -> (r: usize)
        requires
            old(self).wf(),
        ensures
            final(self).wf(),
            final(self).timeline == old(self).timeline,
            final(self).db@ == absorbed(old(self).db@, answer, old(self).timeline),
            r == refused_in(answer),
    {
        match answer {
            Some(page) => self.db.store_timeline(page, duplicate_text(&self.timeline)),
            None => 0,
        }
    }

    /// Brings the cache up to date: asks `source` for the page at `cursor`,
    /// or for the most recent page, and stores what it answers. The result
    /// counts the entries of the answer that were refused.
    pub fn update_timeline<F: Fn(GetTimelineArgs) -> Option<TimelinePage>>(
        &mut self,
        cursor: Option<String>,
        source: &F,
    ) -> (r: usize)
        requires
            old(self).wf(),
            forall|args: GetTimelineArgs| call_requires(source, (args,)),
        ensures
            final(self).wf(),
            final(self).timeline == old(self).timeline,
            exists|args: GetTimelineArgs, answer: Option<TimelinePage>|
                {
                    &&& args.cursor == cursor
                    &&& args.asks_from(
                        match cursor {
                            Some(c) => Some(c@),
                            None => None,
                        },
                    )
                    &&& #[trigger] call_ensures(source, (args,), answer)
                    &&& final(self).db@ == absorbed(old(self).db@, answer, old(self).timeline)
                    &&& r == refused_in(answer)
                },
    {
        let args = GetTimelineArgs::starting_at(cursor);
        let ghost asked = args;
        let answer = source(args);
        let ghost given = answer;
        let refused = self.absorb(answer);
        proof {
            assert(call_ensures(source, (asked,), given));
        }
        refused
    }

    /// Refreshes the cache from a post the reader has: asks `source` for
    /// the page that starts shortly after the creation time of the feed
    /// entry with the content identifier `cid`, and stores what it answers.
    /// The result counts the entries of the answer that were refused.
    pub fn refresh_from_cid<F: Fn(GetTimelineArgs) -> Option<TimelinePage>>(
        &mut self,
        cid: String,
        source: &F,
    ) -> (r: Result<usize, BackfillError>)
        requires
            old(self).wf(),
            forall|args: GetTimelineArgs| call_requires(source, (args,)),
        ensures
            final(self).wf(),
            final(self).timeline == old(self).timeline,
            match refresh_token(old(self).db@, cid@) {
                Ok(token) => r matches Ok(n) && exists|
                    args: GetTimelineArgs,
                    answer: Option<TimelinePage>,
                |
                    {
                        &&& args.asks_from(Some(token))
                        &&& #[trigger] call_ensures(source, (args,), answer)
                        &&& final(self).db@ == absorbed(old(self).db@, answer, old(self).timeline)
                        &&& n == refused_in(answer)
                    },
                Err(e) => r == Err::<usize, BackfillError>(e) && final(self).db@ == old(self).db@,
            },
    {
        match refresh_request(&self.db, &cid) {
            Ok(args) => {
                let ghost asked = args;
                let answer = source(args);
                let ghost given = answer;
                let refused = self.absorb(answer);
                proof {
                    assert(call_ensures(source, (asked,), given));
                }
                Ok(refused)
            },
            Err(e) => Err(e),
        }
    }

    /// Fills the cache backwards from the feed entry with the content
    /// identifier `cid` until the cache holds more than `target_count`
    /// entries in the window before that entry, and hands back the timeline
    /// of that window, for the caller to grow the snapshot by.
    ///
    /// The window ends at the creation time of the entry's post and starts
    /// [`LOOKBACK_MINUTES`](crate::backfill::LOOKBACK_MINUTES) before the
    /// cursor, which starts at that creation time too. While the window
    /// holds too little, the cursor moves
    /// [`STEP_MINUTES`](crate::backfill::STEP_MINUTES) back, `source` is
    /// asked for the page at the cursor, and its answer is stored. After
    /// [`FETCH_CAP`] requests the backfill stops with what the window holds
    /// then.
    pub fn fetch_more<F: Fn(GetTimelineArgs) -> Option<TimelinePage>>(
        &mut self,
        cid: String,
        target_count: usize,
        source: &F,
    ) -> (r: Result<FetchReport, BackfillError>)
        requires
            old(self).wf(),
            forall|args: GetTimelineArgs| call_requires(source, (args,)),
        ensures
            final(self).wf(),
            final(self).timeline == old(self).timeline,
            match Backfill::begun(old(self).db@, cid@, target_count) {
                Ok(start) => r matches Ok(report) && report.requests <= FETCH_CAP && exists|
                    answers: Seq<Option<TimelinePage>>,
                | #[trigger]
                    backfilled(
                        source,
                        start,
                        answers,
                        start.run(old(self).db@, answers, old(self).timeline),
                        report,
                        final(self).db@,
                    ),
                Err(e) => r matches Err(x) && x == e && final(self).db@ == old(self).db@,
            },
    {
        let mut state = match Backfill::begin(&self.db, &cid, target_count) {
            Ok(state) => state,
            Err(e) => {
                return Err(e);
            },
        };
        let ghost start = state;
        let ghost first = self.db@;
        let ghost mut answers: Seq<Option<TimelinePage>> = Seq::empty();
        let ghost mut lost: nat = 0;
        let mut n: usize = 0;
        let mut refused: usize = 0;
        let mut found: Option<Vec<FeedViewPostFlat>> = None;
        // Whatever answers are still to come, the run from the start with
        // the answers so far before them ends where the run from here ends.
        while found.is_none()
            invariant
                self.wf(),
                self.timeline == old(self).timeline,
                first == old(self).db@,
                Backfill::begun(first, cid@, target_count) == Ok::<Backfill, BackfillError>(start),
                forall|args: GetTimelineArgs| call_requires(source, (args,)),
                answers.len() == n,
                n + state.fetches_left == FETCH_CAP,
                refused == capped(lost),
                start.widened_to(state),
                forall|k: int|
                    #![trigger answers[k]]
                    0 <= k < n ==> answered(source, asked(start, k as nat), answers[k]),
                found is None ==> forall|rest: Seq<Option<TimelinePage>>|
                    #![trigger state.run(self.db@, rest, self.timeline)]
                    start.run(first, answers + rest, self.timeline) == state.run(
                        self.db@,
                        rest,
                        self.timeline,
                    ).later(n as nat, lost),
                found is None ==> forall|j: nat| #[trigger]
                    asked(start, n as nat + j) == asked(state, j),
                found matches Some(batch) ==> start.run(first, answers, self.timeline) == (Outcome {
                    state,
                    tables: self.db@,
                    batch: batch@,
                    fetches: n as nat,
                    refused: lost,
                }),
            decreases
                if found is None {
                    state.fetches_left + 1
                } else {
                    0
                },
        {
            let ghost before = state;
            let ghost tables = self.db@;
            match state.step(&self.db) {
                Step::Done(batch) => {
                    proof {
                        let none = Seq::<Option<TimelinePage>>::empty();
                        assert(answers + none =~= answers);
                        assert(before.run(tables, none, self.timeline) == (Outcome {
                            state: before,
                            tables,
                            batch: tables.timeline(before.window()),
                            fetches: 0,
                            refused: 0,
                        }));
                    }
                    found = Some(batch);
                },
                Step::Fetch(args) => {
                    let ghost request = args;
                    let answer = source(args);
                    let ghost given = answer;
                    let dropped = self.absorb(answer);
                    proof {
                        // one more answer is behind us: unfold the run from
                        // the state before this step by that answer
                        let grown = answers.push(given);
                        assert forall|rest: Seq<Option<TimelinePage>>|
                            #![trigger state.run(self.db@, rest, self.timeline)]
                            start.run(first, grown + rest, self.timeline) == state.run(
                                self.db@,
                                rest,
                                self.timeline,
                            ).later((n + 1) as nat, lost + dropped as nat) by {
                            let more = seq![given] + rest;
                            assert(grown + rest =~= answers + more);
                            assert(more.first() == given);
                            assert(more.drop_first() =~= rest);
                            assert(start.run(first, answers + more, self.timeline) == before.run(
                                tables,
                                more,
                                self.timeline,
                            ).later(n as nat, lost));
                        }
                        assert(asked(start, n as nat + 0) == asked(before, 0));
                        assert(call_ensures(source, (request,), given));
                        assert forall|j: nat| #[trigger]
                            asked(start, (n + 1) as nat + j) == asked(state, j) by {
                            assert(asked(start, n as nat + (j + 1)) == asked(before, j + 1));
                            assert((n as nat + (j + 1)) as nat == ((n + 1) as nat + j) as nat);
                            assert(((j + 1) - 1) as nat == j);
                        }
                        assert forall|k: int|
                            #![trigger grown[k]]
                            0 <= k < n + 1 implies answered(
                            source,
                            asked(start, k as nat),
                            grown[k],
                        ) by {
                            if k < n {
                                assert(grown[k] == answers[k]);
                            } else {
                                assert(grown[k] == given);
                                assert(request.asks_from(Some(asked(start, k as nat))));
                            }
                        }
                        answers = grown;
                        lost = lost + dropped as nat;
                    }
                    refused = if dropped > usize::MAX - refused {
                        usize::MAX
                    } else {
                        refused + dropped
                    };
                    n = n + 1;
                },
            }
        }
        let batch = match found {
            Some(batch) => batch,
            None => Vec::new(),
        };
        let r: Result<FetchReport, BackfillError> = Ok(FetchReport { requests: n, refused, batch });
        proof {
            // the answers gathered are the ones the contract speaks of
            assert(r matches Ok(report) && backfilled(
                source,
                start,
                answers,
                start.run(first, answers, self.timeline),
                report,
                self.db@,
            ));
        }
        r
    }

    /// One round of keeping the reader up to date: asks `source` for the
    /// most recent page, stores what it answers, and hands back the cached
    /// timeline, for the caller to grow the snapshot by, with the number of
    /// entries of the answer that were refused.
    pub fn auto_refresh_timeline<F: Fn(GetTimelineArgs) -> Option<TimelinePage>>(
        &mut self,
        source: &F,
    ) -> (r: RefreshReport)
        requires
            old(self).wf(),
            forall|args: GetTimelineArgs| call_requires(source, (args,)),
        ensures
            final(self).wf(),
            final(self).timeline == old(self).timeline,
            exists|args: GetTimelineArgs, answer: Option<TimelinePage>|
                {
                    &&& args.asks_from(None)
                    &&& #[trigger] call_ensures(source, (args,), answer)
                    &&& final(self).db@ == absorbed(old(self).db@, answer, old(self).timeline)
                    &&& r.refused == refused_in(answer)
                },
            r.timeline@ == final(self).db@.timeline(Span::All),
    {
        let refused = self.update_timeline(None, source);
        let timeline = self.db.read_timeline(duplicate_text(&self.timeline), None);
        RefreshReport { refused, timeline }
    }
}

} // verus!
