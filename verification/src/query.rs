//! The questions the backfill puts to the cache, each under a name.

use crate::model::FeedViewPostFlat;
use crate::order::descending;
use crate::store::{limited, CacheStore, Span, StoreError, Tables};
use crate::time::{parse_rfc3339, rfc3339_reading};
use vstd::prelude::*;

verus! {

/// How many entries a read of the timeline hands out at most.
pub const READ_LIMIT: usize = 10;

/// Answers questions about the entries of a cache.
pub struct Querier<'a> {
    db: &'a CacheStore,
}

impl<'a> Querier<'a> {
    /// What the cache that is asked holds.
    pub closed spec fn tables(&self) -> Tables {
        self.db@
    }

    /// Whether the cache that is asked is in order.
    pub open spec fn wf(&self) -> bool {
        self.tables().wf()
    }

    /// A querier for the cache `db`.
    pub fn new(db: &'a CacheStore) -> (r: Querier<'a>)
        ensures
            r.tables() == db@,
    {
        Querier { db }
    }

    /// How many entries were created at the given time or before it. The
    /// time is given as text; one that does not read as a date and time is
    /// refused.
    pub fn count_posts_older_than(&self, created_at: &str) -> (r: Result<usize, StoreError>)
        requires
            self.wf(),
        ensures
            match rfc3339_reading(created_at@) {
                Some(t) => r matches Ok(n) && n == self.tables().hits(Span::Through(t)).len(),
                None => r == Err::<usize, StoreError>(StoreError::MalformedTimestamp),
            },
    {
        match parse_rfc3339(created_at) {
            Some(t) => Ok(self.db.count(&Span::Through(t))),
            None => Err(StoreError::MalformedTimestamp),
        }
    }

    /// How many entries the window holds that starts at `lower_limit` and
    /// ends before `created_at`: an entry created at `lower_limit` is
    /// counted, one created at `created_at` is not. This is the window the
    /// backfill counts; the statement of the same name puts its bounds the
    /// other way round. Either time is given as text; one that does not read
    /// as a date and time is refused.
    pub fn count_recent_posts_older_than(&self, created_at: &str, lower_limit: &str) -> (r: Result<
        usize,
        StoreError,
    >)
        requires
            self.wf(),
        ensures
            match (rfc3339_reading(created_at@), rfc3339_reading(lower_limit@)) {
                (Some(t), Some(l)) => r matches Ok(n) && n == self.tables().hits(
                    Span::Window { from: l, until: t },
                ).len(),
                _ => r == Err::<usize, StoreError>(StoreError::MalformedTimestamp),
            },
    {
        match (parse_rfc3339(created_at), parse_rfc3339(lower_limit)) {
            (Some(t), Some(l)) => Ok(self.db.count(&Span::Window { from: l, until: t })),
            _ => Err(StoreError::MalformedTimestamp),
        }
    }

    /// How many entries were created at the given time or after it. The
    /// time is given as text; one that does not read as a date and time is
    /// refused.
    pub fn count_posts_newer_than(&self, created_at: &str) -> (r: Result<usize, StoreError>)
        requires
            self.wf(),
        ensures
            match rfc3339_reading(created_at@) {
                Some(t) => r matches Ok(n) && n == self.tables().hits(Span::From(t)).len(),
                None => r == Err::<usize, StoreError>(StoreError::MalformedTimestamp),
            },
    {
        match parse_rfc3339(created_at) {
            Some(t) => Ok(self.db.count(&Span::From(t))),
            None => Err(StoreError::MalformedTimestamp),
        }
    }

    /// The newest entries of the timeline, within `filter` where one is
    /// given: [`READ_LIMIT`] of them at most, the newest first.
    pub fn read_timeline(&self, filter: Option<Span>) -> (r: Vec<FeedViewPostFlat>)
        requires
            self.wf(),
        ensures
            r@ == limited(
                self.tables().timeline(crate::store::span_of(filter)),
                Some(READ_LIMIT),
            ),
            descending(r@),
    {
        match filter {
            Some(span) => self.db.select(&span, Some(READ_LIMIT)),
            None => self.db.select(&Span::All, Some(READ_LIMIT)),
        }
    }

    /// The creation time, as text, of the post that the feed entry with the
    /// given content identifier shows.
    pub fn select_created_at(&self, cid: &str) -> (r: Result<String, StoreError>)
        requires
            self.wf(),
        ensures
            match self.tables().feed_post(cid@) {
                Some(row) => r matches Ok(text) && text == row.body.created_at,
                None => r == Err::<String, StoreError>(StoreError::NotFound),
            },
    {
        let key = cid.to_owned();
        match self.db.feed_post_row(&key) {
            Some(row) => Ok(row.body.created_at.clone()),
            None => Err(StoreError::NotFound),
        }
    }

    /// The entry shown for a content identifier, joined with its post and
    /// the posts it answers.
    pub fn get_post(&self, cid: String) -> (r: Option<FeedViewPostFlat>)
        requires
            self.wf(),
        ensures
            r == self.tables().entry_of(cid@),
    {
        self.db.lookup_entry(&cid)
    }
}

} // verus!
