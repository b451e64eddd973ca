//! The cache: authors, posts, feed entries and cursors, written by key and
//! read back as a timeline.

use crate::cursor::{counts, is_latest, latest_cursor, TimelineCursor};
use crate::model::{
    duplicate_opt_text, duplicate_text, Author, FeedItem, FeedViewPostFlat, Post, PostBody,
    ReplyTarget, TimelinePage,
};
use crate::order::{
    created_at_instant, descending, distinct_instants, lemma_newest_first,
    lemma_newest_first_strict, newest_first, place, strictly_descending,
};
use crate::table::{
    distinct_keys, find, has_key, last_write, lemma_last_write, lemma_upserted,
    lemma_upserted_all, lemma_upserted_all_concat, lemma_upserted_all_twice,
    lemma_upserted_twice, lookup, upsert, upserted, upserted_all, Keyed,
};
use crate::time::{parse_rfc3339, rfc3339_reading, Timestamp};
use vstd::prelude::*;

verus! {

/// What the cache refuses.
#[derive(Clone, Copy, Debug, PartialEq, Eq, Structural)]
pub enum StoreError {
    /// Nothing is stored under the given key.
    NotFound,
    /// A creation time does not read as a date and time.
    MalformedTimestamp,
    /// A record could not be written out as JSON.
    Serialization,
}

/// A stored post: its content, the identifier of its author, and the
/// instant its creation time reads as.
#[derive(Clone, Debug)]
pub struct PostRow {
    pub author_did: String,
    pub body: PostBody,
    pub at: Timestamp,
}

impl Keyed for PostRow {
    open spec fn key(&self) -> Seq<char> {
        self.body.cid@
    }

    fn key_text(&self) -> (r: &String) {
        &self.body.cid
    }
}

/// A stored feed entry: the post it shows and, for a reply, the posts it
/// answers, all by content identifier; `reason` is the JSON text of a repost
/// reason.
#[derive(Clone, Debug)]
pub struct FeedRow {
    pub cid: String,
    pub parent: Option<String>,
    pub root: Option<String>,
    pub reason: Option<String>,
}

impl Keyed for FeedRow {
    open spec fn key(&self) -> Seq<char> {
        self.cid@
    }

    fn key_text(&self) -> (r: &String) {
        &self.cid
    }
}

/// A condition on the instant an entry was created at.
#[derive(Clone, Copy, Debug)]
pub enum Span {
    /// Every instant.
    All,
    /// The given instant and every earlier one.
    Through(Timestamp),
    /// The given instant and every later one.
    From(Timestamp),
    /// From `from` on, and before `until`.
    Window { from: Timestamp, until: Timestamp },
}

impl Span {
    /// Whether the instant `t` meets the condition.
    pub open spec fn admits(self, t: Timestamp) -> bool {
        match self {
            Span::All => true,
            Span::Through(x) => !x.is_before(t),
            Span::From(x) => !t.is_before(x),
            Span::Window { from, until } => !t.is_before(from) && t.is_before(until),
        }
    }

    /// Tells whether the instant `t` meets the condition.
    pub fn holds(&self, t: &Timestamp) -> (r: bool)
        ensures
            r == self.admits(*t),
    {
        match self {
            Span::All => true,
            Span::Through(x) => !x.before(t),
            Span::From(x) => !t.before(x),
            Span::Window { from, until } => !t.before(from) && t.before(until),
        }
    }
}

/// Whether a post's creation time reads as a date and time.
pub open spec fn readable(post: Post) -> bool {
    rfc3339_reading(post.body.created_at@) is Some
}

/// The row a post is stored as.
pub open spec fn row_of(post: Post) -> PostRow {
    PostRow {
        author_did: post.author.did,
        body: post.body,
        at: rfc3339_reading(post.body.created_at@)->0,
    }
}

/// The post a reply points at, where it was sent along.
pub open spec fn found(target: ReplyTarget) -> Option<Post> {
    match target {
        ReplyTarget::Found(p) => Some(p),
        _ => None,
    }
}

/// The post an entry answers, where it was sent along.
pub open spec fn parent_of(item: FeedItem) -> Option<Post> {
    match item.reply {
        Some(reply) => found(reply.parent),
        None => None,
    }
}

/// The post that started the thread of an entry, where it was sent along.
pub open spec fn root_of(item: FeedItem) -> Option<Post> {
    match item.reply {
        Some(reply) => found(reply.root),
        None => None,
    }
}

/// Whether every creation time in an entry reads as a date and time.
pub open spec fn readable_item(item: FeedItem) -> bool {
    &&& readable(item.post)
    &&& parent_of(item) matches Some(p) ==> readable(p)
    &&& root_of(item) matches Some(p) ==> readable(p)
}

/// The content identifier of a post that may be absent.
pub open spec fn cid_of(post: Option<Post>) -> Option<String> {
    match post {
        Some(p) => Some(p.body.cid),
        None => None,
    }
}

/// The row an entry is stored as. It points at the post it answers where
/// that post was sent along, and at the post that started the thread where
/// that one was, each on its own.
pub open spec fn feed_row_of(item: FeedItem) -> FeedRow {
    FeedRow {
        cid: item.post.body.cid,
        parent: cid_of(parent_of(item)),
        root: cid_of(root_of(item)),
        reason: item.reason,
    }
}

/// What the cache holds: four tables, each in the order its rows were
/// first written in.
pub struct Tables {
    pub authors: Seq<Author>,
    pub posts: Seq<PostRow>,
    pub feed: Seq<FeedRow>,
    pub cursors: Seq<TimelineCursor>,
}

impl Tables {
    /// No two rows of a keyed table share a key, and every stored post
    /// carries the instant its creation time reads as.
    pub open spec fn wf(self) -> bool {
        &&& distinct_keys(self.authors)
        &&& distinct_keys(self.posts)
        &&& distinct_keys(self.feed)
        &&& forall|i: int|
            0 <= i < self.posts.len() ==> rfc3339_reading(
                (#[trigger] self.posts[i]).body.created_at@,
            ) == Some(self.posts[i].at)
    }

    /// The tables with nothing in them.
    pub open spec fn empty() -> Tables {
        Tables {
            authors: Seq::empty(),
            posts: Seq::empty(),
            feed: Seq::empty(),
            cursors: Seq::empty(),
        }
    }

    /// The tables after an author is written.
    pub open spec fn with_author(self, author: Author) -> Tables {
        Tables { authors: upserted(self.authors, author), ..self }
    }

    /// The tables after a post is written, its author being left aside.
    pub open spec fn with_post(self, post: Post) -> Tables {
        Tables { posts: upserted(self.posts, row_of(post)), ..self }
    }

    /// The tables after a post and its author are written.
    pub open spec fn with_post_view(self, post: Post) -> Tables {
        self.with_author(post.author).with_post(post)
    }

    /// The tables after a post that may be absent is written with its author.
    pub open spec fn with_linked(self, post: Option<Post>) -> Tables {
        match post {
            Some(p) => self.with_post_view(p),
            None => self,
        }
    }

    /// The tables after an entry of a page is written: its post, the posts
    /// it answers, each behind its author, and then the entry itself. An
    /// entry with a creation time that does not read leaves the tables alone.
    pub open spec fn with_item(self, item: FeedItem) -> Tables {
        if readable_item(item) {
            let t = self.with_post_view(item.post).with_linked(parent_of(item)).with_linked(
                root_of(item),
            );
            Tables { feed: upserted(t.feed, feed_row_of(item)), ..t }
        } else {
            self
        }
    }

    /// The tables after the entries of a page are written one by one.
    pub open spec fn with_items(self, items: Seq<FeedItem>) -> Tables
        decreases items.len(),
    {
        if items.len() == 0 {
            self
        } else {
            self.with_items(items.drop_last()).with_item(items.last())
        }
    }

    /// The tables after a cursor is recorded: the records before it stay.
    pub open spec fn with_cursor(self, cursor: Option<String>, timeline: String) -> Tables {
        match cursor {
            Some(token) => Tables {
                cursors: self.cursors.push(TimelineCursor { cursor: token, timeline }),
                ..self
            },
            None => self,
        }
    }

    /// The tables after a page is written: its entries, then its cursor.
    pub open spec fn with_page(self, page: TimelinePage, timeline: String) -> Tables {
        self.with_items(page.feed@).with_cursor(page.cursor, timeline)
    }

    /// The post stored under a content identifier, joined with its author;
    /// none where either is missing.
    pub open spec fn post_of(self, cid: Seq<char>) -> Option<Post> {
        match lookup(self.posts, cid) {
            Some(row) => match lookup(self.authors, row.author_did@) {
                Some(author) => Some(Post { author, body: row.body }),
                None => None,
            },
            None => None,
        }
    }

    /// The post a stored link leads to.
    pub open spec fn linked(self, link: Option<String>) -> Option<Post> {
        match link {
            Some(cid) => self.post_of(cid@),
            None => None,
        }
    }

    /// A feed entry joined with its post and the posts it answers; none
    /// where its own post cannot be joined.
    pub open spec fn flat_of(self, entry: FeedRow) -> Option<FeedViewPostFlat> {
        match self.post_of(entry.cid@) {
            Some(post) => Some(
                FeedViewPostFlat {
                    post,
                    parent: self.linked(entry.parent),
                    root: self.linked(entry.root),
                    created_at: lookup(self.posts, entry.cid@)->0.at,
                },
            ),
            None => None,
        }
    }

    /// Whether a feed entry can be joined and was created within `span`.
    pub open spec fn shows(self, entry: FeedRow, span: Span) -> bool {
        self.flat_of(entry) matches Some(v) && span.admits(v.created_at)
    }

    /// The joined entries of `rows` that were created within `span`, in the
    /// order of `rows`.
    pub open spec fn hits_among(self, rows: Seq<FeedRow>, span: Span) -> Seq<FeedViewPostFlat> {
        rows.filter(|e: FeedRow| self.shows(e, span)).map_values(|e: FeedRow| self.flat_of(e)->0)
    }

    /// The joined entries of the feed that were created within `span`, in
    /// the order they were first written in.
    pub open spec fn hits(self, span: Span) -> Seq<FeedViewPostFlat> {
        self.hits_among(self.feed, span)
    }

    /// The timeline within `span`: its entries from the newest to the
    /// oldest, entries of one instant in the order they were first written in.
    pub open spec fn timeline(self, span: Span) -> Seq<FeedViewPostFlat> {
        newest_first(self.hits(span))
    }

    /// The entry shown for a content identifier; none where the feed has no
    /// such entry or its post cannot be joined.
    pub open spec fn entry_of(self, cid: Seq<char>) -> Option<FeedViewPostFlat> {
        match lookup(self.feed, cid) {
            Some(entry) => self.flat_of(entry),
            None => None,
        }
    }

    /// The stored post of a feed entry; none where the feed has no such
    /// entry or no post is stored for it.
    pub open spec fn feed_post(self, cid: Seq<char>) -> Option<PostRow> {
        if has_key(self.feed, cid) {
            lookup(self.posts, cid)
        } else {
            None
        }
    }

    /// The cursors recorded for a timeline, in the order they were recorded in.
    pub open spec fn cursors_of(self, timeline: Seq<char>) -> Seq<TimelineCursor> {
        self.cursors.filter(|c: TimelineCursor| c.timeline_name() == timeline)
    }
}

/// The first `limit` entries of `s`, or all of them.
pub open spec fn limited(s: Seq<FeedViewPostFlat>, limit: Option<usize>) -> Seq<FeedViewPostFlat> {
    match limit {
        Some(n) => if n < s.len() {
            s.take(n as int)
        } else {
            s
        },
        None => s,
    }
}

/// The cache.
#[derive(Debug)]
pub struct CacheStore {
    authors: Vec<Author>,
    posts: Vec<PostRow>,
    feed: Vec<FeedRow>,
    cursors: Vec<TimelineCursor>,
}

impl View for CacheStore {
    type V = Tables;

    closed spec fn view(&self) -> Tables {
        Tables {
            authors: self.authors@,
            posts: self.posts@,
            feed: self.feed@,
            cursors: self.cursors@,
        }
    }
}

impl CacheStore {
    /// Whether the tables are in order: see [`Tables::wf`].
    pub open spec fn wf(&self) -> bool {
        self@.wf()
    }

    /// A cache with nothing in it.
    pub fn new() -> (r: CacheStore)
        ensures
            r@ == Tables::empty(),
            r.wf(),
    {
        CacheStore { authors: Vec::new(), posts: Vec::new(), feed: Vec::new(), cursors: Vec::new() }
    }

    /// The stored authors, in the order they were first written in.
    pub fn authors(&self) -> (r: &Vec<Author>)
        ensures
            r@ == self@.authors,
    {
        &self.authors
    }

    /// The stored posts, in the order they were first written in.
    pub fn posts(&self) -> (r: &Vec<PostRow>)
        ensures
            r@ == self@.posts,
    {
        &self.posts
    }

    /// The stored feed entries, in the order they were first written in.
    pub fn feed(&self) -> (r: &Vec<FeedRow>)
        ensures
            r@ == self@.feed,
    {
        &self.feed
    }

    /// The recorded cursors of every timeline, in the order they were
    /// recorded in.
    pub fn cursors(&self) -> (r: &Vec<TimelineCursor>)
        ensures
            r@ == self@.cursors,
    {
        &self.cursors
    }

    /// Writes an author under its identifier, over what was stored there.
    pub fn store_author(&mut self, author: Author)
        requires
            old(self).wf(),
        ensures
            final(self).wf(),
            final(self)@ == old(self)@.with_author(author),
    {
        upsert(&mut self.authors, author);
    }

    /// Writes a post under its content identifier, over what was stored
    /// there; the author is referred to and not written. A post whose
    /// creation time does not read as a date and time is refused.
    pub fn store_post(&mut self, post: Post) -> (r: Result<(), StoreError>)
        requires
            old(self).wf(),
        ensures
            final(self).wf(),
            r is Ok <==> readable(post),
            r is Ok ==> final(self)@ == old(self)@.with_post(post),
            r is Err ==> r == Err::<(), StoreError>(StoreError::MalformedTimestamp) && final(self)@
                == old(self)@,
    {
        match parse_rfc3339(post.body.created_at.as_str()) {
            Some(at) => {
                let row = PostRow { author_did: post.author.did, body: post.body, at };
                upsert(&mut self.posts, row);
                Ok(())
            },
            None => Err(StoreError::MalformedTimestamp),
        }
    }

    /// Writes a post behind its author. A post whose creation time does not
    /// read as a date and time is refused, and its author is not written.
    pub fn store_post_view(&mut self, post: Post) -> (r: Result<(), StoreError>)
        requires
            old(self).wf(),
        ensures
            final(self).wf(),
            r is Ok <==> readable(post),
            r is Ok ==> final(self)@ == old(self)@.with_post_view(post),
            r is Err ==> r == Err::<(), StoreError>(StoreError::MalformedTimestamp) && final(self)@
                == old(self)@,
    {
        if !reads(&post) {
            return Err(StoreError::MalformedTimestamp);
        }
        self.store_author(post.author.duplicate());
        self.store_post(post)
    }

    /// Writes an entry of a page: its post, then the posts it answers where
    /// they were sent along, each behind its author, and then the entry
    /// itself under the content identifier of its post, with a link to each
    /// of those posts that was sent along. Where a creation time among them
    /// does not read as a date and time the entry is refused and nothing is
    /// written.
    pub fn store_feed_post_view(&mut self, f: FeedItem) -> (r: Result<(), StoreError>)
        requires
            old(self).wf(),
        ensures
            final(self).wf(),
            r is Ok <==> readable_item(f),
            r is Err ==> r == Err::<(), StoreError>(StoreError::MalformedTimestamp),
            final(self)@ == old(self)@.with_item(f),
    {
        let FeedItem { post, reply, reason } = f;
        let (parent, root) = match reply {
            Some(reply) => (sent_along(reply.parent), sent_along(reply.root)),
            None => (None, None),
        };
        if !reads(&post) || !reads_if_sent(&parent) || !reads_if_sent(&root) {
            return Err(StoreError::MalformedTimestamp);
        }
        let cid = duplicate_text(&post.body.cid);
        let _ = self.store_post_view(post);
        let parent_cid = self.store_linked(parent);
        let root_cid = self.store_linked(root);
        self.upsert_feed_entry(cid, parent_cid, root_cid, reason);
        Ok(())
    }

    /// Writes a feed entry under the content identifier of the post it
    /// shows, over what was stored there. The posts it answers are referred
    /// to by their content identifiers and not looked up.
    pub fn upsert_feed_entry(
        &mut self,
        cid: String,
        parent_cid: Option<String>,
        root_cid: Option<String>,
        reason: Option<String>,
    )
        requires
            old(self).wf(),
        ensures
            final(self).wf(),
            final(self)@ == (Tables {
                feed: upserted(
                    old(self)@.feed,
                    FeedRow { cid, parent: parent_cid, root: root_cid, reason },
                ),
                ..old(self)@
            }),
    {
        upsert(&mut self.feed, FeedRow { cid, parent: parent_cid, root: root_cid, reason });
    }

    /// Writes a post that an entry answers, where it was sent along, and
    /// hands back its content identifier.
    fn store_linked(&mut self, post: Option<Post>) -> (r: Option<String>)
        requires
            old(self).wf(),
            post matches Some(p) ==> readable(p),
        ensures
            final(self).wf(),
            final(self)@ == old(self)@.with_linked(post),
            r == cid_of(post),
    {
        match post {
            Some(p) => {
                let cid = duplicate_text(&p.body.cid);
                let _ = self.store_post_view(p);
                Some(cid)
            },
            None => None,
        }
    }

    /// Records the token that continues a timeline, behind the tokens
    /// recorded before; a page without a token records nothing.
    pub fn store_cursor(&mut self, cursor: Option<String>, timeline_name: String)
        requires
            old(self).wf(),
        ensures
            final(self).wf(),
            final(self)@ == old(self)@.with_cursor(cursor, timeline_name),
    {
        match cursor {
            Some(token) => {
                self.cursors.push(TimelineCursor::new(token, timeline_name));
            },
            None => {},
        }
    }

    /// Writes a page of the remote timeline: its entries one by one, then
    /// its cursor. An entry that is refused is left out and the ones after
    /// it are still written; the result counts the entries left out.
    pub fn store_timeline(&mut self, timeline_data: TimelinePage, timeline_name: String) -> (r:
        usize)
        requires
            old(self).wf(),
        ensures
            final(self).wf(),
            final(self)@ == old(self)@.with_page(timeline_data, timeline_name),
            r == unreadable_items(timeline_data.feed@),
    {
        let TimelinePage { feed, cursor } = timeline_data;
        let ghost items = feed@;
        let ghost start = self@;
        let mut refused: usize = 0;
        let mut rest = feed;
        let total = rest.len();
        let ghost mut done: Seq<FeedItem> = Seq::empty();
        while rest.len() > 0
            invariant
                self.wf(),
                done + rest@ == items,
                items.len() == total,
                self@ == start.with_items(done),
                refused == unreadable_items(done),
                refused <= done.len(),
            decreases rest.len(),
        {
            let item = rest.remove(0);
            proof {
                let next = done.push(item);
                assert(next.drop_last() =~= done);
                assert(next + rest@ =~= items);
                done = next;
            }
            match self.store_feed_post_view(item) {
                Ok(()) => {},
                Err(_) => {
                    assert(refused < done.len() <= items.len());
                    refused = refused + 1;
                },
            }
        }
        proof {
            assert(done =~= items);
        }
        self.store_cursor(cursor, timeline_name);
        refused
    }

    /// The cursors recorded for a timeline, in the order they were recorded in.
    pub fn read_cursor(&self, timeline_name: String) -> (r: Vec<TimelineCursor>)
        ensures
            r@ == self@.cursors_of(timeline_name@),
    {
        let mut out: Vec<TimelineCursor> = Vec::new();
        let mut i: usize = 0;
        while i < self.cursors.len()
            invariant
                i <= self.cursors.len(),
                out@ == self.cursors@.take(i as int).filter(
                    |c: TimelineCursor| c.timeline_name() == timeline_name@,
                ),
            decreases self.cursors.len() - i,
        {
            proof {
                reveal(Seq::filter);
                assert(self.cursors@.take(i + 1).drop_last() =~= self.cursors@.take(i as int));
            }
            if *self.cursors[i].timeline() == timeline_name {
                out.push(self.cursors[i].duplicate());
            }
            i += 1;
        }
        proof {
            assert(self.cursors@.take(i as int) =~= self.cursors@);
        }
        out
    }

    /// The token of the latest cursor recorded for a timeline: of the
    /// cursors whose token reads as an instant, the one that reads as the
    /// latest, and of several such the one recorded last. A token that does
    /// not read as an instant is passed over; where none reads there is no
    /// latest cursor.
    pub fn get_latest_cursor(&self, timeline_name: String) -> (r: Option<String>)
        ensures
            r is None <==> forall|i: int| !counts(self@.cursors, timeline_name@, i),
            r matches Some(token) ==> exists|i: int| #[trigger]
                is_latest(self@.cursors, timeline_name@, i) && token@ == self@.cursors[i].token(),
    {
        let r = latest_cursor(&self.cursors, &timeline_name);
        proof {
            assert(self@.cursors == self.cursors@);
            if r is Some {
                let i = choose|i: int| #[trigger]
                    is_latest(self.cursors@, timeline_name@, i) && r->0@
                        == self.cursors@[i].token();
                assert(is_latest(self@.cursors, timeline_name@, i));
            }
        }
        r
    }

    /// Joins the post stored under a content identifier with its author.
    fn post_at(&self, cid: &String) -> (r: Option<(Post, Timestamp)>)
        requires
            self.wf(),
        ensures
            r is Some == self@.post_of(cid@) is Some,
            r matches Some((post, at)) ==> self@.post_of(cid@) == Some(post) && at == lookup(
                self@.posts,
                cid@,
            )->0.at,
    {
        match find(&self.posts, cid) {
            Some(i) => {
                let row = &self.posts[i];
                match find(&self.authors, &row.author_did) {
                    Some(j) => Some(
                        (
                            Post { author: self.authors[j].duplicate(), body: row.body.duplicate() },
                            row.at,
                        ),
                    ),
                    None => None,
                }
            },
            None => None,
        }
    }

    /// Follows a stored link to the post it leads to.
    fn post_linked(&self, link: &Option<String>) -> (r: Option<Post>)
        requires
            self.wf(),
        ensures
            r == self@.linked(*link),
    {
        match link {
            Some(cid) => match self.post_at(cid) {
                Some((post, _)) => Some(post),
                None => None,
            },
            None => None,
        }
    }

    /// Joins a feed entry with its post and the posts it answers.
    fn flat(&self, entry: &FeedRow) -> (r: Option<FeedViewPostFlat>)
        requires
            self.wf(),
        ensures
            r == self@.flat_of(*entry),
    {
        match self.post_at(&entry.cid) {
            Some((post, created_at)) => Some(
                FeedViewPostFlat {
                    post,
                    parent: self.post_linked(&entry.parent),
                    root: self.post_linked(&entry.root),
                    created_at,
                },
            ),
            None => None,
        }
    }

    /// The timeline within `span`, cut after `limit` entries where a limit
    /// is given: the joined entries from the newest to the oldest, entries
    /// of one instant in the order they were first written in.
    pub fn select(&self, span: &Span, limit: Option<usize>) -> (r: Vec<FeedViewPostFlat>)
        requires
            self.wf(),
        ensures
            r@ == limited(self@.timeline(*span), limit),
            descending(r@),
    {
        let mut out: Vec<FeedViewPostFlat> = Vec::new();
        let mut i: usize = 0;
        while i < self.feed.len()
            invariant
                self.wf(),
                i <= self.feed.len(),
                out@ == newest_first(self@.hits_among(self.feed@.take(i as int), *span)),
            decreases self.feed.len() - i,
        {
            let entry = &self.feed[i];
            proof {
                lemma_hits_among_push(self@, self.feed@.take(i as int), *entry, *span);
                assert(self.feed@.take(i + 1) =~= self.feed@.take(i as int).push(*entry));
                assert(self@.hits_among(self.feed@.take(i as int), *span).push(
                    self@.flat_of(*entry)->0,
                ).drop_last() =~= self@.hits_among(self.feed@.take(i as int), *span));
            }
            match self.flat(entry) {
                Some(v) => {
                    if span.holds(&v.created_at) {
                        place(&mut out, v);
                    }
                },
                None => {},
            }
            i += 1;
        }
        proof {
            assert(self.feed@.take(i as int) =~= self.feed@);
            lemma_newest_first(self@.hits(*span));
        }
        match limit {
            Some(n) => {
                if n < out.len() {
                    out.truncate(n);
                }
            },
            None => {},
        }
        out
    }

    /// The timeline, within `filter` where one is given: see [`Self::select`].
    /// The cache keeps one feed, whatever the timeline is called.
    pub fn read_timeline(&self, timeline_name: String, filter: Option<Span>) -> (r: Vec<
        FeedViewPostFlat,
    >)
        requires
            self.wf(),
        ensures
            r@ == self@.timeline(span_of(filter)),
            descending(r@),
    {
        match filter {
            Some(span) => self.select(&span, None),
            None => self.select(&Span::All, None),
        }
    }

    /// The entry shown for a content identifier, joined with its post and
    /// the posts it answers; none where the feed has no such entry or its
    /// post cannot be joined. The cache keeps one feed, whatever the
    /// timeline is called.
    pub fn get_post(&self, timeline_name: String, cid: String) -> (r: Option<FeedViewPostFlat>)
        requires
            self.wf(),
        ensures
            r == self@.entry_of(cid@),
    {
        self.lookup_entry(&cid)
    }

    /// The entry shown for a content identifier.
    pub fn lookup_entry(&self, cid: &String) -> (r: Option<FeedViewPostFlat>)
        requires
            self.wf(),
        ensures
            r == self@.entry_of(cid@),
    {
        match find(&self.feed, cid) {
            Some(i) => self.flat(&self.feed[i]),
            None => None,
        }
    }

    /// The stored post of the feed entry with a content identifier.
    pub fn feed_post_row(&self, cid: &String) -> (r: Option<&PostRow>)
        requires
            self.wf(),
        ensures
            r is Some == self@.feed_post(cid@) is Some,
            r matches Some(row) ==> self@.feed_post(cid@) == Some(*row),
    {
        match find(&self.feed, cid) {
            Some(_) => match find(&self.posts, cid) {
                Some(i) => Some(&self.posts[i]),
                None => None,
            },
            None => None,
        }
    }

    /// How many entries the timeline within `span` has.
    pub fn count(&self, span: &Span) -> (r: usize)
        requires
            self.wf(),
        ensures
            r == self@.hits(*span).len(),
    {
        proof {
            lemma_newest_first(self@.hits(*span));
        }
        self.select(span, None).len()
    }
}

/// The posts that come with an entry of a page, in the order they are
/// written in: its own, the one it answers, and the one that started the
/// thread.
pub open spec fn posts_sent(item: FeedItem) -> Seq<Post> {
    let own = seq![item.post];
    let with_parent = match parent_of(item) {
        Some(p) => own.push(p),
        None => own,
    };
    match root_of(item) {
        Some(p) => with_parent.push(p),
        None => with_parent,
    }
}

/// Writing an entry of a page is a run of writes on each table: the
/// authors of the posts that come with it, those posts, and the entry.
pub proof fn lemma_with_item_writes(t: Tables, item: FeedItem)
    requires
        readable_item(item),
    ensures
        t.with_item(item) == (Tables {
            authors: upserted_all(t.authors, posts_sent(item).map_values(|p: Post| p.author)),
            posts: upserted_all(t.posts, posts_sent(item).map_values(|p: Post| row_of(p))),
            feed: upserted(t.feed, feed_row_of(item)),
            cursors: t.cursors,
        }),
{
    let sent = posts_sent(item);
    let authors = sent.map_values(|p: Post| p.author);
    let rows = sent.map_values(|p: Post| row_of(p));
    reveal_with_fuel(upserted_all, 4);
    assert(authors.len() == sent.len() && rows.len() == sent.len());
    if sent.len() == 1 {
        assert(authors.drop_last() =~= Seq::empty());
        assert(rows.drop_last() =~= Seq::empty());
    } else if sent.len() == 2 {
        assert(authors.drop_last().drop_last() =~= Seq::empty());
        assert(rows.drop_last().drop_last() =~= Seq::empty());
    } else {
        assert(authors.drop_last().drop_last().drop_last() =~= Seq::empty());
        assert(rows.drop_last().drop_last().drop_last() =~= Seq::empty());
    }
}

/// Writing an author a second time changes nothing: the cache holds one
/// row under its identifier, the author as written.
pub proof fn lemma_store_author_twice(t: Tables, author: Author)
    requires
        t.wf(),
    ensures
        t.with_author(author).wf(),
        t.with_author(author).with_author(author) == t.with_author(author),
        lookup(t.with_author(author).authors, author.did@) == Some(author),
{
    lemma_upserted(t.authors, author);
    lemma_upserted_twice(t.authors, author);
}

/// Writing a post a second time changes nothing: the cache holds one row
/// under its content identifier, the post as written.
pub proof fn lemma_store_post_twice(t: Tables, post: Post)
    requires
        t.wf(),
        readable(post),
    ensures
        t.with_post(post).wf(),
        t.with_post(post).with_post(post) == t.with_post(post),
        lookup(t.with_post(post).posts, post.body.cid@) == Some(row_of(post)),
{
    lemma_upserted(t.posts, row_of(post));
    lemma_upserted_twice(t.posts, row_of(post));
}

/// Writing an entry of a page a second time changes nothing: the cache
/// holds one feed entry under the content identifier of its post.
pub proof fn lemma_store_item_twice(t: Tables, item: FeedItem)
    requires
        t.wf(),
    ensures
        t.with_item(item).wf(),
        t.with_item(item).with_item(item) == t.with_item(item),
        readable_item(item) ==> lookup(t.with_item(item).feed, item.post.body.cid@) == Some(
            feed_row_of(item),
        ),
{
    if readable_item(item) {
        let authors = posts_sent(item).map_values(|p: Post| p.author);
        let rows = posts_sent(item).map_values(|p: Post| row_of(p));
        let once = t.with_item(item);
        lemma_with_item_writes(t, item);
        lemma_with_item_writes(once, item);
        lemma_upserted_all(t.authors, authors);
        lemma_upserted_all(t.posts, rows);
        lemma_upserted(t.feed, feed_row_of(item));
        lemma_upserted_all_twice(t.authors, authors);
        lemma_upserted_all_twice(t.posts, rows);
        lemma_upserted_twice(t.feed, feed_row_of(item));
        lemma_rows_read(t.posts, rows);
    }
}

/// A feed entry points at nothing that is missing when it is written: the
/// post it shows can be joined with its author, and so can the posts it
/// answers, where it points at them.
pub proof fn lemma_item_links_resolve(t: Tables, item: FeedItem)
    requires
        t.wf(),
        readable_item(item),
    ensures
        t.with_item(item).entry_of(item.post.body.cid@) is Some,
        feed_row_of(item).parent matches Some(cid) ==> t.with_item(item).post_of(cid@) is Some,
        feed_row_of(item).root matches Some(cid) ==> t.with_item(item).post_of(cid@) is Some,
{
    let sent = posts_sent(item);
    let authors = sent.map_values(|p: Post| p.author);
    let rows = sent.map_values(|p: Post| row_of(p));
    let after = t.with_item(item);
    lemma_with_item_writes(t, item);
    lemma_upserted_all(t.authors, authors);
    lemma_upserted_all(t.posts, rows);
    lemma_upserted(t.feed, feed_row_of(item));
    assert forall|i: int| 0 <= i < sent.len() implies after.post_of(
        (#[trigger] sent[i]).body.cid@,
    ) is Some by {
        let cid = sent[i].body.cid@;
        assert(rows[i].key() == cid);
        lemma_last_write(rows, cid);
        let row = last_write(rows, cid)->0;
        let j = choose|j: int| 0 <= j < rows.len() && rows[j] == row;
        assert(row == row_of(sent[j]));
        let did = row.author_did@;
        assert(authors[j].key() == did);
        lemma_last_write(authors, did);
        assert(lookup(after.posts, cid) == Some(row));
        assert(lookup(after.authors, did) is Some);
    }
    assert(sent[0] == item.post);
    if parent_of(item) is Some {
        assert(sent[1] == parent_of(item)->0);
    }
    if root_of(item) is Some {
        assert(sent[sent.len() - 1] == root_of(item)->0);
    }
}

/// The posts that come with the entries of a page, in the order they are
/// written in; an entry that is refused brings none.
pub open spec fn posts_of_page(items: Seq<FeedItem>) -> Seq<Post>
    decreases items.len(),
{
    if items.len() == 0 {
        Seq::empty()
    } else if readable_item(items.last()) {
        posts_of_page(items.drop_last()) + posts_sent(items.last())
    } else {
        posts_of_page(items.drop_last())
    }
}

/// The feed entries that a page brings, in the order they are written in;
/// an entry that is refused brings none.
pub open spec fn rows_of_page(items: Seq<FeedItem>) -> Seq<FeedRow>
    decreases items.len(),
{
    if items.len() == 0 {
        Seq::empty()
    } else if readable_item(items.last()) {
        rows_of_page(items.drop_last()).push(feed_row_of(items.last()))
    } else {
        rows_of_page(items.drop_last())
    }
}

/// Writing the entries of a page is a run of writes on each table.
pub proof fn lemma_with_items_writes(t: Tables, items: Seq<FeedItem>)
    ensures
        t.with_items(items) == (Tables {
            authors: upserted_all(t.authors, posts_of_page(items).map_values(|p: Post| p.author)),
            posts: upserted_all(t.posts, posts_of_page(items).map_values(|p: Post| row_of(p))),
            feed: upserted_all(t.feed, rows_of_page(items)),
            cursors: t.cursors,
        }),
    decreases items.len(),
{
    let author = |p: Post| p.author;
    let row = |p: Post| row_of(p);
    if items.len() == 0 {
        assert(posts_of_page(items).map_values(author) =~= Seq::empty());
        assert(posts_of_page(items).map_values(row) =~= Seq::empty());
    } else {
        let front = items.drop_last();
        let last = items.last();
        lemma_with_items_writes(t, front);
        if readable_item(last) {
            let before = t.with_items(front);
            lemma_with_item_writes(before, last);
            let earlier = posts_of_page(front);
            let sent = posts_sent(last);
            assert((earlier + sent).map_values(author) =~= earlier.map_values(author)
                + sent.map_values(author));
            assert((earlier + sent).map_values(row) =~= earlier.map_values(row) + sent.map_values(
                row,
            ));
            lemma_upserted_all_concat(t.authors, earlier.map_values(author), sent.map_values(author));
            lemma_upserted_all_concat(t.posts, earlier.map_values(row), sent.map_values(row));
            assert(rows_of_page(items).drop_last() =~= rows_of_page(front));
        }
    }
}

/// Writing the entries of a page a second time changes nothing: storing a
/// page again leaves authors, posts and feed entries as they were, and
/// only the cursor of the page is recorded once more.
pub proof fn lemma_store_items_twice(t: Tables, items: Seq<FeedItem>)
    requires
        t.wf(),
    ensures
        t.with_items(items).with_items(items) == t.with_items(items),
{
    let once = t.with_items(items);
    lemma_with_items_writes(t, items);
    lemma_with_items_writes(once, items);
    let authors = posts_of_page(items).map_values(|p: Post| p.author);
    let rows = posts_of_page(items).map_values(|p: Post| row_of(p));
    lemma_upserted_all_twice(t.authors, authors);
    lemma_upserted_all_twice(t.posts, rows);
    lemma_upserted_all_twice(t.feed, rows_of_page(items));
}

/// Rows that read stay rows that read when rows that read are written.
pub proof fn lemma_rows_read(posts: Seq<PostRow>, writes: Seq<PostRow>)
    requires
        distinct_keys(posts),
        forall|i: int|
            0 <= i < posts.len() ==> rfc3339_reading((#[trigger] posts[i]).body.created_at@) == Some(
                posts[i].at,
            ),
        forall|i: int|
            0 <= i < writes.len() ==> rfc3339_reading((#[trigger] writes[i]).body.created_at@)
                == Some(writes[i].at),
    ensures
        forall|i: int|
            0 <= i < upserted_all(posts, writes).len() ==> rfc3339_reading(
                (#[trigger] upserted_all(posts, writes)[i]).body.created_at@,
            ) == Some(upserted_all(posts, writes)[i].at),
    decreases writes.len(),
{
    if writes.len() > 0 {
        let front = writes.drop_last();
        assert forall|i: int| 0 <= i < front.len() implies rfc3339_reading(
            (#[trigger] front[i]).body.created_at@,
        ) == Some(front[i].at) by {
            assert(front[i] == writes[i]);
        }
        lemma_rows_read(posts, front);
        lemma_upserted_all(posts, front);
        assert(writes[writes.len() - 1] == writes.last());
    }
}

/// The timeline comes newest first: no entry is older than one that
/// follows it, the entries are those the cache shows within the condition,
/// each once for every time it is shown, and entries of one instant keep
/// the order they were first written in. Where no two of them were created
/// at one instant, every entry is newer than the ones that follow it.
pub proof fn lemma_timeline_newest_first(t: Tables, span: Span)
    ensures
        descending(t.timeline(span)),
        t.timeline(span).to_multiset() == t.hits(span).to_multiset(),
        forall|at: Timestamp| #[trigger]
            created_at_instant(t.timeline(span), at) == created_at_instant(t.hits(span), at),
        distinct_instants(t.hits(span)) ==> strictly_descending(t.timeline(span)),
{
    lemma_newest_first(t.hits(span));
    if distinct_instants(t.hits(span)) {
        lemma_newest_first_strict(t.hits(span));
    }
}

/// A wider condition shows what a narrower one shows: every entry the
/// cache shows within `narrow` is in its timeline within `wide`.
pub proof fn lemma_wider_span_shows_more(t: Tables, narrow: Span, wide: Span)
    requires
        forall|x: Timestamp| narrow.admits(x) ==> wide.admits(x),
    ensures
        forall|v: FeedViewPostFlat| #[trigger]
            t.hits(narrow).contains(v) ==> t.timeline(wide).contains(v),
{
    assert forall|v: FeedViewPostFlat| #[trigger] t.hits(narrow).contains(v) implies t.timeline(
        wide,
    ).contains(v) by {
        let shown_narrow = |e: FeedRow| t.shows(e, narrow);
        let shown_wide = |e: FeedRow| t.shows(e, wide);
        let join = |e: FeedRow| t.flat_of(e)->0;
        let rows = t.feed.filter(shown_narrow);
        let i = choose|i: int| 0 <= i < t.hits(narrow).len() && t.hits(narrow)[i] == v;
        assert(rows.map_values(join)[i] == join(rows[i]));
        let e = rows[i];
        t.feed.lemma_filter_pred(shown_narrow, i);
        assert(shown_narrow(e));
        assert(rows.contains(e));
        t.feed.lemma_filter_len(shown_narrow);
        lemma_filtered_came_from(t.feed, shown_narrow, e);
        let j = choose|j: int| 0 <= j < t.feed.len() && t.feed[j] == e;
        assert(shown_wide(t.feed[j]));
        t.feed.lemma_filter_contains(shown_wide, j);
        let wide_rows = t.feed.filter(shown_wide);
        let k = choose|k: int| 0 <= k < wide_rows.len() && wide_rows[k] == e;
        assert(wide_rows.map_values(join)[k] == v);
        assert(t.hits(wide).contains(v));
        lemma_newest_first(t.hits(wide));
        vstd::seq_lib::to_multiset_contains(t.hits(wide), v);
        vstd::seq_lib::to_multiset_contains(t.timeline(wide), v);
    }
}

/// What a filter keeps was there before.
pub proof fn lemma_filtered_came_from<A>(s: Seq<A>, pred: spec_fn(A) -> bool, a: A)
    requires
        s.filter(pred).contains(a),
    ensures
        s.contains(a),
    decreases s.len(),
{
    reveal(Seq::filter);
    if s.len() > 0 {
        let front = s.drop_last();
        if front.filter(pred).contains(a) {
            lemma_filtered_came_from(front, pred, a);
            let i = choose|i: int| 0 <= i < front.len() && front[i] == a;
            assert(s[i] == a);
        } else {
            let out = s.filter(pred);
            let i = choose|i: int| 0 <= i < out.len() && out[i] == a;
            if pred(s.last()) {
                if i < out.len() - 1 {
                    assert(front.filter(pred)[i] == a);
                } else {
                    assert(s[s.len() - 1] == a);
                }
            } else {
                assert(front.filter(pred)[i] == a);
            }
        }
    }
}

/// The condition a filter stands for: none admits every instant.
pub open spec fn span_of(filter: Option<Span>) -> Span {
    match filter {
        Some(span) => span,
        None => Span::All,
    }
}

/// The joined entries of `rows.push(e)` within `span` are those of `rows`,
/// and the entry joined from `e` behind them where it shows.
pub proof fn lemma_hits_among_push(t: Tables, rows: Seq<FeedRow>, e: FeedRow, span: Span)
    ensures
        t.hits_among(rows.push(e), span) == if t.shows(e, span) {
            t.hits_among(rows, span).push(t.flat_of(e)->0)
        } else {
            t.hits_among(rows, span)
        },
{
    reveal(Seq::filter);
    let shown = |x: FeedRow| t.shows(x, span);
    let join = |x: FeedRow| t.flat_of(x)->0;
    assert(rows.push(e).drop_last() =~= rows);
    if t.shows(e, span) {
        assert(rows.push(e).filter(shown) == rows.filter(shown).push(e));
        assert(rows.filter(shown).push(e).map_values(join) =~= rows.filter(shown).map_values(
            join,
        ).push(join(e)));
    }
}

/// How many entries of a page have a creation time that does not read as a
/// date and time.
pub open spec fn unreadable_items(items: Seq<FeedItem>) -> nat
    decreases items.len(),
{
    if items.len() == 0 {
        0
    } else {
        unreadable_items(items.drop_last()) + if readable_item(items.last()) {
            0nat
        } else {
            1nat
        }
    }
}

/// The row an entry of a page is stored as: see [`feed_row_of`].
pub fn feed_row(item: &FeedItem) -> (r: FeedRow)
    ensures
        r == feed_row_of(*item),
{
    let cid = duplicate_text(&item.post.body.cid);
    let reason = duplicate_opt_text(&item.reason);
    match &item.reply {
        Some(reply) => FeedRow {
            cid,
            parent: link_to(&reply.parent),
            root: link_to(&reply.root),
            reason,
        },
        None => FeedRow { cid, parent: None, root: None, reason },
    }
}

/// The content identifier of the post a reply points at, where that post
/// was sent along.
fn link_to(target: &ReplyTarget) -> (r: Option<String>)
    ensures
        r == cid_of(found(*target)),
{
    match target {
        ReplyTarget::Found(post) => Some(duplicate_text(&post.body.cid)),
        _ => None,
    }
}

/// Hands out the post a reply points at, where it was sent along.
fn sent_along(target: ReplyTarget) -> (r: Option<Post>)
    ensures
        r == found(target),
{
    match target {
        ReplyTarget::Found(p) => Some(p),
        _ => None,
    }
}

/// Tells whether a post's creation time reads as a date and time.
fn reads(post: &Post) -> (r: bool)
    ensures
        r == readable(*post),
{
    parse_rfc3339(post.body.created_at.as_str()).is_some()
}

/// Tells whether a post that may be absent has a creation time that reads.
fn reads_if_sent(post: &Option<Post>) -> (r: bool)
    ensures
        r == (*post matches Some(p) ==> readable(p)),
{
    match post {
        Some(p) => reads(p),
        None => true,
    }
}

} // verus!
