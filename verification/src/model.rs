//! The records the cache keeps and the shapes they arrive and leave in.

use crate::table::Keyed;
use crate::time::Timestamp;
use std::cmp::Ordering;
use vstd::prelude::*;
use vstd::std_specs::cmp::PartialEqSpecImpl;

verus! {

/// Copies a text.
pub fn duplicate_text(s: &String) -> (r: String)
    ensures
        r == *s,
{
    s.clone()
}

/// Copies a text that may be absent.
pub fn duplicate_opt_text(s: &Option<String>) -> (r: Option<String>)
    ensures
        r == *s,
{
    match s {
        Some(t) => Some(t.clone()),
        None => None,
    }
}

/// The profile of whoever wrote a post, known by its decentralized identifier.
#[derive(Clone, Debug)]
pub struct Author {
    pub did: String,
    pub handle: String,
    pub display_name: Option<String>,
    pub avatar: Option<String>,
}

impl Author {
    /// A copy with the same fields.
    pub fn duplicate(&self) -> (r: Author)
        ensures
            r == *self,
    {
        Author {
            did: duplicate_text(&self.did),
            handle: duplicate_text(&self.handle),
            display_name: duplicate_opt_text(&self.display_name),
            avatar: duplicate_opt_text(&self.avatar),
        }
    }
}

impl Keyed for Author {
    open spec fn key(&self) -> Seq<char> {
        self.did@
    }

    fn key_text(&self) -> (r: &String) {
        &self.did
    }
}

/// What a post holds besides its author. `created_at` is the creation time
/// as the record gives it; `record`, `viewer` and `labels` are JSON texts
/// that the cache carries without reading them.
#[derive(Clone, Debug)]
pub struct PostBody {
    pub cid: String,
    pub uri: String,
    pub created_at: String,
    pub indexed_at: String,
    pub like_count: Option<i64>,
    pub repost_count: Option<i64>,
    pub reply_count: Option<i64>,
    pub record: String,
    pub viewer: Option<String>,
    pub labels: Option<String>,
}

impl PostBody {
    /// A copy with the same fields.
    pub fn duplicate(&self) -> (r: PostBody)
        ensures
            r == *self,
    {
        PostBody {
            cid: duplicate_text(&self.cid),
            uri: duplicate_text(&self.uri),
            created_at: duplicate_text(&self.created_at),
            indexed_at: duplicate_text(&self.indexed_at),
            like_count: self.like_count,
            repost_count: self.repost_count,
            reply_count: self.reply_count,
            record: duplicate_text(&self.record),
            viewer: duplicate_opt_text(&self.viewer),
            labels: duplicate_opt_text(&self.labels),
        }
    }
}

/// A post together with the profile of its author.
#[derive(Clone, Debug)]
pub struct Post {
    pub author: Author,
    pub body: PostBody,
}

impl Post {
    /// A copy with the same fields.
    pub fn duplicate(&self) -> (r: Post)
        ensures
            r == *self,
    {
        Post { author: self.author.duplicate(), body: self.body.duplicate() }
    }
}

/// What a reply points at, as the remote service reports it.
#[derive(Clone, Debug)]
pub enum ReplyTarget {
    /// The post is there and was sent along.
    Found(Post),
    /// The post is gone.
    NotFound,
    /// The post is hidden from the reader.
    Blocked,
}

/// The two posts a reply belongs under.
#[derive(Clone, Debug)]
pub struct ReplyRef {
    pub parent: ReplyTarget,
    pub root: ReplyTarget,
}

/// One entry of a page of the remote timeline. `reason` is the JSON text of
/// a repost reason.
#[derive(Clone, Debug)]
pub struct FeedItem {
    pub post: Post,
    pub reply: Option<ReplyRef>,
    pub reason: Option<String>,
}

/// One page of the remote timeline with the token that continues it.
#[derive(Clone, Debug)]
pub struct TimelinePage {
    pub feed: Vec<FeedItem>,
    pub cursor: Option<String>,
}

/// A feed entry joined with its post and the posts it replies to, each with
/// its author: what the reader is served. `created_at` is the instant the
/// post's creation time reads as.
#[derive(Clone, Debug)]
pub struct FeedViewPostFlat {
    pub post: Post,
    pub parent: Option<Post>,
    pub root: Option<Post>,
    pub created_at: Timestamp,
}

impl FeedViewPostFlat {
    /// The content identifier of the entry's post.
    pub open spec fn cid(&self) -> Seq<char> {
        self.post.body.cid@
    }

    /// A copy with the same fields.
    pub fn duplicate(&self) -> (r: FeedViewPostFlat)
        ensures
            r == *self,
    {
        FeedViewPostFlat {
            post: self.post.duplicate(),
            parent: match &self.parent {
                Some(p) => Some(p.duplicate()),
                None => None,
            },
            root: match &self.root {
                Some(p) => Some(p.duplicate()),
                None => None,
            },
            created_at: self.created_at,
        }
    }
}

impl PartialEq for FeedViewPostFlat {
    /// Two entries are the same entry when their posts have one content
    /// identifier, whatever else they hold.
    fn eq(&self, other: &FeedViewPostFlat) -> (r: bool) {
        self.post.body.cid == other.post.body.cid
    }
}

impl PartialEqSpecImpl for FeedViewPostFlat {
    open spec fn obeys_eq_spec() -> bool {
        true
    }

    open spec fn eq_spec(&self, other: &FeedViewPostFlat) -> bool {
        self.cid() == other.cid()
    }
}

impl Eq for FeedViewPostFlat {

}

/// How `a` stands to `b` when the newer entry is to come first: `Less`
/// where `a` is the newer one.
pub open spec fn newer_first(a: FeedViewPostFlat, b: FeedViewPostFlat) -> Ordering {
    if b.created_at.is_before(a.created_at) {
        Ordering::Less
    } else if a.created_at.is_before(b.created_at) {
        Ordering::Greater
    } else {
        Ordering::Equal
    }
}

/// Compares two entries by creation time, the newer one first.
pub fn compare_records_by_created_at(a: &FeedViewPostFlat, b: &FeedViewPostFlat) -> (r: Ordering)
    ensures
        r == newer_first(*a, *b),
{
    if b.created_at.before(&a.created_at) {
        Ordering::Less
    } else if a.created_at.before(&b.created_at) {
        Ordering::Greater
    } else {
        Ordering::Equal
    }
}

} // verus!
