//! The questions put to the cache, written out as statements of the query
//! language of the embedded database that keeps the cache on disk.

use crate::json::{
    decimal_text, json_of_number, json_of_text, number_to_json, text_to_json, trim_quotes,
    unquoted,
};
use crate::model::Post;
use crate::store::{FeedRow, StoreError};
use vstd::prelude::*;
use vstd::string::StringExecFns;

verus! {

/// The columns of a joined feed entry and the table they are read from.
pub const SELECT_ENTRY: &'static str =
    "SELECT post[*], post.record.createdAt as createdAt, reply.parent as parent, reply.root as root, reason OMIT post.id, parent.id, root.id FROM feed";

/// The records that are fetched along with a feed entry.
pub const FETCH_LINKS: &'static str = " FETCH post.author, parent, root, parent.author, root.author;";

/// The order and the size of a page of the timeline, with the records that
/// are fetched along.
pub const NEWEST_TEN: &'static str =
    " ORDER BY createdAt DESC LIMIT 10 FETCH post.author, parent, root, parent.author, root.author;";

/// How a count of feed entries by creation time begins.
pub const COUNT_WHERE_CREATED: &'static str =
    "SELECT COUNT() as c FROM feed WHERE post.record.createdAt ";

/// How a count of feed entries ends.
pub const GROUP_ALL: &'static str = "' GROUP ALL";

/// A question about the feed.
#[derive(Clone, Debug)]
pub enum SqlQuery {
    /// The creation time of the post with a content identifier.
    SelectCreatedAt { cid: String },
    /// How many entries were created at a time or before it.
    CountPostsOlderThan { created_at: String },
    /// How many entries were created at a time or before it, and after a
    /// lower limit.
    CountRecentPostsOlderThan { created_at: String, lower_limit: String },
    /// How many entries were created at a time or after it.
    CountPostsNewerThan { created_at: String },
    /// The joined entry of the post with a content identifier.
    GetPost { cid: String },
    /// The ten newest joined entries, of those that meet `filter` where
    /// one is given.
    ReadTimeline { filter: Option<String> },
}

impl SqlQuery {
    /// The statement that puts this question.
    pub open spec fn statement(self) -> Seq<char> {
        match self {
            SqlQuery::SelectCreatedAt { cid } => {
                "SELECT post.record.createdAt as createdAt FROM feed WHERE post.cid="@ + cid@
                    + " LIMIT 1;"@
            },
            SqlQuery::CountPostsOlderThan { created_at } => {
                COUNT_WHERE_CREATED@ + "<= '"@ + created_at@ + GROUP_ALL@
            },
            SqlQuery::CountRecentPostsOlderThan { created_at, lower_limit } => {
                COUNT_WHERE_CREATED@ + "<= '"@ + created_at@ + "' and post.record.createdAt > '"@
                    + lower_limit@ + GROUP_ALL@
            },
            SqlQuery::CountPostsNewerThan { created_at } => {
                COUNT_WHERE_CREATED@ + ">= '"@ + created_at@ + GROUP_ALL@
            },
            SqlQuery::GetPost { cid } => {
                SELECT_ENTRY@ + " WHERE post.cid == "@ + cid@ + FETCH_LINKS@
            },
            SqlQuery::ReadTimeline { filter } => match filter {
                Some(f) => SELECT_ENTRY@ + " WHERE "@ + f@ + NEWEST_TEN@,
                None => SELECT_ENTRY@ + NEWEST_TEN@,
            },
        }
    }

    /// Writes out the statement that puts this question.
    pub fn to_sql(&self) -> (r: String)
        ensures
            r@ == self.statement(),
    {
        match self {
            SqlQuery::SelectCreatedAt { cid } => {
                let mut sql = String::from_str(
                    "SELECT post.record.createdAt as createdAt FROM feed WHERE post.cid=",
                );
                sql.append(cid.as_str());
                sql.append(" LIMIT 1;");
                sql
            },
            SqlQuery::CountPostsOlderThan { created_at } => {
                let mut sql = String::from_str(COUNT_WHERE_CREATED);
                sql.append("<= '");
                sql.append(created_at.as_str());
                sql.append(GROUP_ALL);
                sql
            },
            SqlQuery::CountRecentPostsOlderThan { created_at, lower_limit } => {
                let mut sql = String::from_str(COUNT_WHERE_CREATED);
                sql.append("<= '");
                sql.append(created_at.as_str());
                sql.append("' and post.record.createdAt > '");
                sql.append(lower_limit.as_str());
                sql.append(GROUP_ALL);
                sql
            },
            SqlQuery::CountPostsNewerThan { created_at } => {
                let mut sql = String::from_str(COUNT_WHERE_CREATED);
                sql.append(">= '");
                sql.append(created_at.as_str());
                sql.append(GROUP_ALL);
                sql
            },
            SqlQuery::GetPost { cid } => {
                let mut sql = String::from_str(SELECT_ENTRY);
                sql.append(" WHERE post.cid == ");
                sql.append(cid.as_str());
                sql.append(FETCH_LINKS);
                sql
            },
            SqlQuery::ReadTimeline { filter } => {
                let mut sql = String::from_str(SELECT_ENTRY);
                match filter {
                    Some(f) => {
                        sql.append(" WHERE ");
                        sql.append(f.as_str());
                    },
                    None => {},
                }
                sql.append(NEWEST_TEN);
                sql
            },
        }
    }
}

/// The condition on creation times that a window of the timeline is read
/// with: before `cursor`, and from `lower_limit` on.
pub open spec fn window_condition(cursor: Seq<char>, lower_limit: Seq<char>) -> Seq<char> {
    "createdAt < '"@ + cursor + "' and createdAt >= '"@ + lower_limit + "'"@
}

/// Writes out the condition a window of the timeline is read with.
pub fn window_filter(cursor: &str, lower_limit: &str) -> (r: String)
    ensures
        r@ == window_condition(cursor@, lower_limit@),
{
    let mut sql = String::from_str("createdAt < '");
    sql.append(cursor);
    sql.append("' and createdAt >= '");
    sql.append(lower_limit);
    sql.append("'");
    sql
}

/// A JSON text that may be absent, as it is written into a statement.
pub open spec fn json_or_null(json: Option<String>) -> Seq<char> {
    match json {
        Some(text) => text@,
        None => "null"@,
    }
}

/// A count that may be absent, as it is written into a statement.
pub open spec fn count_json(count: Option<i64>) -> Option<Seq<char>> {
    match count {
        Some(n) => json_of_number(n),
        None => Some("null"@),
    }
}

/// A count that may be absent, as it stands in a statement: its decimal
/// text, or `null`.
pub open spec fn count_text(count: Option<i64>) -> Seq<char> {
    match count {
        Some(n) => decimal_text(n as int),
        None => "null"@,
    }
}

/// The statement that writes a post under its content identifier, with a
/// link to its author, where `indexed_at` and `uri` are those two fields
/// written out as JSON and `likes`, `replies` and `reposts` the counts.
pub open spec fn post_statement_of(
    post: Post,
    indexed_at: Seq<char>,
    likes: Seq<char>,
    replies: Seq<char>,
    reposts: Seq<char>,
    uri: Seq<char>,
) -> Seq<char> {
    "UPDATE post:"@ + post.body.cid@ + " CONTENT { cid: \""@ + post.body.cid@
        + "\", author: author:⟨"@ + post.author.did@ + "⟩, indexedAt: "@ + indexed_at
        + ", labels: "@ + json_or_null(post.body.labels) + ", likeCount: "@ + likes + ", record: "@
        + post.body.record@ + ", replyCount: "@ + replies + ", repostCount: "@ + reposts
        + ", uri: "@ + uri + ", viewer: "@ + json_or_null(post.body.viewer) + ", };"@
}

/// The statement that writes a post under its content identifier, with a
/// link to its author; none where a field cannot be written out as JSON.
pub open spec fn post_statement_text(post: Post) -> Option<Seq<char>> {
    match (
        json_of_text(post.body.indexed_at@),
        count_json(post.body.like_count),
        count_json(post.body.reply_count),
        count_json(post.body.repost_count),
        json_of_text(post.body.uri@),
    ) {
        (Some(indexed_at), Some(likes), Some(replies), Some(reposts), Some(uri)) => Some(
            post_statement_of(post, indexed_at, likes, replies, reposts, uri),
        ),
        _ => None,
    }
}

/// A content identifier as it is written into a link: its JSON without
/// the quotation marks around it.
pub open spec fn link_text(cid: Seq<char>) -> Option<Seq<char>> {
    match json_of_text(cid) {
        Some(json) => Some(unquoted(json)),
        None => None,
    }
}

/// A link to a post as it stands in a statement under the name `name`:
/// nothing where there is no link, and none where the content identifier
/// cannot be written out as JSON.
pub open spec fn link_entry(name: Seq<char>, link: Option<String>) -> Option<Seq<char>> {
    match link {
        Some(cid) => match link_text(cid@) {
            Some(text) => Some(name + ": post:⟨"@ + text + "⟩, "@),
            None => None,
        },
        None => Some(Seq::empty()),
    }
}

/// The statement that writes a feed entry under the content identifier of
/// its post. It links the post the entry answers and the post that started
/// the thread, each where the entry points at it; an entry that points at
/// neither has no reply at all. There is none where a content identifier
/// cannot be written out as JSON.
pub open spec fn feed_statement_text(row: FeedRow) -> Option<Seq<char>> {
    let head = "UPDATE feed:"@ + row.cid@ + " CONTENT { post: post:"@ + row.cid@;
    let tail = ", reason: "@ + json_or_null(row.reason) + ", };"@;
    match (link_entry("parent"@, row.parent), link_entry("root"@, row.root)) {
        (Some(parent), Some(root)) => if row.parent is None && row.root is None {
            Some(head + tail)
        } else {
            Some(head + ", reply: { "@ + parent + root + "}"@ + tail)
        },
        _ => None,
    }
}

/// Writes a text out as JSON.
fn quoted(text: &str) -> (r: Result<String, StoreError>)
    ensures
        r is Ok == json_of_text(text@) is Some,
        r matches Ok(s) ==> json_of_text(text@) == Some(s@),
        r matches Err(e) ==> e == StoreError::Serialization,
{
    match text_to_json(text) {
        Ok(s) => Ok(s),
        Err(_) => Err(StoreError::Serialization),
    }
}

/// Writes a count that may be absent out as JSON.
fn counted(count: Option<i64>) -> (r: Result<String, StoreError>)
    ensures
        r is Ok == count_json(count) is Some,
        r matches Ok(s) ==> count_json(count) == Some(s@),
        r matches Ok(s) ==> s@ == count_text(count),
        r matches Err(e) ==> e == StoreError::Serialization,
{
    match count {
        Some(n) => match number_to_json(n) {
            Ok(s) => Ok(s),
            Err(_) => Err(StoreError::Serialization),
        },
        None => Ok(String::from_str("null")),
    }
}

/// Puts a JSON text that may be absent behind a statement.
fn append_json_or_null(sql: &mut String, json: &Option<String>)
    ensures
        final(sql)@ == old(sql)@ + json_or_null(*json),
{
    match json {
        Some(text) => sql.append(text.as_str()),
        None => sql.append("null"),
    }
}

/// Writes out the statement that stores a post. The counts stand in it in
/// decimal, and `null` where there is none.
pub fn post_statement(post: &Post) -> (r: Result<String, StoreError>)
    ensures
        match post_statement_text(*post) {
            Some(text) => r matches Ok(s) && s@ == text,
            None => r == Err::<String, StoreError>(StoreError::Serialization),
        },
        r matches Ok(s) ==> s@ == post_statement_of(
            *post,
            json_of_text(post.body.indexed_at@)->0,
            count_text(post.body.like_count),
            count_text(post.body.reply_count),
            count_text(post.body.repost_count),
            json_of_text(post.body.uri@)->0,
        ),
{
    let indexed_at = quoted(post.body.indexed_at.as_str())?;
    let likes = counted(post.body.like_count)?;
    let replies = counted(post.body.reply_count)?;
    let reposts = counted(post.body.repost_count)?;
    let uri = quoted(post.body.uri.as_str())?;
    let mut sql = String::from_str("UPDATE post:");
    sql.append(post.body.cid.as_str());
    sql.append(" CONTENT { cid: \"");
    sql.append(post.body.cid.as_str());
    sql.append("\", author: author:⟨");
    sql.append(post.author.did.as_str());
    sql.append("⟩, indexedAt: ");
    sql.append(indexed_at.as_str());
    sql.append(", labels: ");
    append_json_or_null(&mut sql, &post.body.labels);
    sql.append(", likeCount: ");
    sql.append(likes.as_str());
    sql.append(", record: ");
    sql.append(post.body.record.as_str());
    sql.append(", replyCount: ");
    sql.append(replies.as_str());
    sql.append(", repostCount: ");
    sql.append(reposts.as_str());
    sql.append(", uri: ");
    sql.append(uri.as_str());
    sql.append(", viewer: ");
    append_json_or_null(&mut sql, &post.body.viewer);
    sql.append(", };");
    Ok(sql)
}

/// Writes a content identifier out as it stands in a link.
fn link(cid: &str) -> (r: Result<String, StoreError>)
    ensures
        r is Ok == link_text(cid@) is Some,
        r matches Ok(s) ==> link_text(cid@) == Some(s@),
        r matches Err(e) ==> e == StoreError::Serialization,
{
    match quoted(cid) {
        Ok(json) => Ok(trim_quotes(json.as_str())),
        Err(e) => Err(e),
    }
}

/// Writes a link to a post out as it stands in a statement.
fn linked(name: &str, link_to: &Option<String>) -> (r: Result<String, StoreError>)
    ensures
        r is Ok == link_entry(name@, *link_to) is Some,
        r matches Ok(s) ==> link_entry(name@, *link_to) == Some(s@),
        r matches Err(e) ==> e == StoreError::Serialization,
{
    match link_to {
        Some(cid) => {
            let text = link(cid.as_str())?;
            let mut out = String::from_str(name);
            out.append(": post:⟨");
            out.append(text.as_str());
            out.append("⟩, ");
            Ok(out)
        },
        None => Ok(String::new()),
    }
}

/// Writes out the statement that stores a feed entry.
pub fn feed_statement(row: &FeedRow) -> (r: Result<String, StoreError>)
    ensures
        match feed_statement_text(*row) {
            Some(text) => r matches Ok(s) && s@ == text,
            None => r == Err::<String, StoreError>(StoreError::Serialization),
        },
{
    let parent = linked("parent", &row.parent)?;
    let root = linked("root", &row.root)?;
    let mut sql = String::from_str("UPDATE feed:");
    sql.append(row.cid.as_str());
    sql.append(" CONTENT { post: post:");
    sql.append(row.cid.as_str());
    if row.parent.is_some() || row.root.is_some() {
        sql.append(", reply: { ");
        sql.append(parent.as_str());
        sql.append(root.as_str());
        sql.append("}");
    }
    sql.append(", reason: ");
    append_json_or_null(&mut sql, &row.reason);
    sql.append(", };");
    Ok(sql)
}

/// The statement that reads the whole timeline, of the entries that meet
/// `filter` where one is given: every joined entry, the newest first.
pub open spec fn timeline_statement_text(filter: Option<String>) -> Seq<char> {
    match filter {
        Some(f) => SELECT_ENTRY@ + " WHERE "@ + f@ + " ORDER BY createdAt DESC"@ + FETCH_LINKS@,
        None => SELECT_ENTRY@ + " ORDER BY createdAt DESC"@ + FETCH_LINKS@,
    }
}

/// Writes out the statement that reads the whole timeline.
pub fn timeline_statement(filter: &Option<String>) -> (r: String)
    ensures
        r@ == timeline_statement_text(*filter),
{
    let mut sql = String::from_str(SELECT_ENTRY);
    match filter {
        Some(f) => {
            sql.append(" WHERE ");
            sql.append(f.as_str());
        },
        None => {},
    }
    sql.append(" ORDER BY createdAt DESC");
    sql.append(FETCH_LINKS);
    sql
}

} // verus!
