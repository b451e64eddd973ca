use rbsky::model::{Author, FeedItem, Post, PostBody, ReplyRef, ReplyTarget, TimelinePage};
use rbsky::query::Querier;
use rbsky::store::{CacheStore, Span, StoreError};
use rbsky::time::Timestamp;

fn author(did: &str, handle: &str) -> Author {
    Author {
        did: String::from(did),
        handle: String::from(handle),
        display_name: Some(String::from(handle).to_uppercase()),
        avatar: None,
    }
}

fn post(cid: &str, did: &str, created_at: &str) -> Post {
    Post {
        author: author(did, "someone.example"),
        body: PostBody {
            cid: String::from(cid),
            uri: format!("at://{}/app.bsky.feed.post/{}", did, cid),
            created_at: String::from(created_at),
            indexed_at: String::from(created_at),
            like_count: Some(1),
            repost_count: None,
            reply_count: Some(0),
            record: format!("{{\"text\":\"{}\"}}", cid),
            viewer: None,
            labels: None,
        },
    }
}

fn item(cid: &str, created_at: &str) -> FeedItem {
    FeedItem { post: post(cid, "did:plc:alice", created_at), reply: None, reason: None }
}

fn cids(entries: &Vec<rbsky::model::FeedViewPostFlat>) -> Vec<String> {
    entries.iter().map(|e| e.post.body.cid.clone()).collect()
}

fn at(secs: i64) -> Timestamp {
    Timestamp { secs, nanos: 0, offset: 0 }
}

// 2024-01-01T00:00:00Z
const NEW_YEAR: i64 = 1_704_067_200;

#[test]
fn new_store_holds_nothing() {
    let store = CacheStore::new();
    assert!(store.authors().is_empty());
    assert!(store.posts().is_empty());
    assert!(store.feed().is_empty());
    assert!(store.cursors().is_empty());
    assert!(store.read_timeline(String::from("default"), None).is_empty());
}

#[test]
fn author_written_twice_is_stored_once() {
    let mut store = CacheStore::new();
    store.store_author(author("did:plc:alice", "alice.example"));
    store.store_author(author("did:plc:alice", "alice.example"));
    assert_eq!(store.authors().len(), 1);
    assert_eq!(store.authors()[0].handle, "alice.example");
}

#[test]
fn author_written_again_is_overwritten_in_place() {
    let mut store = CacheStore::new();
    store.store_author(author("did:plc:alice", "alice.example"));
    store.store_author(author("did:plc:bob", "bob.example"));
    store.store_author(author("did:plc:alice", "alice.renamed"));
    assert_eq!(store.authors().len(), 2);
    assert_eq!(store.authors()[0].did, "did:plc:alice");
    assert_eq!(store.authors()[0].handle, "alice.renamed");
    assert_eq!(store.authors()[1].did, "did:plc:bob");
}

#[test]
fn post_written_twice_is_stored_once() {
    let mut store = CacheStore::new();
    assert_eq!(store.store_post(post("a", "did:plc:alice", "2024-01-01T00:09:00Z")), Ok(()));
    assert_eq!(store.store_post(post("a", "did:plc:alice", "2024-01-01T00:09:00Z")), Ok(()));
    assert_eq!(store.posts().len(), 1);
    assert_eq!(store.posts()[0].body.cid, "a");
    assert_eq!(store.posts()[0].author_did, "did:plc:alice");
    assert_eq!(store.posts()[0].at, at(NEW_YEAR + 9 * 60));
    // the author is referred to, not written
    assert!(store.authors().is_empty());
}

#[test]
fn post_is_stored_before_any_feed_entry_shows_it() {
    let mut store = CacheStore::new();
    assert_eq!(store.store_post_view(post("a", "did:plc:alice", "2024-01-01T00:09:00Z")), Ok(()));
    assert_eq!(store.posts().len(), 1);
    assert_eq!(store.authors().len(), 1);
    assert!(store.feed().is_empty());
    assert!(store.read_timeline(String::from("default"), None).is_empty());
}

#[test]
fn creation_time_keeps_its_offset_and_is_ordered_as_an_instant() {
    let mut store = CacheStore::new();
    assert_eq!(store.store_post(post("a", "did:plc:alice", "2024-01-01T02:00:00.25+02:00")), Ok(()));
    assert_eq!(
        store.posts()[0].at,
        Timestamp { secs: NEW_YEAR, nanos: 250_000_000, offset: 7200 }
    );
}

#[test]
fn post_with_a_creation_time_that_does_not_read_is_refused() {
    let mut store = CacheStore::new();
    assert_eq!(
        store.store_post(post("a", "did:plc:alice", "last tuesday")),
        Err(StoreError::MalformedTimestamp)
    );
    assert_eq!(
        store.store_post_view(post("a", "did:plc:alice", "2024-01-01T00:00:00")),
        Err(StoreError::MalformedTimestamp)
    );
    assert!(store.posts().is_empty());
    assert!(store.authors().is_empty());
}

#[test]
fn feed_entry_written_twice_is_stored_once() {
    let mut store = CacheStore::new();
    assert_eq!(store.store_feed_post_view(item("a", "2024-01-01T00:09:00Z")), Ok(()));
    assert_eq!(store.store_feed_post_view(item("a", "2024-01-01T00:09:00Z")), Ok(()));
    assert_eq!(store.feed().len(), 1);
    assert_eq!(store.posts().len(), 1);
    assert_eq!(store.authors().len(), 1);
    assert_eq!(cids(&store.read_timeline(String::from("default"), None)), vec!["a"]);
}

#[test]
fn reply_stores_the_posts_it_answers_and_points_at_them() {
    let mut store = CacheStore::new();
    let reply = FeedItem {
        post: post("c", "did:plc:carol", "2024-01-01T00:09:00Z"),
        reply: Some(ReplyRef {
            parent: ReplyTarget::Found(post("b", "did:plc:bob", "2024-01-01T00:05:00Z")),
            root: ReplyTarget::Found(post("a", "did:plc:alice", "2024-01-01T00:01:00Z")),
        }),
        reason: Some(String::from("{\"$type\":\"app.bsky.feed.defs#reasonRepost\"}")),
    };
    assert_eq!(store.store_feed_post_view(reply), Ok(()));
    assert_eq!(store.authors().len(), 3);
    assert_eq!(store.posts().len(), 3);
    assert_eq!(store.posts()[0].body.cid, "c");
    assert_eq!(store.posts()[1].body.cid, "b");
    assert_eq!(store.posts()[2].body.cid, "a");
    assert_eq!(store.feed().len(), 1);
    assert_eq!(store.feed()[0].cid, "c");
    assert_eq!(store.feed()[0].parent, Some(String::from("b")));
    assert_eq!(store.feed()[0].root, Some(String::from("a")));
    assert_eq!(
        store.feed()[0].reason,
        Some(String::from("{\"$type\":\"app.bsky.feed.defs#reasonRepost\"}"))
    );
    let shown = store.get_post(String::from("default"), String::from("c")).unwrap();
    assert_eq!(shown.post.body.cid, "c");
    assert_eq!(shown.post.author.did, "did:plc:carol");
    assert_eq!(shown.parent.as_ref().unwrap().body.cid, "b");
    assert_eq!(shown.parent.as_ref().unwrap().author.did, "did:plc:bob");
    assert_eq!(shown.root.as_ref().unwrap().body.cid, "a");
    assert_eq!(shown.created_at, at(NEW_YEAR + 9 * 60));
    // only the reply itself is an entry of the feed
    assert_eq!(cids(&store.read_timeline(String::from("default"), None)), vec!["c"]);
}

#[test]
fn reply_whose_root_is_gone_still_points_at_its_parent() {
    let mut store = CacheStore::new();
    let reply = FeedItem {
        post: post("c", "did:plc:carol", "2024-01-01T00:09:00Z"),
        reply: Some(ReplyRef {
            parent: ReplyTarget::Found(post("b", "did:plc:bob", "2024-01-01T00:05:00Z")),
            root: ReplyTarget::NotFound,
        }),
        reason: None,
    };
    assert_eq!(store.store_feed_post_view(reply), Ok(()));
    // the parent that was sent along is stored with its author, and linked
    assert_eq!(store.posts().len(), 2);
    assert_eq!(store.authors().len(), 2);
    assert_eq!(store.feed()[0].parent, Some(String::from("b")));
    assert_eq!(store.feed()[0].root, None);
    let shown = store.get_post(String::from("default"), String::from("c")).unwrap();
    assert_eq!(shown.parent.as_ref().unwrap().body.cid, "b");
    assert_eq!(shown.parent.as_ref().unwrap().author.did, "did:plc:bob");
    assert!(shown.root.is_none());
}

#[test]
fn reply_whose_parent_is_hidden_still_points_at_its_root() {
    let mut store = CacheStore::new();
    let reply = FeedItem {
        post: post("c", "did:plc:carol", "2024-01-01T00:09:00Z"),
        reply: Some(ReplyRef {
            parent: ReplyTarget::Blocked,
            root: ReplyTarget::Found(post("a", "did:plc:alice", "2024-01-01T00:01:00Z")),
        }),
        reason: None,
    };
    assert_eq!(store.store_feed_post_view(reply), Ok(()));
    assert_eq!(store.posts().len(), 2);
    assert_eq!(store.feed()[0].parent, None);
    assert_eq!(store.feed()[0].root, Some(String::from("a")));
    let shown = store.get_post(String::from("default"), String::from("c")).unwrap();
    assert!(shown.parent.is_none());
    assert_eq!(shown.root.as_ref().unwrap().body.cid, "a");
}

#[test]
fn feed_entry_is_written_with_the_links_it_is_given() {
    let mut store = CacheStore::new();
    store.upsert_feed_entry(String::from("c"), Some(String::from("b")), None, None);
    store.upsert_feed_entry(String::from("d"), None, Some(String::from("a")), Some(String::from("{}")));
    store.upsert_feed_entry(String::from("c"), None, None, None);
    assert_eq!(store.feed().len(), 2);
    assert_eq!(store.feed()[0].cid, "c");
    assert_eq!(store.feed()[0].parent, None);
    assert_eq!(store.feed()[1].cid, "d");
    assert_eq!(store.feed()[1].root, Some(String::from("a")));
    assert_eq!(store.feed()[1].reason, Some(String::from("{}")));
    // an entry whose post is not stored is not shown
    assert!(store.read_timeline(String::from("default"), None).is_empty());
}

#[test]
fn blocked_posts_are_not_stored() {
    let mut store = CacheStore::new();
    let reply = FeedItem {
        post: post("c", "did:plc:carol", "2024-01-01T00:09:00Z"),
        reply: Some(ReplyRef { parent: ReplyTarget::Blocked, root: ReplyTarget::Blocked }),
        reason: None,
    };
    assert_eq!(store.store_feed_post_view(reply), Ok(()));
    assert_eq!(store.posts().len(), 1);
    assert_eq!(store.feed()[0].parent, None);
}

#[test]
fn entry_with_a_parent_that_does_not_read_is_refused_whole() {
    let mut store = CacheStore::new();
    let reply = FeedItem {
        post: post("c", "did:plc:carol", "2024-01-01T00:09:00Z"),
        reply: Some(ReplyRef {
            parent: ReplyTarget::Found(post("b", "did:plc:bob", "never")),
            root: ReplyTarget::Found(post("a", "did:plc:alice", "2024-01-01T00:01:00Z")),
        }),
        reason: None,
    };
    assert_eq!(store.store_feed_post_view(reply), Err(StoreError::MalformedTimestamp));
    assert!(store.authors().is_empty());
    assert!(store.posts().is_empty());
    assert!(store.feed().is_empty());
}

#[test]
fn author_written_later_shows_in_every_post_of_that_author() {
    let mut store = CacheStore::new();
    assert_eq!(store.store_feed_post_view(item("a", "2024-01-01T00:09:00Z")), Ok(()));
    store.store_author(author("did:plc:alice", "alice.renamed"));
    let shown = store.read_timeline(String::from("default"), None);
    assert_eq!(shown[0].post.author.handle, "alice.renamed");
}

#[test]
fn timeline_is_read_newest_first() {
    let mut store = CacheStore::new();
    assert_eq!(store.store_feed_post_view(item("t2", "2024-01-01T00:07:00Z")), Ok(()));
    assert_eq!(store.store_feed_post_view(item("t3", "2024-01-01T00:05:00Z")), Ok(()));
    assert_eq!(store.store_feed_post_view(item("t1", "2024-01-01T00:09:00Z")), Ok(()));
    assert_eq!(cids(&store.read_timeline(String::from("default"), None)), vec!["t1", "t2", "t3"]);
}

#[test]
fn entries_of_one_instant_keep_the_order_they_were_written_in() {
    let mut store = CacheStore::new();
    assert_eq!(store.store_feed_post_view(item("x", "2024-01-01T00:05:00Z")), Ok(()));
    assert_eq!(store.store_feed_post_view(item("new", "2024-01-01T00:09:00Z")), Ok(()));
    assert_eq!(store.store_feed_post_view(item("y", "2024-01-01T01:05:00+01:00")), Ok(()));
    assert_eq!(store.store_feed_post_view(item("z", "2024-01-01T00:05:00.000Z")), Ok(()));
    assert_eq!(store.store_feed_post_view(item("old", "2024-01-01T00:01:00Z")), Ok(()));
    assert_eq!(
        cids(&store.read_timeline(String::from("default"), None)),
        vec!["new", "x", "y", "z", "old"]
    );
}

#[test]
fn entry_written_again_keeps_its_place_among_equals() {
    let mut store = CacheStore::new();
    assert_eq!(store.store_feed_post_view(item("x", "2024-01-01T00:05:00Z")), Ok(()));
    assert_eq!(store.store_feed_post_view(item("y", "2024-01-01T00:05:00Z")), Ok(()));
    assert_eq!(store.store_feed_post_view(item("x", "2024-01-01T00:05:00Z")), Ok(()));
    assert_eq!(cids(&store.read_timeline(String::from("default"), None)), vec!["x", "y"]);
}

#[test]
fn timeline_is_read_within_a_window() {
    let mut store = CacheStore::new();
    for (cid, time) in [
        ("a", "2024-01-01T00:09:00Z"),
        ("b", "2024-01-01T00:07:00Z"),
        ("c", "2024-01-01T00:05:00Z"),
        ("d", "2024-01-01T00:00:00Z"),
    ] {
        assert_eq!(store.store_feed_post_view(item(cid, time)), Ok(()));
    }
    // the start belongs to the window, the end does not
    let window = Span::Window { from: at(NEW_YEAR), until: at(NEW_YEAR + 7 * 60) };
    assert_eq!(cids(&store.read_timeline(String::from("default"), Some(window))), vec!["c", "d"]);
    assert_eq!(store.count(&window), 2);
    assert_eq!(cids(&store.select(&Span::Through(at(NEW_YEAR + 5 * 60)), None)), vec!["c", "d"]);
    assert_eq!(cids(&store.select(&Span::From(at(NEW_YEAR + 7 * 60)), None)), vec!["a", "b"]);
    assert_eq!(cids(&store.select(&Span::All, Some(3))), vec!["a", "b", "c"]);
    assert_eq!(cids(&store.select(&Span::All, Some(0))), Vec::<String>::new());
    assert_eq!(cids(&store.select(&Span::All, Some(9))), vec!["a", "b", "c", "d"]);
}

#[test]
fn get_post_of_an_unknown_identifier_finds_nothing() {
    let mut store = CacheStore::new();
    assert_eq!(store.store_feed_post_view(item("a", "2024-01-01T00:09:00Z")), Ok(()));
    assert!(store.get_post(String::from("default"), String::from("b")).is_none());
    assert!(store.get_post(String::from("default"), String::from("a")).is_some());
}

#[test]
fn page_is_stored_with_its_cursor() {
    let mut store = CacheStore::new();
    let page = TimelinePage {
        feed: vec![item("a", "2024-01-01T00:09:00Z"), item("b", "2024-01-01T00:07:00Z")],
        cursor: Some(String::from("2024-01-01T00:07:00Z")),
    };
    assert_eq!(store.store_timeline(page, String::from("default")), 0);
    assert_eq!(store.feed().len(), 2);
    assert_eq!(store.cursors().len(), 1);
    assert_eq!(store.cursors()[0].cursor(), "2024-01-01T00:07:00Z");
    assert_eq!(store.cursors()[0].timeline(), "default");
}

#[test]
fn entry_that_is_refused_does_not_stop_the_page() {
    let mut store = CacheStore::new();
    let page = TimelinePage {
        feed: vec![
            item("a", "2024-01-01T00:09:00Z"),
            item("broken", "09:00"),
            item("b", "2024-01-01T00:07:00Z"),
            item("also broken", ""),
        ],
        cursor: Some(String::from("2024-01-01T00:07:00Z")),
    };
    assert_eq!(store.store_timeline(page, String::from("default")), 2);
    assert_eq!(cids(&store.read_timeline(String::from("default"), None)), vec!["a", "b"]);
    assert_eq!(store.cursors().len(), 1);
}

#[test]
fn page_without_a_cursor_records_none() {
    let mut store = CacheStore::new();
    let page = TimelinePage { feed: vec![item("a", "2024-01-01T00:09:00Z")], cursor: None };
    assert_eq!(store.store_timeline(page, String::from("default")), 0);
    assert!(store.cursors().is_empty());
    assert_eq!(store.get_latest_cursor(String::from("default")), None);
}

#[test]
fn cursors_are_kept_and_read_by_timeline() {
    let mut store = CacheStore::new();
    store.store_cursor(Some(String::from("2024-01-01T00:10:00Z")), String::from("default"));
    store.store_cursor(None, String::from("default"));
    store.store_cursor(Some(String::from("2024-01-01T00:20:00Z")), String::from("other"));
    store.store_cursor(Some(String::from("2024-01-01T00:10:00Z")), String::from("default"));
    assert_eq!(store.cursors().len(), 3);
    let mine = store.read_cursor(String::from("default"));
    assert_eq!(mine.len(), 2);
    assert_eq!(mine[0].cursor(), "2024-01-01T00:10:00Z");
    assert_eq!(mine[1].timeline(), "default");
    assert_eq!(store.read_cursor(String::from("other")).len(), 1);
    assert!(store.read_cursor(String::from("nobody")).is_empty());
    assert_eq!(
        store.get_latest_cursor(String::from("default")),
        Some(String::from("2024-01-01T00:10:00Z"))
    );
    assert_eq!(
        store.get_latest_cursor(String::from("other")),
        Some(String::from("2024-01-01T00:20:00Z"))
    );
}

#[test]
fn querier_counts_by_creation_time() {
    let mut store = CacheStore::new();
    for (cid, time) in [
        ("a", "2024-01-01T00:09:00Z"),
        ("b", "2024-01-01T00:07:00Z"),
        ("c", "2024-01-01T00:05:00Z"),
        ("d", "2024-01-01T00:00:00Z"),
    ] {
        assert_eq!(store.store_feed_post_view(item(cid, time)), Ok(()));
    }
    let q = Querier::new(&store);
    assert_eq!(q.count_posts_older_than("2024-01-01T00:05:00Z"), Ok(2));
    assert_eq!(q.count_posts_older_than("2023-01-01T00:05:00Z"), Ok(0));
    assert_eq!(q.count_posts_newer_than("2024-01-01T00:05:00Z"), Ok(3));
    assert_eq!(q.count_posts_newer_than("2024-01-01T00:09:00.001Z"), Ok(0));
    // from the lower limit on, and before the time: c and d, not b
    assert_eq!(q.count_recent_posts_older_than("2024-01-01T00:07:00Z", "2024-01-01T00:00:00Z"), Ok(2));
    // an entry created at the time itself is not counted
    assert_eq!(q.count_recent_posts_older_than("2024-01-01T00:09:00Z", "2023-12-31T19:09:00Z"), Ok(3));
    assert_eq!(q.count_recent_posts_older_than("2024-01-01T00:05:00Z", "2024-01-01T00:05:00Z"), Ok(0));
    assert_eq!(q.count_recent_posts_older_than("2024-01-01T00:05:00.001Z", "2024-01-01T00:05:00Z"), Ok(1));
    // an entry created at the lower limit is counted
    assert_eq!(q.count_recent_posts_older_than("2024-01-01T00:00:01Z", "2024-01-01T00:00:00Z"), Ok(1));
    assert_eq!(q.count_recent_posts_older_than("2024-01-01T00:00:01Z", "2024-01-01T00:00:00.001Z"), Ok(0));
    // nothing in the window is no failure
    assert_eq!(q.count_recent_posts_older_than("2023-01-01T00:00:00Z", "2022-01-01T00:00:00Z"), Ok(0));
    assert_eq!(q.count_posts_older_than("noon"), Err(StoreError::MalformedTimestamp));
    assert_eq!(q.count_posts_newer_than(""), Err(StoreError::MalformedTimestamp));
    assert_eq!(
        q.count_recent_posts_older_than("2024-01-01T00:07:00Z", "earlier"),
        Err(StoreError::MalformedTimestamp)
    );
    assert_eq!(
        q.count_recent_posts_older_than("later", "2024-01-01T00:07:00Z"),
        Err(StoreError::MalformedTimestamp)
    );
}

#[test]
fn querier_reads_ten_entries_at_most() {
    let mut store = CacheStore::new();
    for minute in 0..12 {
        let time = format!("2024-01-01T00:{:02}:00Z", minute);
        assert_eq!(store.store_feed_post_view(item(&format!("m{}", minute), &time)), Ok(()));
    }
    let q = Querier::new(&store);
    let page = q.read_timeline(None);
    assert_eq!(
        cids(&page),
        vec!["m11", "m10", "m9", "m8", "m7", "m6", "m5", "m4", "m3", "m2"]
    );
    let window = Span::Window { from: at(NEW_YEAR), until: at(NEW_YEAR + 3 * 60) };
    assert_eq!(cids(&q.read_timeline(Some(window))), vec!["m2", "m1", "m0"]);
    assert_eq!(store.read_timeline(String::from("default"), None).len(), 12);
}

#[test]
fn querier_finds_creation_time_and_entry() {
    let mut store = CacheStore::new();
    assert_eq!(store.store_feed_post_view(item("a", "2024-01-01T00:09:00+00:00")), Ok(()));
    assert_eq!(store.store_post_view(post("loose", "did:plc:bob", "2024-01-01T00:01:00Z")), Ok(()));
    let q = Querier::new(&store);
    assert_eq!(q.select_created_at("a"), Ok(String::from("2024-01-01T00:09:00+00:00")));
    assert_eq!(q.select_created_at("b"), Err(StoreError::NotFound));
    // a post that no feed entry shows is not found either
    assert_eq!(q.select_created_at("loose"), Err(StoreError::NotFound));
    assert_eq!(q.get_post(String::from("a")).unwrap().post.body.cid, "a");
    assert!(q.get_post(String::from("loose")).is_none());
}

#[test]
fn feed_row_of_an_entry_points_at_each_post_that_was_sent_along() {
    let plain = rbsky::store::feed_row(&item("a", "2024-01-01T00:09:00Z"));
    assert_eq!(plain.cid, "a");
    assert_eq!(plain.parent, None);
    assert_eq!(plain.root, None);
    assert_eq!(plain.reason, None);
    let reply = FeedItem {
        post: post("c", "did:plc:carol", "2024-01-01T00:09:00Z"),
        reply: Some(ReplyRef {
            parent: ReplyTarget::Found(post("b", "did:plc:bob", "2024-01-01T00:05:00Z")),
            root: ReplyTarget::Found(post("a", "did:plc:alice", "2024-01-01T00:01:00Z")),
        }),
        reason: Some(String::from("{}")),
    };
    let row = rbsky::store::feed_row(&reply);
    assert_eq!(row.cid, "c");
    assert_eq!(row.parent, Some(String::from("b")));
    assert_eq!(row.root, Some(String::from("a")));
    assert_eq!(row.reason, Some(String::from("{}")));
    let half = FeedItem {
        post: post("c", "did:plc:carol", "2024-01-01T00:09:00Z"),
        reply: Some(ReplyRef {
            parent: ReplyTarget::Blocked,
            root: ReplyTarget::Found(post("a", "did:plc:alice", "2024-01-01T00:01:00Z")),
        }),
        reason: None,
    };
    let row = rbsky::store::feed_row(&half);
    assert_eq!(row.parent, None);
    assert_eq!(row.root, Some(String::from("a")));
}
