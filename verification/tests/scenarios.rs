use rbsky::commands::GetTimelineArgs;
use rbsky::handler::{EventHandler, Reply, BskyRequestHandler};
use rbsky::model::{Author, FeedItem, FeedViewPostFlat, Post, PostBody, TimelinePage};
use rbsky::store::CacheStore;

fn item(cid: &str, created_at: &str) -> FeedItem {
    FeedItem {
        post: Post {
            author: Author {
                did: String::from("did:plc:alice"),
                handle: String::from("alice.example"),
                display_name: Some(String::from("Alice")),
                avatar: None,
            },
            body: PostBody {
                cid: String::from(cid),
                uri: format!("at://did:plc:alice/app.bsky.feed.post/{}", cid),
                created_at: String::from(created_at),
                indexed_at: String::from(created_at),
                like_count: Some(0),
                repost_count: Some(0),
                reply_count: Some(0),
                record: String::from("{}"),
                viewer: None,
                labels: None,
            },
        },
        reply: None,
        reason: None,
    }
}

fn cids(entries: &Vec<FeedViewPostFlat>) -> Vec<String> {
    entries.iter().map(|e| e.post.body.cid.clone()).collect()
}

fn first_page() -> TimelinePage {
    TimelinePage {
        feed: vec![
            item("a", "2024-01-01T00:09:00Z"),
            item("b", "2024-01-01T00:07:00Z"),
            item("c", "2024-01-01T00:05:00Z"),
        ],
        cursor: Some(String::from("2024-01-01T00:10:00Z")),
    }
}

fn second_page() -> TimelinePage {
    TimelinePage {
        feed: vec![item("d", "2024-01-01T00:00:00Z")],
        cursor: Some(String::from("2024-01-01T00:00:00Z")),
    }
}

#[test]
fn two_pages_are_stored_and_read_back_in_order() {
    let mut store = CacheStore::new();
    assert_eq!(store.store_timeline(first_page(), String::from("default")), 0);
    assert_eq!(cids(&store.read_timeline(String::from("default"), None)), vec!["a", "b", "c"]);
    assert_eq!(
        store.get_latest_cursor(String::from("default")),
        Some(String::from("2024-01-01T00:10:00Z"))
    );
    assert_eq!(store.store_timeline(second_page(), String::from("default")), 0);
    assert_eq!(
        store.get_latest_cursor(String::from("default")),
        Some(String::from("2024-01-01T00:10:00Z"))
    );
    assert_eq!(cids(&store.read_timeline(String::from("default"), None)), vec!["a", "b", "c", "d"]);
    assert_eq!(store.cursors().len(), 2);
}

#[test]
fn page_stored_twice_leaves_the_timeline_as_it_was() {
    let mut store = CacheStore::new();
    assert_eq!(store.store_timeline(first_page(), String::from("default")), 0);
    assert_eq!(store.store_timeline(first_page(), String::from("default")), 0);
    assert_eq!(store.feed().len(), 3);
    assert_eq!(store.posts().len(), 3);
    assert_eq!(store.authors().len(), 1);
    assert_eq!(cids(&store.read_timeline(String::from("default"), None)), vec!["a", "b", "c"]);
    // every page leaves its cursor behind
    assert_eq!(store.cursors().len(), 2);
}

#[test]
fn backfill_with_one_older_post_and_a_remote_that_has_no_more_serves_that_post() {
    let mut store = CacheStore::new();
    assert_eq!(store.store_timeline(first_page(), String::from("default")), 0);
    assert_eq!(store.store_timeline(second_page(), String::from("default")), 0);
    let mut handler = EventHandler::new(store);
    let mut reader = BskyRequestHandler { feed: None };
    let exhausted = |_args: GetTimelineArgs| -> Option<TimelinePage> {
        Some(TimelinePage { feed: Vec::new(), cursor: None })
    };
    let report = handler.fetch_more(String::from("c"), 2, &exhausted).unwrap();
    assert_eq!(report.requests, 11);
    assert_eq!(cids(&report.batch), vec!["d"]);
    EventHandler::merge_feed(&mut reader.feed, report.batch);
    match reader.handle_read_request() {
        Reply::Feed(entries) => assert_eq!(cids(&entries), vec!["d"]),
        other => panic!("{:?}", other),
    }
}

#[test]
fn reader_sees_the_timeline_grow_at_its_end() {
    let mut handler = EventHandler::new(CacheStore::new());
    let mut reader = BskyRequestHandler { feed: None };
    let newest = |_args: GetTimelineArgs| -> Option<TimelinePage> { Some(first_page()) };
    handler.update_timeline(None, &newest);
    handler.update_feed(&mut reader.feed);
    assert_eq!(cids(reader.feed.as_ref().unwrap()), vec!["a", "b", "c"]);
    let older = |_args: GetTimelineArgs| -> Option<TimelinePage> { Some(second_page()) };
    let report = handler.fetch_more(String::from("c"), 0, &older).unwrap();
    assert_eq!(report.requests, 1);
    EventHandler::merge_feed(&mut reader.feed, report.batch);
    assert_eq!(cids(reader.feed.as_ref().unwrap()), vec!["a", "b", "c", "d"]);
    handler.clean_feed(&mut reader.feed);
    assert!(reader.feed.as_ref().unwrap().is_empty());
    handler.update_feed(&mut reader.feed);
    assert_eq!(cids(reader.feed.as_ref().unwrap()), vec!["a", "b", "c", "d"]);
}
