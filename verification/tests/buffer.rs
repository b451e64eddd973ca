use rbsky::buffer::{clean_feed, contains, duplicate_feed, merge_feed, publish, snapshot};
use rbsky::handler::{BskyRequestHandler, Reply};
use rbsky::model::{compare_records_by_created_at, Author, FeedViewPostFlat, Post, PostBody};
use rbsky::order::{place, sort_timeline_by_created_at};
use rbsky::time::Timestamp;
use std::cmp::Ordering;

fn entry(cid: &str, secs: i64, text: &str) -> FeedViewPostFlat {
    FeedViewPostFlat {
        post: Post {
            author: Author {
                did: String::from("did:plc:alice"),
                handle: String::from("alice.example"),
                display_name: None,
                avatar: None,
            },
            body: PostBody {
                cid: String::from(cid),
                uri: String::new(),
                created_at: String::new(),
                indexed_at: String::new(),
                like_count: None,
                repost_count: None,
                reply_count: None,
                record: String::from(text),
                viewer: None,
                labels: None,
            },
        },
        parent: None,
        root: None,
        created_at: Timestamp { secs, nanos: 0, offset: 0 },
    }
}

fn cids(entries: &Vec<FeedViewPostFlat>) -> Vec<String> {
    entries.iter().map(|e| e.post.body.cid.clone()).collect()
}

#[test]
fn entries_are_the_same_entry_by_content_identifier_alone() {
    assert!(entry("x", 1, "one") == entry("x", 2, "two"));
    assert!(entry("x", 1, "one") != entry("y", 1, "one"));
}

#[test]
fn merge_adds_only_what_the_buffer_does_not_hold() {
    let mut feed = Some(vec![entry("x", 3, "held")]);
    merge_feed(&mut feed, vec![entry("x", 3, "incoming"), entry("y", 2, "incoming")]);
    let held = feed.unwrap();
    assert_eq!(cids(&held), vec!["x", "y"]);
    // what the buffer held stays as it was
    assert_eq!(held[0].post.body.record, "held");
}

#[test]
fn merge_keeps_what_the_buffer_held_in_its_place() {
    let mut feed = Some(vec![entry("c", 1, ""), entry("a", 3, ""), entry("b", 2, "")]);
    merge_feed(&mut feed, vec![entry("z", 9, ""), entry("a", 3, ""), entry("d", 0, "")]);
    assert_eq!(cids(&feed.unwrap()), vec!["c", "a", "b", "z", "d"]);
}

#[test]
fn merge_into_nothing_publishes_the_entries() {
    let mut feed = None;
    merge_feed(&mut feed, vec![entry("a", 3, ""), entry("b", 2, "")]);
    assert_eq!(cids(&feed.unwrap()), vec!["a", "b"]);
}

#[test]
fn merge_takes_an_entry_that_comes_twice_once() {
    let mut feed = None;
    merge_feed(&mut feed, vec![entry("a", 3, "first"), entry("a", 3, "second"), entry("b", 2, "")]);
    let held = feed.unwrap();
    assert_eq!(cids(&held), vec!["a", "b"]);
    assert_eq!(held[0].post.body.record, "first");
}

#[test]
fn merge_of_nothing_changes_nothing() {
    let mut feed = Some(vec![entry("a", 3, "")]);
    merge_feed(&mut feed, Vec::new());
    assert_eq!(cids(&feed.unwrap()), vec!["a"]);
    let mut feed = None;
    merge_feed(&mut feed, Vec::new());
    assert_eq!(feed, Some(Vec::new()));
}

#[test]
fn merge_twice_is_merge_once() {
    let mut feed = Some(vec![entry("a", 3, "")]);
    merge_feed(&mut feed, vec![entry("b", 2, ""), entry("c", 1, "")]);
    merge_feed(&mut feed, vec![entry("b", 2, ""), entry("c", 1, "")]);
    assert_eq!(cids(&feed.unwrap()), vec!["a", "b", "c"]);
}

#[test]
fn publish_replaces_the_snapshot() {
    let mut feed = Some(vec![entry("a", 3, ""), entry("b", 2, "")]);
    publish(&mut feed, vec![entry("c", 1, "")]);
    assert_eq!(cids(&feed.unwrap()), vec!["c"]);
}

#[test]
fn clean_publishes_an_empty_snapshot() {
    let mut feed = Some(vec![entry("a", 3, "")]);
    clean_feed(&mut feed);
    assert_eq!(feed, Some(Vec::new()));
    let mut feed = None;
    clean_feed(&mut feed);
    assert_eq!(feed, Some(Vec::new()));
}

#[test]
fn snapshot_copies_what_is_held() {
    let feed = Some(vec![entry("a", 3, "text"), entry("b", 2, "")]);
    let copy = snapshot(&feed).unwrap();
    assert_eq!(cids(&copy), vec!["a", "b"]);
    assert_eq!(copy[0].post.body.record, "text");
    assert_eq!(copy[0].created_at, Timestamp { secs: 3, nanos: 0, offset: 0 });
    assert!(snapshot(&None).is_none());
    assert_eq!(cids(&duplicate_feed(&copy)), vec!["a", "b"]);
}

#[test]
fn contains_looks_at_the_content_identifier() {
    let feed = vec![entry("a", 3, ""), entry("b", 2, "")];
    assert!(contains(&feed, &entry("b", 7, "other")));
    assert!(!contains(&feed, &entry("c", 3, "")));
    assert!(!contains(&Vec::new(), &entry("a", 3, "")));
}

#[test]
fn read_request_is_served_from_the_snapshot() {
    let mut handler = BskyRequestHandler { feed: Some(vec![entry("a", 3, ""), entry("b", 2, "")]) };
    match handler.handle_request("read") {
        Reply::Feed(entries) => assert_eq!(cids(&entries), vec!["a", "b"]),
        other => panic!("{:?}", other),
    }
    match handler.handle_read_request() {
        Reply::Feed(entries) => assert_eq!(cids(&entries), vec!["a", "b"]),
        other => panic!("{:?}", other),
    }
    // serving does not use the snapshot up
    assert_eq!(handler.feed.as_ref().unwrap().len(), 2);
}

#[test]
fn read_request_before_anything_is_published_gets_nil() {
    let mut handler = BskyRequestHandler { feed: None };
    assert!(matches!(handler.handle_request("read"), Reply::Nil));
    assert!(matches!(handler.handle_read_request(), Reply::Nil));
}

#[test]
fn read_request_of_an_empty_snapshot_gets_no_entries() {
    let mut handler = BskyRequestHandler { feed: Some(Vec::new()) };
    match handler.handle_request("read") {
        Reply::Feed(entries) => assert!(entries.is_empty()),
        other => panic!("{:?}", other),
    }
}

#[test]
fn other_requests_are_not_served() {
    let mut handler = BskyRequestHandler { feed: Some(vec![entry("a", 3, "")]) };
    for name in ["more", "refresh", "post", "update", "repost", "like", "unlike", "", "Read", "dance"] {
        assert!(matches!(handler.handle_request(name), Reply::Unimplemented), "{}", name);
    }
}

#[test]
fn compare_puts_the_newer_entry_first() {
    assert_eq!(compare_records_by_created_at(&entry("a", 5, ""), &entry("b", 3, "")), Ordering::Less);
    assert_eq!(compare_records_by_created_at(&entry("a", 3, ""), &entry("b", 5, "")), Ordering::Greater);
    assert_eq!(compare_records_by_created_at(&entry("a", 3, ""), &entry("b", 3, "")), Ordering::Equal);
    let early = FeedViewPostFlat { created_at: Timestamp { secs: 3, nanos: 1, offset: 0 }, ..entry("a", 3, "") };
    let late = FeedViewPostFlat { created_at: Timestamp { secs: 3, nanos: 2, offset: 3600 }, ..entry("b", 3, "") };
    assert_eq!(compare_records_by_created_at(&late, &early), Ordering::Less);
}

#[test]
fn sort_puts_the_timeline_newest_first_and_keeps_equals_in_order() {
    let mut timeline = vec![
        entry("x", 5, ""),
        entry("new", 9, ""),
        entry("y", 5, ""),
        entry("old", 1, ""),
        entry("z", 5, ""),
    ];
    sort_timeline_by_created_at(&mut timeline);
    assert_eq!(cids(&timeline), vec!["new", "x", "y", "z", "old"]);
    let mut nothing: Vec<FeedViewPostFlat> = Vec::new();
    sort_timeline_by_created_at(&mut nothing);
    assert!(nothing.is_empty());
}

#[test]
fn place_puts_an_entry_behind_its_equals() {
    let mut timeline = vec![entry("a", 9, ""), entry("b", 5, ""), entry("c", 1, "")];
    place(&mut timeline, entry("d", 5, ""));
    assert_eq!(cids(&timeline), vec!["a", "b", "d", "c"]);
    place(&mut timeline, entry("e", 10, ""));
    place(&mut timeline, entry("f", 0, ""));
    assert_eq!(cids(&timeline), vec!["e", "a", "b", "d", "c", "f"]);
}
