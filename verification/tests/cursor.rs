use rbsky::cursor::{latest_cursor, TimelineCursor, TimelineResponse};
use std::cmp::Ordering;

fn cursor(token: &str, timeline: &str) -> TimelineCursor {
    TimelineCursor::new(String::from(token), String::from(timeline))
}

fn home() -> String {
    String::from("default")
}

#[test]
fn latest_of_three_ascending_tokens_is_the_third() {
    let cursors = vec![
        cursor("2024-01-01T00:00:00Z", "default"),
        cursor("2024-01-01T00:05:00Z", "default"),
        cursor("2024-01-01T00:10:00Z", "default"),
    ];
    assert_eq!(latest_cursor(&cursors, &home()), Some(String::from("2024-01-01T00:10:00Z")));
}

#[test]
fn latest_does_not_depend_on_the_order_recorded() {
    let cursors = vec![
        cursor("2024-01-01T00:10:00Z", "default"),
        cursor("2024-01-01T00:00:00Z", "default"),
        cursor("2024-01-01T00:05:00Z", "default"),
    ];
    assert_eq!(latest_cursor(&cursors, &home()), Some(String::from("2024-01-01T00:10:00Z")));
}

#[test]
fn token_that_does_not_read_is_passed_over() {
    let cursors = vec![
        cursor("2024-01-01T00:00:00Z", "default"),
        cursor("2024-01-01T00:10:00Z", "default"),
        cursor("not a time", "default"),
        cursor("2024-01-01T00:05:00Z", "default"),
    ];
    assert_eq!(latest_cursor(&cursors, &home()), Some(String::from("2024-01-01T00:10:00Z")));
}

#[test]
fn token_that_does_not_read_at_the_end_is_passed_over() {
    let cursors = vec![cursor("2024-01-01T00:00:00Z", "default"), cursor("garbage", "default")];
    assert_eq!(latest_cursor(&cursors, &home()), Some(String::from("2024-01-01T00:00:00Z")));
}

#[test]
fn no_cursor_gives_no_latest() {
    let cursors: Vec<TimelineCursor> = Vec::new();
    assert_eq!(latest_cursor(&cursors, &home()), None);
}

#[test]
fn only_tokens_that_do_not_read_give_no_latest() {
    let cursors = vec![cursor("", "default"), cursor("yesterday", "default")];
    assert_eq!(latest_cursor(&cursors, &home()), None);
}

#[test]
fn cursors_of_another_timeline_do_not_count() {
    let cursors = vec![
        cursor("2024-01-01T00:00:00Z", "default"),
        cursor("2025-01-01T00:00:00Z", "other"),
    ];
    assert_eq!(latest_cursor(&cursors, &home()), Some(String::from("2024-01-01T00:00:00Z")));
    assert_eq!(
        latest_cursor(&cursors, &String::from("other")),
        Some(String::from("2025-01-01T00:00:00Z"))
    );
    assert_eq!(latest_cursor(&cursors, &String::from("none")), None);
}

#[test]
fn of_two_tokens_of_one_instant_the_later_record_is_latest() {
    let cursors = vec![
        cursor("2024-01-01T01:00:00+01:00", "default"),
        cursor("2024-01-01T00:00:00Z", "default"),
    ];
    assert_eq!(latest_cursor(&cursors, &home()), Some(String::from("2024-01-01T00:00:00Z")));
    let cursors = vec![
        cursor("2024-01-01T00:00:00Z", "default"),
        cursor("2024-01-01T01:00:00+01:00", "default"),
    ];
    assert_eq!(latest_cursor(&cursors, &home()), Some(String::from("2024-01-01T01:00:00+01:00")));
}

#[test]
fn tokens_are_compared_as_instants_not_as_text() {
    // As text the first token is the greater one; as an instant it is the earlier.
    let cursors = vec![
        cursor("2024-01-01T09:00:00+09:00", "default"),
        cursor("2024-01-01T01:00:00Z", "default"),
    ];
    assert_eq!(latest_cursor(&cursors, &home()), Some(String::from("2024-01-01T01:00:00Z")));
}

#[test]
fn lenient_reading_takes_a_space_between_date_and_time() {
    let cursors = vec![
        cursor("2024-01-01T00:00:00Z", "default"),
        cursor("2024-01-02 00:00:00Z", "default"),
    ];
    assert_eq!(latest_cursor(&cursors, &home()), Some(String::from("2024-01-02 00:00:00Z")));
}

#[test]
fn cursors_are_equal_when_timeline_and_instant_are() {
    assert!(cursor("2024-01-01T00:00:00Z", "default") == cursor("2024-01-01T01:00:00+01:00", "default"));
    assert!(cursor("2024-01-01T00:00:00Z", "default") != cursor("2024-01-01T00:00:00Z", "other"));
    assert!(cursor("2024-01-01T00:00:00Z", "default") != cursor("2024-01-01T00:00:01Z", "default"));
}

#[test]
fn cursors_that_do_not_read_are_equal_when_they_fail_alike() {
    assert!(cursor("abc", "default") == cursor("xyz", "default"));
    assert!(cursor("abc", "default") != cursor("", "default"));
    assert!(cursor("abc", "default") != cursor("2024-01-01T00:00:00Z", "default"));
}

#[test]
fn partial_order_follows_the_instants() {
    let early = cursor("2024-01-01T00:00:00Z", "default");
    let late = cursor("2024-01-01T00:00:00.5Z", "other");
    assert_eq!(early.partial_cmp(&late), Some(Ordering::Less));
    assert_eq!(late.partial_cmp(&early), Some(Ordering::Greater));
    assert_eq!(early.partial_cmp(&early), Some(Ordering::Equal));
    assert!(early < late);
}

#[test]
fn partial_order_has_nothing_to_say_of_a_token_that_does_not_read() {
    let good = cursor("2024-01-01T00:00:00Z", "default");
    let bad = cursor("soon", "default");
    assert_eq!(good.partial_cmp(&bad), None);
    assert_eq!(bad.partial_cmp(&good), None);
    assert_eq!(bad.partial_cmp(&bad), None);
}

#[test]
fn total_order_calls_a_token_that_does_not_read_equal() {
    let good = cursor("2024-01-01T00:00:00Z", "default");
    let later = cursor("2024-06-01T00:00:00Z", "default");
    let bad = cursor("soon", "default");
    assert_eq!(good.cmp(&later), Ordering::Less);
    assert_eq!(later.cmp(&good), Ordering::Greater);
    assert_eq!(good.cmp(&bad), Ordering::Equal);
    assert_eq!(bad.cmp(&good), Ordering::Equal);
}

#[test]
fn cursor_hands_out_its_parts() {
    let c = cursor("2024-01-01T00:00:00Z", "default");
    assert_eq!(c.cursor(), "2024-01-01T00:00:00Z");
    assert_eq!(c.timeline(), "default");
    let d = c.duplicate();
    assert_eq!(d.cursor, c.cursor);
    assert_eq!(d.timeline, c.timeline);
}

#[test]
fn timeline_response_is_empty() {
    let r = TimelineResponse {};
    assert_eq!(format!("{:?}", r), "TimelineResponse");
}
