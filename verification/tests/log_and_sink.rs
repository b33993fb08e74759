//! Tests of the comment log, the message sink, and the chrome labels.

use many_comments::app_state::ManyCommentsApp;
use many_comments::comment_log::CommentLog;
use many_comments::label::{comments_label, ticks_label, u64_to_decimal, version_label};
use many_comments::message::{Color, Message};
use many_comments::sink::deliver;

#[test]
fn append_assigns_next_index() {
    let mut log = CommentLog::new();
    assert_eq!(log.len(), 0);
    log.append(String::from("a"));
    log.append(String::from("b"));
    assert_eq!(log.len(), 2);
    assert_eq!(log.get(0).as_str(), "a");
    assert_eq!(log.get(1).as_str(), "b");
}

#[test]
fn observed_entries_are_stable_under_append() {
    let mut log = CommentLog::new();
    log.append(String::from("first"));
    log.append(String::from("second"));
    let before: Vec<String> = log.read_range(0, 2);
    for _ in 0..100 {
        log.append(String::from("later"));
    }
    let after = log.read_range(0, 2);
    assert_eq!(before, after);
    assert_eq!(log.get(0).as_str(), "first");
    assert_eq!(log.get(1).as_str(), "second");
}

#[test]
fn read_range_returns_the_visible_slice() {
    let mut log = CommentLog::new();
    for i in 0..100u32 {
        log.append(i.to_string());
    }
    let rows = log.read_range(10, 15);
    assert_eq!(rows, vec!["10", "11", "12", "13", "14"]);
    assert!(log.read_range(7, 7).is_empty());
}

#[test]
fn deliver_appends_copy_and_returns_envelope() {
    let mut log = CommentLog::new();
    let msg = Message { text: String::from("hello"), color: Color(255, 0, 0) };
    let envelope = deliver(&mut log, msg);
    // The log took a copy of the text...
    assert_eq!(log.len(), 1);
    assert_eq!(log.get(0).as_str(), "hello");
    // ...and the very message came back for deallocation, intact.
    assert_eq!(envelope.text, "hello");
    assert_eq!(envelope.color, Color(255, 0, 0));
}

#[test]
fn hello_message_reaches_label_and_first_row() {
    let mut app = ManyCommentsApp::new(None, 7);
    let envelope = deliver(
        &mut app.comments,
        Message { text: String::from("hello"), color: Color(1, 2, 3) },
    );
    drop(envelope);
    let plan = app.frame_tick(0, 680);
    assert_eq!(plan.comments_text, "1 comments");
    let rows = app.comments.read_range(plan.first_row, plan.last_row);
    assert_eq!(rows, vec!["hello"]);
}

#[test]
fn fresh_launch_is_empty_with_zero_counter() {
    let mut app = ManyCommentsApp::new(None, 7);
    assert!(!app.save_storage);
    assert_eq!(app.comments_len(), 0);
    let plan = app.frame_tick(0, 680);
    assert_eq!(plan.comments_text, "0 comments");
    assert_eq!(plan.first_row, plan.last_row);
}

#[test]
fn decimal_rendering() {
    assert_eq!(u64_to_decimal(0), "0");
    assert_eq!(u64_to_decimal(7), "7");
    assert_eq!(u64_to_decimal(10), "10");
    assert_eq!(u64_to_decimal(1234567890), "1234567890");
    assert_eq!(u64_to_decimal(u64::MAX), "18446744073709551615");
}

#[test]
fn chrome_label_texts() {
    assert_eq!(comments_label(0), "0 comments");
    assert_eq!(comments_label(131072), "131072 comments");
    assert_eq!(version_label(8), "DLL ver: 8");
    assert_eq!(ticks_label(20), "ticks: 20");
}
