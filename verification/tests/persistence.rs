//! Tests of the persistence codec and the save policy.

use many_comments::app_state::ManyCommentsApp;
use many_comments::comment_log::CommentLog;
use many_comments::message::{Color, Message};
use many_comments::persist::{decode_state, encode_state};
use many_comments::sink::deliver;

fn log_of(entries: &[&str]) -> CommentLog {
    let mut log = CommentLog::new();
    for e in entries {
        log.append(String::from(*e));
    }
    log
}

fn entries_of(log: &CommentLog) -> Vec<String> {
    log.read_range(0, log.len())
}

#[test]
fn encode_exact_bytes_for_one_ascii_comment() {
    let blob = encode_state(true, &log_of(&["A"]));
    let mut expected = vec![1u8];
    expected.extend_from_slice(&[1, 0, 0, 0, 0, 0, 0, 0]); // one comment
    expected.extend_from_slice(&[1, 0, 0, 0, 0, 0, 0, 0]); // one byte of text
    expected.push(0x41);
    assert_eq!(blob, expected);
}

#[test]
fn round_trip_restores_log_and_toggle() {
    let log = log_of(&["one", "two", "three"]);
    let blob = encode_state(true, &log);
    let (save_enabled, restored) = decode_state(&blob).expect("blob must decode");
    assert!(save_enabled);
    assert_eq!(entries_of(&restored), vec!["one", "two", "three"]);
}

#[test]
fn round_trip_keeps_unicode_and_empty_comments() {
    let log = log_of(&["", "héllo wörld", "emoji: \u{1F600}", "0"]);
    let blob = encode_state(false, &log);
    let (save_enabled, restored) = decode_state(&blob).expect("blob must decode");
    assert!(!save_enabled);
    assert_eq!(entries_of(&restored), vec!["", "héllo wörld", "emoji: \u{1F600}", "0"]);
}

#[test]
fn round_trip_of_a_large_log() {
    let mut log = CommentLog::new();
    for i in 0..1000u32 {
        log.append(i.to_string());
    }
    let blob = encode_state(true, &log);
    let (_, restored) = decode_state(&blob).expect("blob must decode");
    assert_eq!(restored.len(), 1000);
    assert_eq!(restored.get(999).as_str(), "999");
}

#[test]
fn malformed_blobs_decode_to_none() {
    // Too short for the header.
    assert!(decode_state(&vec![]).is_none());
    assert!(decode_state(&vec![1, 0, 0, 0]).is_none());
    // Bad flag byte.
    let mut blob = encode_state(true, &log_of(&["x"]));
    blob[0] = 2;
    assert!(decode_state(&blob).is_none());
    // Truncated payload.
    let blob = encode_state(true, &log_of(&["hello"]));
    assert!(decode_state(&blob[..blob.len() - 1].to_vec()).is_none());
    // Trailing garbage.
    let mut blob = encode_state(true, &log_of(&["hello"]));
    blob.push(0);
    assert!(decode_state(&blob).is_none());
    // Text that is not UTF-8.
    let mut blob = vec![0u8];
    blob.extend_from_slice(&[1, 0, 0, 0, 0, 0, 0, 0]);
    blob.extend_from_slice(&[1, 0, 0, 0, 0, 0, 0, 0]);
    blob.push(0xFF);
    assert!(decode_state(&blob).is_none());
}

#[test]
fn restart_with_saves_enabled_restores_messages() {
    let mut app = ManyCommentsApp::new(None, 1);
    app.toggle_saves();
    assert!(app.save_storage);
    for text in ["a", "b", "c"] {
        let env = deliver(&mut app.comments, Message {
            text: String::from(text),
            color: Color(0, 0, 0),
        });
        drop(env);
    }
    let blob = app.save().expect("saving is enabled, a blob is owed");
    // Process restart: state is rebuilt from the stored blob.
    let restarted = ManyCommentsApp::new(Some(&blob), 1);
    assert!(restarted.save_storage); // menu now offers "Disable saves"
    assert_eq!(entries_of(&restarted.comments), vec!["a", "b", "c"]);
}

#[test]
fn restart_with_saves_disabled_restores_nothing() {
    let mut app = ManyCommentsApp::new(None, 1);
    assert!(!app.save_storage);
    for text in ["a", "b", "c"] {
        let env = deliver(&mut app.comments, Message {
            text: String::from(text),
            color: Color(0, 0, 0),
        });
        drop(env);
    }
    // With the toggle off, no write to the backend occurs at all.
    assert!(app.save().is_none());
    // Process restart with no stored blob: defaults.
    let restarted = ManyCommentsApp::new(None, 1);
    assert!(!restarted.save_storage); // menu now offers "Enable saves"
    assert_eq!(restarted.comments_len(), 0);
}

#[test]
fn decode_failure_falls_back_to_defaults() {
    let garbage = vec![9u8, 9, 9, 9, 9, 9, 9, 9, 9, 9];
    let app = ManyCommentsApp::new(Some(&garbage), 3);
    assert!(!app.save_storage);
    assert_eq!(app.comments_len(), 0);
}

#[test]
fn toggling_saves_twice_is_a_net_no_op() {
    let mut app = ManyCommentsApp::new(None, 1);
    app.toggle_saves();
    let log = log_of(&["kept"]);
    app.comments = log;
    let blob_before = app.save().expect("enabled");
    app.toggle_saves();
    app.toggle_saves();
    assert!(app.save_storage);
    let blob_after = app.save().expect("still enabled");
    assert_eq!(blob_before, blob_after);
}
