use activity_metrics::counter::{ClickCounters, KeypressCounter};
use activity_metrics::payload::{check_json_number, keypress_body, mouse_body};
use activity_metrics::tracker::CursorTracker;

const PIXEL_M_CONVERSION: f64 = 0.0002645833;

#[test]
fn counter_conservation_interleaved() {
    // Increments interleaved with read-and-resets: the snapshots plus the
    // final unread value account for every increment exactly once.
    let mut c = KeypressCounter::new();
    let mut snapshots: u64 = 0;
    for _ in 0..3 {
        c.increment();
    }
    snapshots += c.read_and_reset();
    for _ in 0..4 {
        c.increment();
    }
    snapshots += c.read_and_reset();
    for _ in 0..2 {
        c.increment();
    }
    let unread = c.read();
    assert_eq!(snapshots + unread, 9);
}

#[test]
fn read_and_reset_twice_returns_zero() {
    let mut c = KeypressCounter::new();
    for _ in 0..7 {
        c.increment();
    }
    assert_eq!(c.read_and_reset(), 7);
    assert_eq!(c.read_and_reset(), 0);
}

#[test]
fn click_counters_read_and_reset_together() {
    let mut c = ClickCounters::new();
    c.record_button(1);
    c.record_button(1);
    c.record_button(3);
    assert_eq!(c.read(), (2, 1));
    assert_eq!(c.read_and_reset(), (2, 1));
    assert_eq!(c.read(), (0, 0));
    assert_eq!(c.read_and_reset(), (0, 0));
}

#[test]
fn unrecognized_button_is_ignored() {
    // A middle-button code (2) leaves both click counters unchanged.
    let mut c = ClickCounters::new();
    c.record_button(1);
    c.record_button(2);
    c.record_button(3);
    c.record_button(42);
    assert_eq!(c.read(), (1, 1));
}

#[test]
fn distance_three_four_five() {
    // Position sequence [(0, 0), (3, 4)]: accumulated distance 5.0, and
    // 5.0 pixels convert to about 0.0013229165 meters.
    let mut t = CursorTracker::new();
    let sq = t.step(0, 0);
    assert_eq!(sq, 0);
    let sq = t.step(3, 4);
    assert_eq!(sq, 25);
    let distance = (sq as f64).sqrt();
    assert_eq!(distance, 5.0);
    let meters = distance * PIXEL_M_CONVERSION;
    assert!((meters - 0.0013229165).abs() < 1e-12);
}

#[test]
fn distance_cold_start_measures_from_origin() {
    // The first move is measured from the assumed origin.
    let mut t = CursorTracker::new();
    assert_eq!(t.step(6, 8), 100);
    // A repeated position adds nothing.
    assert_eq!(t.step(6, 8), 0);
}

#[test]
fn distance_handles_negative_coordinates() {
    let mut t = CursorTracker::new();
    assert_eq!(t.step(-3, -4), 25);
    assert_eq!(t.step(0, 0), 25);
    assert_eq!(t.step(i32::MAX, i32::MIN), 9223372032559808513);
}

#[test]
fn reporter_reset_on_success() {
    // With a transport that succeeds, one tick with 5 prior keypresses
    // transmits keypress: 5 and leaves the counter at zero.
    let mut c = KeypressCounter::new();
    for _ in 0..5 {
        c.increment();
    }
    let sent = c.read();
    let body = keypress_body(b"pw", sent);
    let text = String::from_utf8(body).unwrap();
    assert!(text.contains("\"keypress\":5"));
    c.commit_report(true, sent);
    assert_eq!(c.read(), 0);
}

#[test]
fn increment_racing_a_successful_report_survives() {
    // An increment that lands between the tick's snapshot and the success
    // commit is not erased: the commit removes only the reported amount.
    let mut c = KeypressCounter::new();
    for _ in 0..5 {
        c.increment();
    }
    let sent = c.read();
    c.increment(); // races the transmission
    c.commit_report(true, sent);
    assert_eq!(c.read(), 1);
}

#[test]
fn click_racing_a_successful_report_survives() {
    let mut c = ClickCounters::new();
    c.record_button(1);
    c.record_button(3);
    let (sent_left, sent_right) = c.read();
    c.record_button(1); // races the transmission
    c.commit_report(true, sent_left, sent_right);
    assert_eq!(c.read(), (1, 0));
}

#[test]
fn reporter_hold_on_failure() {
    // With a transport that fails, the counter is not reset; the next
    // window carries the old events along with the new ones.
    let mut c = KeypressCounter::new();
    for _ in 0..5 {
        c.increment();
    }
    let sent = c.read();
    let body = keypress_body(b"pw", sent);
    let text = String::from_utf8(body).unwrap();
    assert!(text.contains("\"keypress\":5"));
    c.commit_report(false, sent);
    assert_eq!(c.read(), 5);
    for _ in 0..2 {
        c.increment();
    }
    let sent = c.read();
    let body = keypress_body(b"pw", sent);
    let text = String::from_utf8(body).unwrap();
    assert!(text.contains("\"keypress\":7"));
    c.commit_report(true, sent);
    assert_eq!(c.read(), 0);
}

#[test]
fn click_counters_hold_on_failure() {
    let mut c = ClickCounters::new();
    c.record_button(1);
    c.record_button(3);
    c.record_button(3);
    let (sent_left, sent_right) = c.read();
    c.commit_report(false, sent_left, sent_right);
    assert_eq!(c.read(), (1, 2));
    c.commit_report(true, sent_left, sent_right);
    assert_eq!(c.read(), (0, 0));
}

#[test]
fn json_number_check_accepts_number_tokens() {
    assert!(check_json_number(b"0"));
    assert!(check_json_number(b"5"));
    assert!(check_json_number(b"-1"));
    assert!(check_json_number(b"10"));
    assert!(check_json_number(b"0.0013229165"));
    assert!(check_json_number(b"-123.456"));
    assert!(check_json_number(b"3e8"));
    assert!(check_json_number(b"2.5E-3"));
    assert!(check_json_number(b"0e+0"));
}

#[test]
fn json_number_check_rejects_other_tokens() {
    assert!(!check_json_number(b""));
    assert!(!check_json_number(b"-"));
    assert!(!check_json_number(b"01"));
    assert!(!check_json_number(b"1."));
    assert!(!check_json_number(b".5"));
    assert!(!check_json_number(b"+1"));
    assert!(!check_json_number(b"1e"));
    assert!(!check_json_number(b"1e+"));
    assert!(!check_json_number(b"NaN"));
    assert!(!check_json_number(b"inf"));
    assert!(!check_json_number(b"1,2"));
    assert!(!check_json_number(b"5 "));
}

#[test]
fn keypress_body_exact() {
    let body = keypress_body(b"hunter2", 5);
    assert_eq!(
        String::from_utf8(body).unwrap(),
        "{\"password\":\"hunter2\",\"keypress\":5}"
    );
}

#[test]
fn keypress_body_empty_credential_and_zero() {
    let body = keypress_body(b"", 0);
    assert_eq!(
        String::from_utf8(body).unwrap(),
        "{\"password\":\"\",\"keypress\":0}"
    );
}

#[test]
fn keypress_body_largest_count() {
    let body = keypress_body(b"p", u64::MAX);
    assert_eq!(
        String::from_utf8(body).unwrap(),
        "{\"password\":\"p\",\"keypress\":18446744073709551615}"
    );
}

#[test]
fn credential_is_json_escaped() {
    let body = keypress_body(b"a\"b\\c\nd", 1);
    assert_eq!(
        String::from_utf8(body).unwrap(),
        "{\"password\":\"a\\\"b\\\\c\\u000ad\",\"keypress\":1}"
    );
}

#[test]
fn mouse_body_exact() {
    let body = mouse_body(b"pw", 2, 3, b"0.0013229165");
    assert_eq!(
        String::from_utf8(body).unwrap(),
        "{\"password\":\"pw\",\"rightClick\":2,\"leftClick\":3,\"mouseTravel\":0.0013229165}"
    );
}

#[test]
fn bodies_parse_as_json() {
    // The framed bytes are well-formed JSON with the expected fields, even
    // with a credential that needs escaping.
    let body = keypress_body(b"a\"b\\c\x01", 12345);
    let v: serde_json::Value = serde_json::from_slice(&body).unwrap();
    assert_eq!(v["password"].as_str(), Some("a\"b\\c\x01"));
    assert_eq!(v["keypress"].as_u64(), Some(12345));

    let body = mouse_body("p\u{00e4}ss\twort".as_bytes(), 7, 11, b"2.5");
    let v: serde_json::Value = serde_json::from_slice(&body).unwrap();
    assert_eq!(v["password"].as_str(), Some("p\u{00e4}ss\twort"));
    assert_eq!(v["rightClick"].as_u64(), Some(7));
    assert_eq!(v["leftClick"].as_u64(), Some(11));
    assert_eq!(v["mouseTravel"].as_f64(), Some(2.5));
}
