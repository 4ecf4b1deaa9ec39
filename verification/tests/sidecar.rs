use line_gtk::sidecar::{classify_line, event_kind, route_line, status_of, EventKind, LineKind, RequestBook, Route};
use line_gtk::sidecar::{resource_marker_path, resource_root_candidates};
use line_gtk::sidecar::{incoming_call_kind, session_failed_error, unknown_event_text};

#[test]
fn reports_status() {
    let s = status_of(true, Some((true, 42)), 3);
    assert_eq!(s.runtime, "compiled");
    assert!(s.running);
    assert_eq!(s.pid, Some(42));
    assert_eq!(s.pending_requests, 3);
    let s = status_of(false, None, 0);
    assert_eq!(s.runtime, "deno");
    assert!(!s.running);
    assert_eq!(s.pid, None);
}

#[test]
fn hands_out_increasing_ids() {
    let mut book = RequestBook::new();
    assert_eq!(book.next_request_id(), 1);
    assert_eq!(book.next_request_id(), 2);
    assert_eq!(book.waiting_count(), 0);
}

#[test]
fn answered_requests_do_not_time_out() {
    let mut book = RequestBook::new();
    let a = book.next_request_id();
    let b = book.next_request_id();
    book.track(a);
    book.arm_timeout(a, 1_000);
    book.track(b);
    book.arm_timeout(b, 2_000);
    assert_eq!(book.waiting_count(), 2);
    assert!(book.settle(a));
    assert!(!book.settle(a));
    assert_eq!(book.expire(20_000), Vec::<u64>::new());
    assert_eq!(book.expire(31_000), Vec::<u64>::new());
    assert_eq!(book.expire(32_000), vec![b]);
    assert_eq!(book.waiting_count(), 0);
    assert_eq!(book.expire(100_000), Vec::<u64>::new());
}

#[test]
fn forgetting_everything_silences_timeouts() {
    let mut book = RequestBook::new();
    let a = book.next_request_id();
    book.track(a);
    book.arm_timeout(a, 0);
    book.forget_all();
    assert_eq!(book.waiting_count(), 0);
    assert_eq!(book.expire(60_000), Vec::<u64>::new());
}

#[test]
fn clock_going_back_counts_as_no_time() {
    let mut book = RequestBook::new();
    book.track(7);
    book.arm_timeout(7, 50_000);
    assert_eq!(book.expire(10_000), Vec::<u64>::new());
    assert_eq!(book.waiting_count(), 1);
}

#[test]
fn classifies_output_lines() {
    assert_eq!(classify_line("   ").0, LineKind::Blank);
    let (kind, text) = classify_line("  [login] ForSecure: 1234 ");
    assert_eq!(kind, LineKind::Log);
    assert_eq!(text, "[login] ForSecure: 1234");
    let (kind, text) = classify_line("{\"id\":1}\r");
    assert_eq!(kind, LineKind::Json);
    assert_eq!(text, "{\"id\":1}");
}

#[test]
fn names_events() {
    assert_eq!(event_kind("ready"), EventKind::Ready);
    assert_eq!(event_kind("chat_upsert"), EventKind::ChatUpsert);
    assert_eq!(event_kind("call_state"), EventKind::CallState);
    assert_eq!(event_kind("Ready"), EventKind::Unknown);
    assert_eq!(event_kind(""), EventKind::Unknown);
}

#[test]
fn routes_answers_and_events() {
    let mut book = RequestBook::new();
    book.track(5);
    assert_eq!(route_line(&mut book, Some("qr"), Some(5), Some(true)), Route::Event(EventKind::Qr));
    assert_eq!(book.waiting_count(), 1);
    assert_eq!(route_line(&mut book, None, Some(5), None), Route::Answer(5, false));
    assert_eq!(book.waiting_count(), 0);
    assert_eq!(route_line(&mut book, None, Some(9), Some(true)), Route::Answer(9, true));
    assert_eq!(route_line(&mut book, None, None, Some(true)), Route::Drop);
}

#[test]
fn resources_are_looked_for_in_order() {
    let v = resource_root_candidates(Some("/home/me/src"), "/home/me/line-gtk/target/release/line-gtk");
    assert_eq!(
        v,
        vec![
            "/usr/share/line-gtk",
            "/usr/local/share/line-gtk",
            "/home/me/src",
            "/home/me/line-gtk/target/release",
            "/home/me/line-gtk",
            "/home/me/line-gtk/target",
        ]
    );
    let v = resource_root_candidates(None, "line-gtk");
    assert_eq!(v, vec!["/usr/share/line-gtk", "/usr/local/share/line-gtk", ".", ""]);
    assert_eq!(resource_marker_path("/opt/line"), "/opt/line/protocol/src/main.ts");
    assert_eq!(resource_marker_path(""), "protocol/src/main.ts");
}

#[test]
fn event_fields_have_defaults() {
    assert_eq!(unknown_event_text("sparkle"), "unknown event: sparkle");
    assert_eq!(session_failed_error(None), "session restore failed");
    assert_eq!(session_failed_error(Some("expired".to_string())), "expired");
    assert_eq!(incoming_call_kind(None), "AUDIO");
    assert_eq!(incoming_call_kind(Some("VIDEO".to_string())), "VIDEO");
}

#[test]
fn a_written_request_starts_its_time_limit() {
    let mut book = RequestBook::new();
    let a = book.next_request_id();
    book.track(a);
    book.finish_request(a, true, 1000);
    assert_eq!(book.waiting_count(), 1);
    let b = book.next_request_id();
    book.track(b);
    book.finish_request(b, false, 1000);
    assert_eq!(book.waiting_count(), 1);
    assert_eq!(book.expire(1000 + 30_000), vec![a]);
}
