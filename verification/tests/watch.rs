use adif_watch::status::{Fatal, EXIT_REMOVAL};
use adif_watch::watch::{Action, Event, Notice, WatchLoop, WatchState};

fn started() -> WatchLoop {
    WatchLoop::new(String::from("secret"), Some(String::from("7")))
}

/// A loop that has drained an empty log and waits.
fn idle() -> WatchLoop {
    let mut watch = started();
    assert!(matches!(watch.step(Event::BytesRead(Vec::new())), Action::Wait));
    watch
}

fn body_of(action: Action) -> (String, usize) {
    match action {
        Action::Upload(request) => (request.body, request.len),
        other => panic!("no request: {:?}", other),
    }
}

#[test]
fn loop_starts_by_draining() {
    let watch = started();
    assert_eq!(watch.state(), WatchState::Draining);
    assert_eq!(watch.pending_len(), 0);
    assert!(matches!(watch.action(), Action::ReadLog));
}

#[test]
fn empty_log_sends_nothing_and_goes_idle() {
    let mut watch = started();
    assert!(matches!(watch.step(Event::BytesRead(Vec::new())), Action::Wait));
    assert_eq!(watch.state(), WatchState::Idle);
    assert!(matches!(watch.action(), Action::Wait));
}

#[test]
fn record_at_startup_is_sent_once() {
    let mut watch = started();
    let (body, len) = body_of(watch.step(Event::BytesRead(b"CALL:K1ABC<eor>\r\n".to_vec())));
    assert_eq!(
        body,
        "{\"key\":\"secret\",\"station_profile_id\":\"7\",\"string\":\"CALL:K1ABC<eor>\\r\\n\",\"type\":\"adif\"}"
    );
    assert_eq!(len, 17);
    assert_eq!(watch.state(), WatchState::Draining);
    assert!(matches!(watch.step(Event::Uploaded), Action::ReadLog));
    assert!(matches!(watch.step(Event::BytesRead(Vec::new())), Action::Wait));
    assert_eq!(watch.state(), WatchState::Idle);
    assert_eq!(watch.pending_len(), 0);
}

#[test]
fn two_records_in_one_burst_are_one_request() {
    let mut watch = idle();
    assert!(matches!(watch.step(Event::Notified(Notice::DataModified)), Action::ReadLog));
    assert_eq!(watch.state(), WatchState::Draining);
    let (body, len) = body_of(watch.step(Event::BytesRead(b"A<eor>\nB<eor>\n".to_vec())));
    let sent: serde_json::Value = serde_json::from_str(&body).unwrap();
    assert_eq!(sent["string"].as_str(), Some("A<eor>\nB<eor>\n"));
    assert_eq!(len, 14);
    assert!(matches!(watch.step(Event::Uploaded), Action::ReadLog));
    assert!(matches!(watch.step(Event::BytesRead(Vec::new())), Action::Wait));
    assert_eq!(watch.state(), WatchState::Idle);
}

#[test]
fn partial_marker_is_sent_when_it_is_completed() {
    let mut watch = idle();
    assert!(matches!(watch.step(Event::Notified(Notice::DataModified)), Action::ReadLog));
    assert!(matches!(watch.step(Event::BytesRead(b"C<eo".to_vec())), Action::Wait));
    assert_eq!(watch.state(), WatchState::Idle);
    assert_eq!(watch.pending_len(), 4);
    assert!(matches!(watch.step(Event::Notified(Notice::DataModified)), Action::ReadLog));
    let (body, len) = body_of(watch.step(Event::BytesRead(b"r>\n".to_vec())));
    let sent: serde_json::Value = serde_json::from_str(&body).unwrap();
    assert_eq!(sent["string"].as_str(), Some("C<eor>\n"));
    assert_eq!(len, 7);
    assert_eq!(watch.pending_len(), 0);
}

#[test]
fn removal_of_the_log_ends_the_loop() {
    let mut watch = idle();
    assert!(matches!(watch.step(Event::Notified(Notice::Removed)), Action::Exit(69)));
    assert_eq!(watch.state(), WatchState::Terminated(Fatal::LogRemoved));
    assert!(matches!(watch.step(Event::Notified(Notice::DataModified)), Action::Exit(69)));
    assert!(matches!(watch.step(Event::BytesRead(b"A<eor>\n".to_vec())), Action::Exit(69)));
    assert!(matches!(watch.step(Event::Uploaded), Action::Exit(69)));
    assert_eq!(watch.state(), WatchState::Terminated(Fatal::LogRemoved));
    assert_eq!(watch.pending_len(), 0);
}

#[test]
fn removal_while_draining_ends_the_loop() {
    let mut watch = started();
    assert!(matches!(watch.step(Event::Notified(Notice::Removed)), Action::Exit(69)));
    assert_eq!(watch.state(), WatchState::Terminated(Fatal::LogRemoved));
}

#[test]
fn removal_exits_with_another_status_than_any_error() {
    let mut removed = idle();
    let status = match removed.step(Event::Notified(Notice::Removed)) {
        Action::Exit(status) => status,
        other => panic!("no exit: {:?}", other),
    };
    assert_eq!(status, EXIT_REMOVAL);
    let errors = [
        Event::ReadFailed,
        Event::UploadFailed,
        Event::WatchFailed,
        Event::BytesRead(b"\xff<eor>".to_vec()),
    ];
    for error in errors {
        let mut watch = started();
        match watch.step(error) {
            Action::Exit(other) => assert_ne!(other, status),
            other => panic!("no exit: {:?}", other),
        }
    }
}

#[test]
fn other_notices_change_nothing() {
    let mut watch = idle();
    assert!(matches!(watch.step(Event::Notified(Notice::Other)), Action::Wait));
    assert_eq!(watch.state(), WatchState::Idle);
    let mut draining = started();
    assert!(matches!(draining.step(Event::Notified(Notice::Other)), Action::ReadLog));
    assert_eq!(draining.state(), WatchState::Draining);
}

#[test]
fn write_notice_while_draining_keeps_draining() {
    let mut watch = started();
    assert!(matches!(watch.step(Event::Notified(Notice::DataModified)), Action::ReadLog));
    assert_eq!(watch.state(), WatchState::Draining);
}

#[test]
fn watch_error_ends_the_loop() {
    let mut watch = idle();
    assert!(matches!(watch.step(Event::WatchFailed), Action::Exit(71)));
    assert_eq!(watch.state(), WatchState::Terminated(Fatal::WatchFailed));
}

#[test]
fn read_error_ends_the_loop() {
    let mut watch = started();
    assert!(matches!(watch.step(Event::ReadFailed), Action::Exit(74)));
    assert_eq!(watch.state(), WatchState::Terminated(Fatal::ReadFailed));
}

#[test]
fn failed_upload_ends_the_loop() {
    let mut watch = started();
    let (_, len) = body_of(watch.step(Event::BytesRead(b"A<eor>".to_vec())));
    assert_eq!(len, 6);
    assert!(matches!(watch.step(Event::UploadFailed), Action::Exit(75)));
    assert_eq!(watch.state(), WatchState::Terminated(Fatal::UploadFailed));
    assert!(matches!(watch.step(Event::BytesRead(b"B<eor>".to_vec())), Action::Exit(75)));
}

#[test]
fn records_that_are_no_text_end_the_loop() {
    let mut watch = started();
    assert!(matches!(watch.step(Event::BytesRead(b"\xff<eor>".to_vec())), Action::Exit(65)));
    assert_eq!(watch.state(), WatchState::Terminated(Fatal::InvalidText));
    assert_eq!(watch.pending_len(), 6);
}

#[test]
fn drain_goes_on_while_reads_complete_records() {
    let mut watch = started();
    let (_, first) = body_of(watch.step(Event::BytesRead(b"A<eor>\nB".to_vec())));
    assert_eq!(first, 7);
    assert!(matches!(watch.step(Event::Uploaded), Action::ReadLog));
    let (_, second) = body_of(watch.step(Event::BytesRead(b"<eor>\nC".to_vec())));
    assert_eq!(second, 7);
    assert!(matches!(watch.step(Event::Uploaded), Action::ReadLog));
    assert!(matches!(watch.step(Event::BytesRead(b"<e".to_vec())), Action::Wait));
    assert_eq!(watch.pending_len(), 3);
}

#[test]
fn request_without_profile_has_no_profile_member() {
    let mut watch = WatchLoop::new(String::from("secret"), None);
    let (body, _) = body_of(watch.step(Event::BytesRead(b"A<eor>".to_vec())));
    assert_eq!(body, "{\"key\":\"secret\",\"string\":\"A<eor>\",\"type\":\"adif\"}");
}
