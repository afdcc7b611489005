use async_chat::forwarder::{Feed, Forward, Forwarder};

#[test]
fn forwarder_starts_running() {
    let forwarder = Forwarder::new();
    assert!(forwarder.is_running());
}

#[test]
fn received_payload_is_written_verbatim() {
    let mut forwarder = Forwarder::new();
    assert_eq!(
        forwarder.step(Feed::Received(Some("FROM alice hi\n".to_string()))),
        Forward::Write("FROM alice hi\n".to_string())
    );
    assert!(forwarder.is_running());
    assert_eq!(
        forwarder.step(Feed::Received(Some(String::new()))),
        Forward::Write(String::new())
    );
}

#[test]
fn finished_write_leads_to_the_next_receive() {
    let mut forwarder = Forwarder::new();
    forwarder.step(Feed::Received(Some("FROM alice one\n".to_string())));
    assert_eq!(forwarder.step(Feed::Written(true)), Forward::Receive);
    assert_eq!(
        forwarder.step(Feed::Received(Some("FROM alice two\n".to_string()))),
        Forward::Write("FROM alice two\n".to_string())
    );
    assert!(forwarder.is_running());
}

#[test]
fn failed_write_stops_the_forwarder() {
    let mut forwarder = Forwarder::new();
    forwarder.step(Feed::Received(Some("FROM alice hi\n".to_string())));
    assert_eq!(forwarder.step(Feed::Written(false)), Forward::Stop);
    assert!(!forwarder.is_running());
}

#[test]
fn closed_queue_stops_the_forwarder() {
    let mut forwarder = Forwarder::new();
    assert_eq!(forwarder.step(Feed::Received(None)), Forward::Stop);
    assert!(!forwarder.is_running());
}

#[test]
fn cancellation_stops_the_forwarder() {
    let mut forwarder = Forwarder::new();
    assert_eq!(forwarder.step(Feed::Cancelled), Forward::Stop);
    assert!(!forwarder.is_running());
}

#[test]
fn stopped_forwarder_never_writes_again() {
    let mut forwarder = Forwarder::new();
    forwarder.step(Feed::Cancelled);
    assert_eq!(forwarder.step(Feed::Received(Some("late\n".to_string()))), Forward::Stop);
    assert_eq!(forwarder.step(Feed::Written(true)), Forward::Stop);
    assert_eq!(forwarder.step(Feed::Received(None)), Forward::Stop);
    assert_eq!(forwarder.step(Feed::Cancelled), Forward::Stop);
    assert!(!forwarder.is_running());
}
