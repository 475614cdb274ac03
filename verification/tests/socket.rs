use rustler_core::socket::event::{Data, ErrorResponse, WsEvent};
use rustler_core::socket::server::{
    handle_message, listen_address, relay_goes_on, track, ConnectionEvent, HandlingResult,
    MessageKind, WriteOutcome,
};
use rustler_core::socket::stats::ServerStats;

fn event(name: &str) -> WsEvent {
    let mut data = Data::new();
    data.insert("symbol".to_string(), serde_json::Value::String("BTCUSDT".to_string()));
    WsEvent { event: name.to_string(), data }
}

#[test]
fn text_and_binary_events_are_dispatched() {
    for kind in [MessageKind::Text, MessageKind::Binary] {
        let handling = handle_message(kind, Some(event("subscribe")));
        let dispatched = handling.dispatch.unwrap();
        assert_eq!(dispatched.event, "subscribe");
        assert_eq!(
            dispatched.data.get("symbol"),
            Some(&serde_json::Value::String("BTCUSDT".to_string()))
        );
        assert_eq!(handling.result, HandlingResult::Handled);
    }
}

#[test]
fn payload_that_is_no_event_is_passed_over() {
    for kind in [MessageKind::Text, MessageKind::Binary] {
        let handling = handle_message(kind, None);
        assert!(handling.dispatch.is_none());
        assert_eq!(handling.result, HandlingResult::Handled);
    }
}

#[test]
fn close_frame_ends_the_connection() {
    let handling = handle_message(MessageKind::Close, None);
    assert!(handling.dispatch.is_none());
    assert_eq!(handling.result, HandlingResult::Closed);
    assert!(handling.result.ends_connection());
    let handling = handle_message(MessageKind::Close, Some(event("subscribe")));
    assert!(handling.dispatch.is_none());
    assert_eq!(handling.result, HandlingResult::Closed);
}

#[test]
fn other_frames_are_handled_without_dispatch() {
    for kind in [MessageKind::Ping, MessageKind::Pong, MessageKind::Frame] {
        let handling = handle_message(kind, Some(event("subscribe")));
        assert!(handling.dispatch.is_none());
        assert_eq!(handling.result, HandlingResult::Handled);
        assert!(!handling.result.ends_connection());
    }
}

#[test]
fn only_text_and_binary_frames_carry_events() {
    assert!(MessageKind::Text.is_payload());
    assert!(MessageKind::Binary.is_payload());
    assert!(!MessageKind::Ping.is_payload());
    assert!(!MessageKind::Pong.is_payload());
    assert!(!MessageKind::Close.is_payload());
    assert!(!MessageKind::Frame.is_payload());
}

#[test]
fn gateway_listens_on_host_and_port() {
    assert_eq!(listen_address("127.0.0.1", "8080"), "127.0.0.1:8080");
    assert_eq!(listen_address("", ""), ":");
}

#[test]
fn error_response_carries_code_and_text() {
    let response = ErrorResponse { error_code: 404, msg: "Ticker not found".to_string() };
    assert_eq!(response.error_code, 404);
    assert_eq!(response.msg, "Ticker not found");
}

#[test]
fn relay_ends_on_a_closed_connection_only() {
    assert!(relay_goes_on(WriteOutcome::Sent));
    assert!(relay_goes_on(WriteOutcome::Failed));
    assert!(!relay_goes_on(WriteOutcome::AlreadyClosed));
    assert!(!relay_goes_on(WriteOutcome::ConnectionClosed));
}

#[test]
fn clients_are_counted_from_handshake_to_end() {
    let mut stats = ServerStats::new();
    assert!(track(&mut stats, ConnectionEvent::Handshake(true)));
    assert!(track(&mut stats, ConnectionEvent::Handshake(true)));
    assert!(!track(&mut stats, ConnectionEvent::Handshake(false)));
    assert_eq!((stats.current_clients(), stats.total_clients()), (2, 2));
    assert!(!track(&mut stats, ConnectionEvent::Ended));
    assert_eq!((stats.current_clients(), stats.total_clients()), (1, 2));
    assert!(track(&mut stats, ConnectionEvent::Handshake(true)));
    assert_eq!((stats.current_clients(), stats.total_clients()), (2, 3));
    assert!(!track(&mut stats, ConnectionEvent::Ended));
    assert!(!track(&mut stats, ConnectionEvent::Ended));
    assert_eq!((stats.current_clients(), stats.total_clients()), (0, 3));
}
