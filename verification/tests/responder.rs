use jsonrpc::message::{Error, Request};
use jsonrpc::server::{ReadEvent, Reader, RequestHandler, Responder};
use jsonrpc::transport::{IoKind, ServerCallback, TransportError};
use jsonrpc::value::JsonValue;

struct Arithmetic {
    notifications: Vec<String>,
}

impl Arithmetic {
    fn new() -> Arithmetic {
        Arithmetic { notifications: Vec::new() }
    }
}

impl RequestHandler for Arithmetic {
    fn handle_request(&mut self, request: Request) -> Result<JsonValue, Error> {
        if request.method == "add" {
            Ok(JsonValue::U64(3))
        } else {
            Err(Error::method_not_found())
        }
    }

    fn handle_notification(&mut self, notification: Request) {
        self.notifications.push(notification.method);
    }
}

#[test]
fn call_is_answered_under_its_id() {
    let mut responder = Responder::new(Arithmetic::new());
    let reply = responder
        .respond("{\"jsonrpc\":\"2.0\",\"method\":\"add\",\"params\":[1,2],\"id\":1}")
        .unwrap();
    assert_eq!(reply, "{\"jsonrpc\":\"2.0\",\"id\":1,\"result\":3}");
    assert!(responder.handler.notifications.is_empty());
}

#[test]
fn failing_call_is_answered_with_the_error() {
    let mut responder = Responder::new(Arithmetic::new());
    let reply = responder
        .respond("{\"jsonrpc\":\"2.0\",\"method\":\"frobnicate\",\"id\":2}")
        .unwrap();
    assert_eq!(
        reply,
        "{\"jsonrpc\":\"2.0\",\"id\":2,\"error\":{\"code\":-32601,\"message\":\"Method not found\"}}"
    );
}

#[test]
fn unparseable_text_yields_parse_error_without_id() {
    let mut responder = Responder::new(Arithmetic::new());
    let reply = responder.respond("{").unwrap();
    assert_eq!(
        reply,
        "{\"jsonrpc\":\"2.0\",\"id\":null,\"error\":{\"code\":-32700,\"message\":\"Parse error\"}}"
    );
}

#[test]
fn invalid_request_echoes_the_frame_id() {
    let mut responder = Responder::new(Arithmetic::new());
    let reply = responder.respond("{\"method\":5,\"id\":7}").unwrap();
    assert_eq!(
        reply,
        "{\"jsonrpc\":\"2.0\",\"id\":7,\"error\":{\"code\":-32600,\"message\":\"Invalid request\"}}"
    );
}

#[test]
fn invalid_request_without_id_gets_null_id() {
    let mut responder = Responder::new(Arithmetic::new());
    let reply = responder.respond("[1,2]").unwrap();
    assert_eq!(
        reply,
        "{\"jsonrpc\":\"2.0\",\"id\":null,\"error\":{\"code\":-32600,\"message\":\"Invalid request\"}}"
    );
}

#[test]
fn notification_invokes_handler_and_yields_nothing() {
    let mut responder = Responder::new(Arithmetic::new());
    let reply = responder.respond("{\"jsonrpc\":\"2.0\",\"method\":\"tell\"}");
    assert_eq!(reply, None);
    assert_eq!(responder.handler.notifications, vec!["tell".to_string()]);
}

#[test]
fn responder_serves_as_server_callback() {
    let mut responder = Responder::new(Arithmetic::new());
    let reply = ServerCallback::handle_request(
        &mut responder,
        "{\"jsonrpc\":\"2.0\",\"method\":\"add\",\"id\":1}".to_string(),
    );
    assert_eq!(reply, Some("{\"jsonrpc\":\"2.0\",\"id\":1,\"result\":3}".to_string()));
}

struct Echo;

impl ServerCallback for Echo {
    fn handle_request(&mut self, request: String) -> Option<String> {
        if request.is_empty() { None } else { Some(request) }
    }
}

#[test]
fn reader_without_callback_produces_no_reply() {
    let mut reader: Reader<Echo> = Reader::new();
    assert_eq!(reader.handle_read_line("hello".to_string()), None);
}

#[test]
fn reader_hands_lines_to_the_callback() {
    let mut reader: Reader<Echo> = Reader::new();
    reader.set_callback(Echo);
    assert_eq!(reader.handle_read_line("hello".to_string()), Some("hello".to_string()));
    assert_eq!(reader.handle_read_line(String::new()), None);
}

#[test]
fn read_loop_survives_transient_failures_and_stops_at_fatal_ones() {
    let mut reader: Reader<Echo> = Reader::new();
    reader.set_callback(Echo);
    let events = vec![
        ReadEvent::Line("a".to_string()),
        ReadEvent::Failed(TransportError::TimedOut),
        ReadEvent::Failed(TransportError::Interrupted),
        ReadEvent::Failed(TransportError::ParseError),
        ReadEvent::Line("b".to_string()),
        ReadEvent::Failed(TransportError::EndOfFile),
        ReadEvent::Line("never".to_string()),
    ];
    let consumed = reader.run(&events);
    assert_eq!(consumed, 5);
}

#[test]
fn read_loop_queues_replies_in_order() {
    let mut reader: Reader<Echo> = Reader::new();
    reader.set_callback(Echo);
    let events = vec![
        ReadEvent::Line("a".to_string()),
        ReadEvent::Line(String::new()),
        ReadEvent::Failed(TransportError::TimedOut),
        ReadEvent::Line("b".to_string()),
    ];
    let consumed = reader.run(&events);
    assert_eq!(consumed, 4);
    assert_eq!(reader.next_reply(), Some("a".to_string()));
    assert_eq!(reader.next_reply(), Some("b".to_string()));
    assert_eq!(reader.next_reply(), None);
}

#[test]
fn read_loop_keeps_earlier_replies_when_stopping() {
    let mut reader: Reader<Echo> = Reader::new();
    reader.set_callback(Echo);
    let events = vec![
        ReadEvent::Line("x".to_string()),
        ReadEvent::Failed(TransportError::EndOfFile),
        ReadEvent::Line("never".to_string()),
    ];
    let consumed = reader.run(&events);
    assert_eq!(consumed, 1);
    assert_eq!(reader.next_reply(), Some("x".to_string()));
    assert_eq!(reader.next_reply(), None);
}

#[test]
fn transport_error_classification() {
    assert_eq!(TransportError::from(IoKind::ConnectionRefused), TransportError::EndOfFile);
    assert_eq!(TransportError::from(IoKind::ConnectionReset), TransportError::EndOfFile);
    assert_eq!(TransportError::from(IoKind::ConnectionAborted), TransportError::EndOfFile);
    assert_eq!(TransportError::from(IoKind::BrokenPipe), TransportError::EndOfFile);
    assert_eq!(TransportError::from(IoKind::TimedOut), TransportError::TimedOut);
    assert_eq!(TransportError::from(IoKind::WouldBlock), TransportError::TimedOut);
    assert_eq!(TransportError::from(IoKind::WriteZero), TransportError::TimedOut);
    assert_eq!(TransportError::from(IoKind::Interrupted), TransportError::Interrupted);
    assert_eq!(
        TransportError::from(IoKind::NotFound),
        TransportError::IOError(IoKind::NotFound)
    );
    assert_eq!(
        TransportError::from(IoKind::PermissionDenied),
        TransportError::IOError(IoKind::PermissionDenied)
    );
}
