use jsonrpc::client::{ClientEndpoint, ResponseHandler, WaitStep, sync_wait_step};
use jsonrpc::message::{Request, Response};
use jsonrpc::transport::TransportError;
use jsonrpc::value::JsonValue;

#[derive(Debug, PartialEq, Eq)]
struct Tagged(u32);

impl ResponseHandler for Tagged {
    fn response_received(&mut self, _response: Response) {}
}

fn engine() -> ClientEndpoint<Tagged> {
    ClientEndpoint::new()
}

#[test]
fn send_request_queues_stamped_payload() {
    let mut endpoint = engine();
    let request = Request::new("add", None);
    endpoint.send_request(request, Tagged(0)).unwrap();
    let payload = endpoint.next_outbound().unwrap();
    assert_eq!(payload, "{\"jsonrpc\":\"2.0\",\"method\":\"add\",\"id\":0}");
    assert_eq!(endpoint.next_outbound(), None);
}

#[test]
fn ids_are_assigned_in_order() {
    let mut endpoint = engine();
    endpoint.send_request(Request::new("a", None), Tagged(0)).unwrap();
    endpoint.send_request(Request::new("b", None), Tagged(1)).unwrap();
    assert_eq!(
        endpoint.next_outbound().unwrap(),
        "{\"jsonrpc\":\"2.0\",\"method\":\"a\",\"id\":0}"
    );
    assert_eq!(
        endpoint.next_outbound().unwrap(),
        "{\"jsonrpc\":\"2.0\",\"method\":\"b\",\"id\":1}"
    );
}

#[test]
fn delivery_invokes_exactly_the_matching_handler() {
    let mut endpoint = engine();
    endpoint.send_request(Request::new("a", None), Tagged(10)).unwrap();
    endpoint.send_request(Request::new("b", None), Tagged(11)).unwrap();
    let (handler, response) = endpoint
        .handle_payload("{\"jsonrpc\":\"2.0\",\"id\":1,\"result\":7}")
        .unwrap();
    assert_eq!(handler, Tagged(11));
    assert_eq!(response.payload, Ok(JsonValue::U64(7)));
    assert_eq!(response.id, Some(JsonValue::U64(1)));
    // The other handler is still pending and still reachable.
    let (other, _) = endpoint
        .handle_payload("{\"jsonrpc\":\"2.0\",\"id\":0,\"result\":8}")
        .unwrap();
    assert_eq!(other, Tagged(10));
}

#[test]
fn delivery_is_at_most_once() {
    let mut endpoint = engine();
    endpoint.send_request(Request::new("a", None), Tagged(1)).unwrap();
    let text = "{\"jsonrpc\":\"2.0\",\"id\":0,\"result\":1}";
    assert!(endpoint.handle_payload(text).is_some());
    assert!(endpoint.handle_payload(text).is_none());
}

#[test]
fn unmatched_response_is_discarded_without_disruption() {
    let mut endpoint = engine();
    endpoint.send_request(Request::new("a", None), Tagged(1)).unwrap();
    // No handler was registered under id 40.
    assert!(endpoint.handle_payload("{\"jsonrpc\":\"2.0\",\"id\":40,\"result\":1}").is_none());
    // Later responses are still delivered.
    assert!(endpoint.handle_payload("{\"jsonrpc\":\"2.0\",\"id\":0,\"result\":1}").is_some());
}

#[test]
fn undecodable_payloads_are_dropped() {
    let mut endpoint = engine();
    endpoint.send_request(Request::new("a", None), Tagged(1)).unwrap();
    assert!(endpoint.handle_payload("{").is_none());
    assert!(endpoint.handle_payload("{\"jsonrpc\":\"2.0\",\"result\":1}").is_none());
    assert!(endpoint.handle_payload("{\"jsonrpc\":\"2.0\",\"id\":\"zero\",\"result\":1}").is_none());
    assert!(endpoint.handle_payload("{\"jsonrpc\":\"2.0\",\"id\":null,\"result\":1}").is_none());
    // The pending handler survived all of it.
    assert!(endpoint.handle_payload("{\"jsonrpc\":\"2.0\",\"id\":0,\"result\":1}").is_some());
}

#[test]
fn notification_creates_no_pending_entry() {
    let mut endpoint = engine();
    endpoint.send_notification(Request::new("note", None)).unwrap();
    assert_eq!(
        endpoint.next_outbound().unwrap(),
        "{\"jsonrpc\":\"2.0\",\"method\":\"note\"}"
    );
    // Nothing was registered: a response for any id finds no handler.
    assert!(endpoint.handle_payload("{\"jsonrpc\":\"2.0\",\"id\":0,\"result\":1}").is_none());
    // The notification did not spend an id either: the next call gets id 0.
    endpoint.send_request(Request::new("a", None), Tagged(1)).unwrap();
    assert_eq!(
        endpoint.next_outbound().unwrap(),
        "{\"jsonrpc\":\"2.0\",\"method\":\"a\",\"id\":0}"
    );
}

#[test]
fn closed_outbound_fails_sends_and_registers_nothing() {
    let mut endpoint = engine();
    endpoint.close_outbound();
    assert_eq!(
        endpoint.send_request(Request::new("a", None), Tagged(1)),
        Err(TransportError::EndOfFile)
    );
    assert_eq!(
        endpoint.send_notification(Request::new("n", None)),
        Err(TransportError::EndOfFile)
    );
    // The failed call's id 0 has no handler.
    assert!(endpoint.handle_payload("{\"jsonrpc\":\"2.0\",\"id\":0,\"result\":1}").is_none());
    assert_eq!(endpoint.next_outbound(), None);
}

#[test]
fn sync_wait_delivers_a_response_in_hand() {
    let response = Response::new(Ok(JsonValue::U64(1)));
    let r = sync_wait_step(Some(response), false, false);
    assert!(matches!(r, WaitStep::Deliver(_)));
    // Even one arriving immediately before the deadline.
    let response = Response::new(Ok(JsonValue::U64(2)));
    let r = sync_wait_step(Some(response), false, true);
    assert!(matches!(r, WaitStep::Deliver(_)));
}

#[test]
fn sync_wait_times_out() {
    assert!(matches!(sync_wait_step(None, false, true), WaitStep::GiveUp));
    assert!(matches!(sync_wait_step(None, true, false), WaitStep::GiveUp));
    assert!(matches!(sync_wait_step(None, false, false), WaitStep::KeepWaiting));
}
