//! The client correlation engine.
//!
//! The engine assigns each call a fresh correlation id, queues the encoded
//! payload for a writer, and keeps the pending-handler table that matches an
//! arriving response back to the handler registered for its id.  The
//! embedding application owns the threads and the lock around one engine and
//! invokes a returned handler only after the lock is released; everything
//! the engine decides is here, and verified.

use vstd::prelude::*;
use std::collections::HashMap;
use crate::message::{
    Request, RequestData, Response, ResponseData, response_of_json, request_json,
};
use crate::value::{Json, JsonValue};
use crate::text::{to_text, json_text};
use crate::parse::{parse_text, parsed_json};
use crate::transport::{TransportError, ClientTransport};

verus! {

broadcast use vstd::std_specs::hash::group_hash_axioms;

/// Something that receives the response to a call it was registered for.
pub trait ResponseHandler: Sized + Send + 'static {
    fn response_received(&mut self, response: Response);
}

/// The correlation id a response addresses: its id member, when that member
/// is an unsigned integer.  Any other id shape is not matched.
pub open spec fn response_id(r: ResponseData) -> Option<u64> {
    match r.id {
        Some(Json::U64(n)) => Some(n),
        _ => None,
    }
}

/// What an inbound payload carries: the response it decodes to, if its text
/// parses and decodes at all.
pub open spec fn delivered_response(payload: Seq<char>) -> Option<ResponseData> {
    match parsed_json(payload) {
        Some(j) => match response_of_json(j) {
            Ok(r) => Some(r),
            Err(_) => None,
        },
        None => None,
    }
}

/// The request `r` with the id `n` stamped on.
pub open spec fn stamped(r: RequestData, n: u64) -> RequestData {
    RequestData { method: r.method, params: r.params, id: Some(Json::U64(n)) }
}

/// A client endpoint: the id counter, the pending-handler table, and the
/// outbound queue that a writer drains in order.
pub struct ClientEndpoint<H> {
    /// Encoded payloads awaiting the writer, oldest first.
    outbound: Vec<String>,
    /// Whether the outbound path is gone: nothing can be sent any more.
    closed: bool,
    /// The pending-handler table: each in-flight id and its handler.
    handlers: HashMap<u64, H>,
    /// The next id to assign to a call.
    next_id: u64,
}

impl<H> ClientEndpoint<H> {
    /// The pending-handler table, as a map.
    pub closed spec fn pending(&self) -> Map<u64, H> {
        self.handlers@
    }

    /// The queued outbound payloads, oldest first.
    pub closed spec fn queued(&self) -> Seq<String> {
        self.outbound@
    }

    /// Whether the outbound path is closed.
    pub closed spec fn is_closed(&self) -> bool {
        self.closed
    }

    /// The id the next call will get.
    pub closed spec fn counter(&self) -> u64 {
        self.next_id
    }

    /// Every pending id was assigned earlier: ids are never reused while a
    /// handler is pending, because the counter only grows.
    pub open spec fn wf(&self) -> bool {
        forall|k: u64| self.pending().contains_key(k) ==> k < self.counter()
    }

    /// A fresh endpoint: nothing pending, nothing queued, ids from zero.
    pub fn new() -> (r: Self)
        ensures
            r.wf(),
            r.pending() == Map::<u64, H>::empty(),
            r.queued() == Seq::<String>::empty(),
            !r.is_closed(),
            r.counter() == 0,
    {
        ClientEndpoint {
            outbound: Vec::new(),
            closed: false,
            handlers: HashMap::new(),
            next_id: 0,
        }
    }

    /// Marks the outbound path closed: the writer is gone, later sends fail.
    pub fn close_outbound(&mut self)
        ensures
            final(self).is_closed(),
            final(self).pending() == old(self).pending(),
            final(self).queued() == old(self).queued(),
            final(self).counter() == old(self).counter(),
    {
        self.closed = true;
    }

    /// Hands the writer the oldest queued payload, if any.
    pub fn next_outbound(&mut self) -> (r: Option<String>)
        ensures
            final(self).pending() == old(self).pending(),
            final(self).is_closed() == old(self).is_closed(),
            final(self).counter() == old(self).counter(),
            match r {
                Some(s) => old(self).queued().len() > 0 && s == old(self).queued()[0] && final(self).queued() == old(self).queued().drop_first(),
                None => old(self).queued().len() == 0 && final(self).queued() == old(self).queued(),
            },
    {
        if self.outbound.len() == 0 {
            return None;
        }
        let s = self.outbound.remove(0);
        proof {
            assert(final(self).queued() =~= old(self).queued().drop_first());
        }
        Some(s)
    }

    /// Queues one encoded payload, unless the outbound path is closed.
    fn enqueue(&mut self, text: String) -> (r: Result<(), TransportError>)
        ensures
            final(self).pending() == old(self).pending(),
            final(self).counter() == old(self).counter(),
            final(self).is_closed() == old(self).is_closed(),
            match r {
                Ok(()) => !old(self).is_closed() && final(self).queued() == old(self).queued().push(text),
                Err(e) => e == TransportError::EndOfFile && old(self).is_closed() && final(self).queued() == old(self).queued(),
            },
    {
        if self.closed {
            Err(TransportError::EndOfFile)
        } else {
            self.outbound.push(text);
            Ok(())
        }
    }
}

impl<H: ResponseHandler> ClientEndpoint<H> {
    /// Sends a call: assigns the next id, stamps it on the request, queues
    /// the encoded payload, and registers the handler under that id — the
    /// handler only when the payload was queued, so a failed send registers
    /// nothing.  The id is spent either way and never reused.  Encoding is
    /// total, so the one way to fail is a closed outbound path.
    pub fn send_request(&mut self, request: Request, response_handler: H) -> (r: Result<
        (),
        TransportError,
    >)
        requires
            old(self).wf(),
            old(self).counter() < u64::MAX,
        ensures
            final(self).wf(),
            final(self).counter() == old(self).counter() + 1,
            match r {
                Ok(()) => {
                    &&& !old(self).is_closed()
                    &&& !old(self).pending().contains_key(old(self).counter())
                    &&& final(self).pending() == old(self).pending().insert(
                        old(self).counter(),
                        response_handler,
                    )
                    &&& final(self).queued().len() == old(self).queued().len() + 1
                    &&& final(self).queued().drop_last() == old(self).queued()
                    &&& final(self).queued().last()@ == json_text(
                        request_json(stamped(request@, old(self).counter())),
                    )
                    &&& final(self).is_closed() == old(self).is_closed()
                },
                Err(e) => {
                    &&& e == TransportError::EndOfFile
                    &&& old(self).is_closed()
                    &&& final(self).pending() == old(self).pending()
                    &&& final(self).queued() == old(self).queued()
                    &&& final(self).is_closed() == old(self).is_closed()
                },
            },
    {
        let id = self.next_id;
        self.next_id = self.next_id + 1;
        let mut request = request;
        request.set_id(JsonValue::U64(id));
        let text = to_text(&request.to_json());
        match self.enqueue(text) {
            Ok(()) => {
                let _previous = self.handlers.insert(id, response_handler);
                proof {
                    assert(self.handlers@ == old(self).handlers@.insert(id, response_handler));
                    assert forall|k: u64| self.handlers@.contains_key(k) implies k
                        < self.next_id by {
                        if k != id {
                            assert(old(self).pending().contains_key(k));
                        }
                    }
                    assert(final(self).queued().drop_last() =~= old(self).queued());
                }
                Ok(())
            },
            Err(e) => Err(e),
        }
    }

    /// Sends a notification: the request goes out as it stands, no id is
    /// assigned, and no handler is ever registered for it.
    pub fn send_notification(&mut self, notification: Request) -> (r: Result<
        (),
        TransportError,
    >)
        ensures
            final(self).pending() == old(self).pending(),
            final(self).counter() == old(self).counter(),
            final(self).is_closed() == old(self).is_closed(),
            match r {
                Ok(()) => {
                    &&& !old(self).is_closed()
                    &&& final(self).queued().len() == old(self).queued().len() + 1
                    &&& final(self).queued().drop_last() == old(self).queued()
                    &&& final(self).queued().last()@ == json_text(request_json(notification@))
                },
                Err(e) => {
                    &&& e == TransportError::EndOfFile
                    &&& old(self).is_closed()
                    &&& final(self).queued() == old(self).queued()
                },
            },
    {
        let text = to_text(&notification.to_json());
        let r = self.enqueue(text);
        proof {
            if r is Ok {
                assert(final(self).queued().drop_last() =~= old(self).queued());
            }
        }
        r
    }

    /// The response delivery path.  Decodes the payload; a payload that does
    /// not parse, does not decode, or carries no unsigned-integer id is
    /// dropped.  Otherwise the matching entry is removed from the table —
    /// and nothing else is touched — and handed back with the response, for
    /// the caller to invoke outside any lock; an id with no registered
    /// handler is dropped the same way.
    pub fn handle_payload(&mut self, payload: &str) -> (r: Option<(H, Response)>)
        requires
            old(self).wf(),
        ensures
            final(self).wf(),
            final(self).counter() == old(self).counter(),
            final(self).queued() == old(self).queued(),
            final(self).is_closed() == old(self).is_closed(),
            match delivered_response(payload@) {
                None => r is None && final(self).pending() == old(self).pending(),
                Some(resp) => match response_id(resp) {
                    None => r is None && final(self).pending() == old(self).pending(),
                    Some(k) => {
                        if old(self).pending().contains_key(k) {
                            match r {
                                Some((h, res)) => {
                                    &&& h == old(self).pending()[k]
                                    &&& res@ == resp
                                    &&& final(self).pending() == old(self).pending().remove(k)
                                },
                                None => false,
                            }
                        } else {
                            r is None && final(self).pending() == old(self).pending()
                        }
                    },
                },
            },
    {
        match parse_text(payload) {
            None => None,
            Some(json) => match Response::from_json(json) {
                Err(_) => None,
                Ok(response) => {
                    let id: u64 = match &response.id {
                        Some(JsonValue::U64(n)) => *n,
                        _ => {
                            return None;
                        },
                    };
                    let taken = self.handlers.remove(&id);
                    proof {
                        assert(self.handlers@ == old(self).handlers@.remove(id));
                        assert forall|k: u64| self.handlers@.contains_key(k) implies k
                            < self.next_id by {
                            assert(old(self).pending().contains_key(k));
                        }
                    }
                    match taken {
                        Some(handler) => Some((handler, response)),
                        None => None,
                    }
                },
            },
        }
    }
}

/// Law: a delivery for id `k` takes exactly the entry for `k` out of the
/// pending table; however many other calls are in flight, each keeps the
/// very handler registered for it, untouched, and `k` itself is gone — so a
/// second delivery for `k` finds nothing.
pub proof fn lemma_delivery_isolation<H>(before: Map<u64, H>, after: Map<u64, H>, k: u64)
    requires
        after == before.remove(k),
    ensures
        !after.contains_key(k),
        forall|j: u64|
            j != k && before.contains_key(j) ==> after.contains_key(j) && after[j] == before[j],
        forall|j: u64| j != k && !before.contains_key(j) ==> !after.contains_key(j),
{
}

/// One step of the synchronous wait that a blocking call performs around its
/// one-shot conduit.
pub enum WaitStep {
    /// The response arrived: hand it to the caller.
    Deliver(Response),
    /// The wait is over without a response: report a timeout.
    GiveUp,
    /// Nothing yet and time remains: poll again.
    KeepWaiting,
}

/// Decides one poll of the synchronous wait.  A response in hand wins, even
/// one arriving right at the deadline; a conduit that can never deliver, or
/// a deadline already passed, gives the wait up; otherwise it goes on.
pub fn sync_wait_step(
    received: Option<Response>,
    conduit_closed: bool,
    deadline_passed: bool,
) -> (r: WaitStep)
    ensures
        match received {
            Some(resp) => r == WaitStep::Deliver(resp),
            None => r == if conduit_closed || deadline_passed {
                WaitStep::GiveUp
            } else {
                WaitStep::KeepWaiting
            },
        },
{
    match received {
        Some(resp) => WaitStep::Deliver(resp),
        None => {
            if conduit_closed || deadline_passed {
                WaitStep::GiveUp
            } else {
                WaitStep::KeepWaiting
            }
        },
    }
}

/// Whether a write failure ends the writer: a timeout, an interruption or an
/// encoding failure only costs the one payload; anything else is fatal.
pub open spec fn write_failure_fatal(e: TransportError) -> bool {
    !(e == TransportError::TimedOut || e == TransportError::Interrupted || e
        == TransportError::EncodeError)
}

/// The verified half of the writer that drains the outbound queue: it owns
/// the transport and decides, for each payload, what a failure means.  The
/// embedding application runs the loop that feeds it.
pub struct StreamWriter<T> {
    /// The transport every payload goes out through.
    pub transport: T,
}

impl<T: ClientTransport> StreamWriter<T> {
    /// A writer around `transport`.
    pub fn new(transport: T) -> (r: StreamWriter<T>)
        ensures
            r == (StreamWriter { transport }),
    {
        StreamWriter { transport }
    }

    /// Sends one payload through the transport; on failure, says whether the
    /// writer must stop.  `Ok` when the payload went out, otherwise the
    /// failure together with that verdict.
    pub fn send_payload(&mut self, payload: &str) -> (r: Result<(), (TransportError, bool)>)
        ensures
            match r {
                Ok(()) => true,
                Err((e, fatal)) => fatal == write_failure_fatal(e),
            },
    {
        match self.transport.send(payload) {
            Ok(()) => Ok(()),
            Err(e) => {
                let fatal = match e {
                    TransportError::TimedOut => false,
                    TransportError::Interrupted => false,
                    TransportError::EncodeError => false,
                    _ => true,
                };
                Err((e, fatal))
            },
        }
    }
}

} // verus!
