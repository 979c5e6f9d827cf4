//! The server responder and the verified core of the server's read loop.
//!
//! One inbound frame is processed to completion — decoding, the application
//! handler, and the reply — before the next is considered; the responder is
//! not reentrant.  Whatever the typed decode did, the reply goes out under
//! the id the inbound frame itself carried, so an invalid request is still
//! answered under its own id.

use vstd::prelude::*;
use crate::message::{
    Request, Response, ResponseData, ErrorData, Error, request_of_json, response_json,
    parse_error_data, payload_view,
};
use crate::value::{Json, JsonValue, field_of};
use crate::text::{to_text, json_text};
use crate::parse::{parse_text, parsed_json};
use crate::transport::{ServerCallback, ServerTransport, TransportError, read_transient};

verus! {

/// The application logic behind a server: answers calls, takes
/// notifications.
pub trait RequestHandler: Sized + Send + Sync + 'static {
    /// Handles a call.  Returns the result or an error.
    fn handle_request(&mut self, request: Request) -> Result<JsonValue, Error>;

    /// Handles a notification.
    fn handle_notification(&mut self, notification: Request);
}

/// The reply text that answers a frame whose decoding failed with `e`, under
/// whatever id the frame itself carried.
pub open spec fn error_reply(e: ErrorData, raw_id: Option<Json>) -> Seq<char> {
    json_text(response_json(ResponseData { payload: Err(e), id: raw_id }))
}

/// Interfaces between the transport and the application logic: decodes each
/// inbound frame, invokes the handler, and reconstructs the reply.
pub struct Responder<H> {
    /// The application handler every frame is dispatched to.
    pub handler: H,
}

impl<H: RequestHandler> Responder<H> {
    /// A responder around `handler`.
    pub fn new(handler: H) -> (r: Responder<H>)
        ensures
            r == (Responder { handler }),
    {
        Responder { handler }
    }

    /// The response to a call: whatever the handler returned, under the
    /// call's id.
    pub fn reply_for_call(payload: Result<JsonValue, Error>, id: JsonValue) -> (r: Response)
        ensures
            r@ == (ResponseData { payload: payload_view(payload), id: Some(id@) }),
    {
        let mut response = Response::new(payload);
        response.set_id(id);
        response
    }

    /// Distinguishes a call from a notification: a call is handed to the
    /// handler and its outcome answered under the call's id; a notification
    /// is handed over and answered with nothing.
    pub fn handle_request(&mut self, request: Request) -> (r: Option<Response>)
        ensures
            match request@.id {
                None => r is None,
                Some(id) => match r {
                    Some(resp) => resp@.id == Some(id),
                    None => false,
                },
            },
    {
        let id: Option<JsonValue> = match &request.id {
            Some(v) => Some(v.clone()),
            None => None,
        };
        match id {
            Some(idv) => {
                let outcome = self.handler.handle_request(request);
                Some(Self::reply_for_call(outcome, idv))
            },
            None => {
                self.handler.handle_notification(request);
                None
            },
        }
    }

    /// Answers one inbound frame.  Text that does not parse is answered with
    /// the parse error under a null id; a frame that parses but does not
    /// decode as a request is answered with that error under the id the
    /// frame carried; a call is answered under its id with whatever the
    /// handler returned; a notification is answered with nothing.
    pub fn respond(&mut self, text: &str) -> (r: Option<String>)
        ensures
            match parsed_json(text@) {
                None => match r {
                    Some(s) => s@ == error_reply(parse_error_data(), None),
                    None => false,
                },
                Some(j) => match request_of_json(j) {
                    Ok(req) => match req.id {
                        None => r is None,
                        Some(id) => match r {
                            Some(s) => exists|p: Result<Json, ErrorData>|
                                s@ == json_text(
                                    response_json((ResponseData { payload: p, id: Some(id) })),
                                ),
                            None => false,
                        },
                    },
                    Err(e) => match r {
                        Some(s) => s@ == error_reply(e, field_of(j, "id"@)),
                        None => false,
                    },
                },
            },
    {
        match parse_text(text) {
            None => {
                let reply = Response::new(Err(Error::parse_error()));
                Some(to_text(&reply.to_json()))
            },
            Some(json) => {
                let raw_id: Option<JsonValue> = match json.lookup("id") {
                    Some(v) => Some(v.clone()),
                    None => None,
                };
                match Request::from_json(json) {
                    Ok(request) => match self.handle_request(request) {
                        Some(mut response) => {
                            if let Some(idv) = raw_id {
                                response.set_id(idv);
                            }
                            let out = to_text(&response.to_json());
                            proof {
                                assert(out@ == json_text(response_json(response@)));
                            }
                            Some(out)
                        },
                        None => None,
                    },
                    Err(e) => {
                        let mut reply = Response::new(Err(e));
                        if let Some(idv) = raw_id {
                            reply.set_id(idv);
                        }
                        Some(to_text(&reply.to_json()))
                    },
                }
            },
        }
    }
}

impl<H: RequestHandler> ServerCallback for Responder<H> {
    fn handle_request(&mut self, request: String) -> Option<String> {
        self.respond(request.as_str())
    }
}

/// A server endpoint.  It holds the transport so that the transport lives
/// exactly as long as the endpoint.
pub struct ServerEndpoint<T: ServerTransport> {
    transport: T,
}

impl<T: ServerTransport> ServerEndpoint<T> {
    /// Builds a responder around `handler` and installs it as the
    /// transport's callback.
    pub fn new<H: RequestHandler>(transport: T, handler: H) -> ServerEndpoint<T> {
        let responder = Responder::new(handler);
        let mut transport = transport;
        transport.set_callback(responder);
        ServerEndpoint { transport }
    }
}

/// One thing the server's read loop sees: a frame of text, or a failure
/// classified into the transport taxonomy.
pub enum ReadEvent {
    Line(String),
    Failed(TransportError),
}

/// Whether an event ends the read loop: a line never does, and of the
/// failures only the transient ones are survived.
pub open spec fn read_event_fatal(e: ReadEvent) -> bool {
    match e {
        ReadEvent::Line(_) => false,
        ReadEvent::Failed(err) => !read_transient(err),
    }
}

/// A sequence is the prefix of itself with anything appended.
proof fn lemma_prefix_of_concat(prev: Seq<String>, grown: Seq<String>)
    ensures
        prev.len() <= (prev + grown).len(),
        prev == (prev + grown).take(prev.len() as int),
{
    assert(prev =~= (prev + grown).take(prev.len() as int));
}

/// The replies among one answer per event, in event order: what the read
/// loop queues when the callback answered each consumed event with
/// `answers[i]`.
pub open spec fn answered_replies(answers: Seq<Option<String>>) -> Seq<String>
    decreases answers.len(),
{
    if answers.len() == 0 {
        Seq::empty()
    } else {
        let rest = answered_replies(answers.drop_last());
        match answers.last() {
            Some(s) => rest.push(s),
            None => rest,
        }
    }
}

/// The verified core of the server's read loop: it holds the callback in
/// use and queues each reply.  The embedding application reads the lines,
/// feeds them in, and writes the queued replies out, separator included.
pub struct Reader<C> {
    /// The callback used to handle requests, once one is set.
    callback: Option<C>,
    /// Replies awaiting the writer, oldest first.
    replies: Vec<String>,
}

impl<C> Reader<C> {
    /// Whether a callback is in place.
    pub closed spec fn callback_set(&self) -> bool {
        self.callback is Some
    }

    /// The queued replies, oldest first.
    pub closed spec fn queued_replies(&self) -> Seq<String> {
        self.replies@
    }

    /// A reader with no callback and nothing queued.
    pub fn new() -> (r: Reader<C>)
        ensures
            !r.callback_set(),
            r.queued_replies() == Seq::<String>::empty(),
    {
        Reader { callback: None, replies: Vec::new() }
    }

    /// Installs the callback that lines are handed to.
    pub fn set_callback(&mut self, callback: C)
        ensures
            final(self).callback_set(),
            final(self).queued_replies() == old(self).queued_replies(),
    {
        self.callback = Some(callback);
    }
}

impl<C: ServerCallback> Reader<C> {
    /// Hands one line to the callback; without one there is no reply.
    pub fn handle_read_line(&mut self, line: String) -> (r: Option<String>)
        ensures
            final(self).queued_replies() == old(self).queued_replies(),
            final(self).callback_set() == old(self).callback_set(),
            !old(self).callback_set() ==> r is None,
    {
        match &mut self.callback {
            Some(callback) => callback.handle_request(line),
            None => None,
        }
    }

    /// Queues one reply for the writer.
    pub fn send_response(&mut self, response: &str)
        ensures
            final(self).callback_set() == old(self).callback_set(),
            final(self).queued_replies().len() == old(self).queued_replies().len() + 1,
            final(self).queued_replies().drop_last() == old(self).queued_replies(),
            final(self).queued_replies().last()@ == response@,
    {
        self.replies.push(response.to_owned());
        proof {
            assert(self.replies@.drop_last() =~= old(self).replies@);
        }
    }

    /// Hands the writer the oldest queued reply, if any.
    pub fn next_reply(&mut self) -> (r: Option<String>)
        ensures
            final(self).callback_set() == old(self).callback_set(),
            match r {
                Some(s) => old(self).queued_replies().len() > 0 && s == old(self).queued_replies()[0]
                    && final(self).queued_replies() == old(self).queued_replies().drop_first(),
                None => old(self).queued_replies().len() == 0 && final(self).queued_replies()
                    == old(self).queued_replies(),
            },
    {
        if self.replies.len() == 0 {
            return None;
        }
        let s = self.replies.remove(0);
        proof {
            assert(final(self).queued_replies() =~= old(self).queued_replies().drop_first());
        }
        Some(s)
    }

    /// Classifies a read failure: whether the loop must stop.
    pub fn handle_transport_error(&mut self, e: &TransportError) -> (fatal: bool)
        ensures
            fatal == !read_transient(*e),
            final(self).callback_set() == old(self).callback_set(),
            final(self).queued_replies() == old(self).queued_replies(),
    {
        match e {
            TransportError::TimedOut => false,
            TransportError::Interrupted => false,
            TransportError::ParseError => false,
            _ => true,
        }
    }

    /// Runs the read loop over the events of one connection, oldest first:
    /// each line goes to the callback, once, in order, to completion before
    /// the next event is considered, and any reply the callback gave is
    /// queued in that same order behind what was already queued; a transient
    /// failure costs that frame alone; the first fatal failure stops the
    /// loop.  Returns how many events were consumed before stopping.
    ///
    /// The queue only grows, the old queue a prefix of the new; what grew is
    /// exactly the callback's answers to the consumed events, one answer per
    /// event, a failure answering nothing.  The answers themselves are the
    /// callback's to give: its trait carries no contract.
    pub fn run(&mut self, events: &Vec<ReadEvent>) -> (consumed: usize)
        ensures
            final(self).callback_set() == old(self).callback_set(),
            consumed <= events@.len(),
            forall|i: int| 0 <= i < consumed ==> !read_event_fatal(events@[i]),
            consumed < events@.len() ==> read_event_fatal(events@[consumed as int]),
            old(self).queued_replies().len() <= final(self).queued_replies().len(),
            old(self).queued_replies() == final(self).queued_replies().take(
                old(self).queued_replies().len() as int,
            ),
            exists|answers: Seq<Option<String>>|
                {
                    &&& answers.len() == consumed
                    &&& (forall|i: int|
                        0 <= i < consumed && !(events@[i] is Line) ==> answers[i] is None)
                    &&& final(self).queued_replies() == old(self).queued_replies()
                        + #[trigger] answered_replies(answers)
                },
    {
        let n = events.len();
        let mut i: usize = 0;
        let ghost mut answers: Seq<Option<String>> = Seq::empty();
        proof {
            assert(old(self).queued_replies() + answered_replies(answers) =~= self
                .queued_replies());
        }
        while i < n
            invariant
                n == events@.len(),
                i <= n,
                self.callback_set() == old(self).callback_set(),
                forall|k: int| 0 <= k < i ==> !read_event_fatal(events@[k]),
                answers.len() == i,
                forall|k: int| 0 <= k < i && !(events@[k] is Line) ==> answers[k] is None,
                self.queued_replies() == old(self).queued_replies() + answered_replies(answers),
            decreases n - i,
        {
            match &events[i] {
                ReadEvent::Line(line) => {
                    let reply = self.handle_read_line(line.clone());
                    match reply {
                        Some(reply_text) => {
                            self.send_response(reply_text.as_str());
                            proof {
                                let appended = self.queued_replies().last();
                                let before = answers;
                                answers = answers.push(Some(appended));
                                assert(answers.drop_last() =~= before);
                                assert(answered_replies(answers) == answered_replies(
                                    before,
                                ).push(appended));
                                assert(self.queued_replies() =~= (old(self).queued_replies()
                                    + answered_replies(before)).push(appended));
                                assert(self.queued_replies() =~= old(self).queued_replies()
                                    + answered_replies(answers));
                            }
                        },
                        None => {
                            proof {
                                let before = answers;
                                answers = answers.push(None);
                                assert(answers.drop_last() =~= before);
                                assert(answered_replies(answers) == answered_replies(before));
                            }
                        },
                    }
                },
                ReadEvent::Failed(e) => {
                    if self.handle_transport_error(e) {
                        proof {
                            lemma_prefix_of_concat(
                                old(self).queued_replies(),
                                answered_replies(answers),
                            );
                        }
                        return i;
                    }
                    proof {
                        let before = answers;
                        answers = answers.push(None);
                        assert(answers.drop_last() =~= before);
                        assert(answered_replies(answers) == answered_replies(before));
                    }
                },
            }
            i += 1;
        }
        proof {
            lemma_prefix_of_concat(old(self).queued_replies(), answered_replies(answers));
        }
        n
    }
}

} // verus!
