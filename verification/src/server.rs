//! The decisions of the serving loop.
//!
//! The loop itself waits for datagrams and sends replies; that is not done
//! here.  What is decided here is what each datagram leads to: the end of
//! the loop, a reply, or a call to the store whose answer then gives the
//! reply.

use crate::clock::Timestamp;
use crate::config::{Config, ConfigView};
use crate::handler::{
    decoded, dispatch, respond, Command, Counters, Dispatch, DispatchView, Handler, Request,
    Response, ResponseView, Status,
};
use crate::store::{StoreAnswer, StoreCall, StoreCallView};
use crate::text::{as_text, same_text, text_of, trim, trimmed};
use vstd::prelude::*;
use vstd::slice::slice_subrange;
use vstd::string::StrSliceExecFns;
use vstd::utf8::encode_utf8;

verus! {

/// The number of bytes of a datagram that the server reads.  What a
/// datagram holds beyond them is dropped.
pub const RECEIVE_BUFFER_SIZE: usize = 128;

/// A server with its configuration, its dispatcher, and whether it has been
/// told to stop.
#[derive(Debug, Default, Clone)]
pub struct Server {
    config: Config,
    handler: Handler,
    stopped: bool,
}

/// The mathematical value of a `Server`.
pub struct ServerView {
    pub config: ConfigView,
    pub counters: Counters,
    pub stopped: bool,
}

impl View for Server {
    type V = ServerView;

    closed spec fn view(&self) -> ServerView {
        ServerView { config: self.config@, counters: self.handler@, stopped: self.stopped }
    }
}

/// What the loop is to do for a datagram.
#[derive(Debug, Clone, PartialEq, Eq)]
pub enum Step {
    /// Send nothing, and end the loop.
    Stop,
    /// Send these bytes to the sender of the datagram.
    Reply(Vec<u8>),
    /// Have the store perform this call, and hand its answer to `complete`.
    Store(StoreCall),
}

/// The mathematical value of a `Step`.
pub enum StepView {
    Stop,
    Reply(Seq<u8>),
    Store(StoreCallView),
}

impl View for Step {
    type V = StepView;

    open spec fn view(&self) -> StepView {
        match self {
            Step::Stop => StepView::Stop,
            Step::Reply(bytes) => StepView::Reply(bytes@),
            Step::Store(call) => StepView::Store(call@),
        }
    }
}

/// The part of a datagram that the server reads.
pub open spec fn seen(datagram: Seq<u8>) -> Seq<u8> {
    if datagram.len() > RECEIVE_BUFFER_SIZE {
        datagram.take(RECEIVE_BUFFER_SIZE as int)
    } else {
        datagram
    }
}

/// The message that a datagram holds: its text, without the white space at
/// either end.
pub open spec fn message(datagram: Seq<u8>) -> Seq<char> {
    trimmed(as_text(seen(datagram)))
}

/// The bytes that go over the wire for a response.
pub open spec fn encoded(response: ResponseView) -> Seq<u8> {
    encode_utf8(response.wire_text())
}

/// The server after a datagram that arrives at the time `now`, and what the
/// loop is to do for it.
///
/// A server that was told to stop stays as it is.  The message `shutdown`
/// stops the server, and nothing is sent.  A message without a command is a
/// bad request, and the dispatcher does not see it.  Every other message is
/// a request for the dispatcher.
pub open spec fn received(server: ServerView, datagram: Seq<u8>, now: Timestamp) -> (
    ServerView,
    StepView,
) {
    if server.stopped {
        (server, StepView::Stop)
    } else if message(datagram) == "shutdown"@ {
        (ServerView { stopped: true, ..server }, StepView::Stop)
    } else {
        match decoded(message(datagram)) {
            Err(e) => (server, StepView::Reply(encoded(ResponseView::bad_request(e.text())))),
            Ok(request) => {
                let counters = server.counters.record(Command::named(request.cmd));
                let after = ServerView { counters, ..server };
                match dispatch(request, counters, now) {
                    DispatchView::Reply(response) => (after, StepView::Reply(encoded(response))),
                    DispatchView::Store(call) => (after, StepView::Store(call)),
                }
            },
        }
    }
}

/// The bytes that go over the wire for a response.
fn encode(response: &Response) -> (bytes: Vec<u8>)
    ensures
        bytes@ == encoded(response@),
{
    response.as_string().as_str().as_bytes_vec()
}

impl Server {
    /// A server, listening, with the given configuration and dispatcher.
    pub fn create(config: Config, handler: Handler) -> (server: Server)
        ensures
            server@ == (ServerView { config: config@, counters: handler@, stopped: false }),
    {
        Server { config, handler, stopped: false }
    }

    /// The address that the server binds to.
    pub fn address(&self) -> (s: String)
        ensures
            s@ == self@.config.address(),
    {
        self.config.address()
    }

    /// Whether the server has been told to stop.
    pub fn is_stopped(&self) -> (b: bool)
        ensures
            b == self@.stopped,
    {
        self.stopped
    }

    /// What the server has counted.
    pub fn counters(&self) -> (c: Counters)
        ensures
            c == self@.counters,
    {
        self.handler.counters()
    }

    /// Takes a datagram, at the time that the system clock shows.
    pub fn receive(&mut self, datagram: &[u8]) -> (step: Step)
        ensures
            exists|now: Timestamp| (final(self)@, step@) == received(old(self)@, datagram@, now),
            message(datagram@) == "shutdown"@ ==> step == Step::Stop && final(self)@.stopped,
    {
        let now = Timestamp::now();
        self.receive_at(datagram, now)
    }

    /// Takes a datagram that arrives at the time `now`.
    pub fn receive_at(&mut self, datagram: &[u8], now: Timestamp) -> (step: Step)
        ensures
            (final(self)@, step@) == received(old(self)@, datagram@, now),
            message(datagram@) == "shutdown"@ ==> step == Step::Stop && final(self)@.stopped,
    {
        if self.stopped {
            return Step::Stop;
        }
        let read = if datagram.len() > RECEIVE_BUFFER_SIZE {
            slice_subrange(datagram, 0, RECEIVE_BUFFER_SIZE)
        } else {
            datagram
        };
        let text = text_of(read);
        let msg = trim(text.as_str());
        assert(msg@ == message(datagram@));
        if same_text(msg, "shutdown") {
            self.stopped = true;
            return Step::Stop;
        }
        match Request::from_message(msg) {
            Err(e) => {
                let response = Response::create(Status::bad_request(), e.description());
                Step::Reply(encode(&response))
            },
            Ok(request) => match self.handler.handle_request_at(request, now) {
                Dispatch::Reply(response) => Step::Reply(encode(&response)),
                Dispatch::Store(call) => Step::Store(call),
            },
        }
    }

    /// The reply to a datagram for which the store performed `call` and
    /// answered `answer`.
    pub fn complete(&self, call: &StoreCall, answer: StoreAnswer) -> (bytes: Vec<u8>)
        ensures
            bytes@ == encoded(respond(call@, answer@)),
    {
        encode(&Handler::respond(call, answer))
    }
}

} // verus!
