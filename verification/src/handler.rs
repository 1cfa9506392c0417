//! Requests, responses and the command dispatcher.

use crate::clock::Timestamp;
use crate::decimal::{decimal, parsed, push_decimal, to_decimal, NumberError};
use crate::parsers::{as_number, head, split2, tail};
use crate::store::{StoreAnswer, StoreAnswerView, StoreCall, StoreCallView};
use crate::text::{as_text, same_text, text_of, texts};
use vstd::prelude::*;
use vstd::string::StrSliceExecFns;
use vstd::utf8::encode_utf8;

verus! {

/// A command and its parameters, as a client sent them.
#[derive(Debug, Default, Clone, PartialEq, Eq)]
pub struct Request {
    pub cmd: String,
    pub params: Vec<String>,
}

/// The mathematical value of a `Request`.
pub struct RequestView {
    pub cmd: Seq<char>,
    pub params: Seq<Seq<char>>,
}

impl View for Request {
    type V = RequestView;

    open spec fn view(&self) -> RequestView {
        RequestView { cmd: self.cmd@, params: crate::text::texts(self.params@) }
    }
}

/// Why a message is no request.
#[derive(Debug, Clone, Copy, PartialEq, Eq, Structural)]
pub enum DecodeError {
    /// The message holds no command.
    Empty,
}

impl DecodeError {
    /// What a response says of this error.
    pub open spec fn text(self) -> Seq<char> {
        Seq::empty()
    }

    /// What a response says of this error: of a message without a command,
    /// the command that it holds, which is nothing.
    pub fn description(&self) -> (s: String)
        ensures
            s@ == self.text(),
    {
        String::new()
    }
}

/// The request that a message holds.
///
/// The head of the message is the command.  The tail is split in the same
/// way: its head is the key, and its tail, if there is one, the value.
pub open spec fn decoded(msg: Seq<char>) -> Result<RequestView, DecodeError> {
    let key = head(tail(msg));
    let value = tail(tail(msg));
    if head(msg).len() == 0 {
        Err(DecodeError::Empty)
    } else if value.len() == 0 {
        Ok(RequestView { cmd: head(msg), params: seq![key] })
    } else {
        Ok(RequestView { cmd: head(msg), params: seq![key, value] })
    }
}

impl Request {
    /// Parses a message into a request.
    pub fn from_message(msg: &str) -> (r: Result<Request, DecodeError>)
        ensures
            match r {
                Ok(request) => decoded(msg@) == Ok::<RequestView, DecodeError>(request@),
                Err(e) => decoded(msg@) == Err::<RequestView, DecodeError>(e),
            },
    {
        let (cmd, rest) = split2(msg);
        if cmd.as_str().is_empty() {
            return Err(DecodeError::Empty);
        }
        let (key, value) = split2(rest.as_str());
        let mut params: Vec<String> = Vec::new();
        let single = value.as_str().is_empty();
        params.push(key);
        if !single {
            params.push(value);
        }
        let request = Request { cmd, params };
        proof {
            let expected = decoded(msg@)->Ok_0;
            assert(request@.params =~= expected.params);
        }
        Ok(request)
    }
}

/// The class of an outcome: a code and the word for it.
#[derive(Debug, Default, Clone, PartialEq, Eq)]
pub struct Status {
    pub code: u16,
    pub description: String,
}

/// The mathematical value of a `Status`.
pub struct StatusView {
    pub code: u16,
    pub description: Seq<char>,
}

impl View for Status {
    type V = StatusView;

    open spec fn view(&self) -> StatusView {
        StatusView { code: self.code, description: self.description@ }
    }
}

impl StatusView {
    /// The status of a request that was served.
    pub open spec fn ok() -> StatusView {
        StatusView { code: 200, description: "ok"@ }
    }

    /// The status of a request that cannot be served as it was sent.
    pub open spec fn bad_request() -> StatusView {
        StatusView { code: 400, description: "bad-request"@ }
    }

    /// The status of a request for a key that the store does not hold.
    pub open spec fn not_found() -> StatusView {
        StatusView { code: 404, description: "not-found"@ }
    }

    /// Whether this is one of the three statuses that the service gives.
    pub open spec fn is_known(self) -> bool {
        self == StatusView::ok() || self == StatusView::bad_request() || self
            == StatusView::not_found()
    }
}

impl Status {
    pub fn ok() -> (s: Status)
        ensures
            s@ == StatusView::ok(),
    {
        Status { code: 200, description: String::from_str("ok") }
    }

    pub fn bad_request() -> (s: Status)
        ensures
            s@ == StatusView::bad_request(),
    {
        Status { code: 400, description: String::from_str("bad-request") }
    }

    pub fn not_found() -> (s: Status)
        ensures
            s@ == StatusView::not_found(),
    {
        Status { code: 404, description: String::from_str("not-found") }
    }
}

/// What the service sends back for a request.
#[derive(Debug, Default, Clone, PartialEq, Eq)]
pub struct Response {
    pub status: Status,
    pub body: String,
}

/// The mathematical value of a `Response`.
pub struct ResponseView {
    pub status: StatusView,
    pub body: Seq<char>,
}

impl View for Response {
    type V = ResponseView;

    open spec fn view(&self) -> ResponseView {
        ResponseView { status: self.status@, body: self.body@ }
    }
}

impl ResponseView {
    /// The response to a request that was served.
    pub open spec fn ok(body: Seq<char>) -> ResponseView {
        ResponseView { status: StatusView::ok(), body }
    }

    /// The response to a request that cannot be served as it was sent.
    pub open spec fn bad_request(body: Seq<char>) -> ResponseView {
        ResponseView { status: StatusView::bad_request(), body }
    }

    /// The response to a request for a key that the store does not hold.
    pub open spec fn not_found(body: Seq<char>) -> ResponseView {
        ResponseView { status: StatusView::not_found(), body }
    }

    /// The response as it goes over the wire: the code, the description and
    /// the body, with a colon after each of the first two.  Nothing is
    /// escaped: a colon in the body stands as it is.
    pub open spec fn wire_text(self) -> Seq<char> {
        decimal(self.status.code as nat) + seq![':'] + self.status.description + seq![':']
            + self.body
    }
}

impl Response {
    /// A response with the status `ok`.
    pub fn create_ok(body: String) -> (r: Response)
        ensures
            r@ == ResponseView::ok(body@),
    {
        Response { status: Status::ok(), body }
    }

    /// A response with the given status, most often that of an error.
    pub fn create(status: Status, body: String) -> (r: Response)
        ensures
            r.status == status,
            r.body == body,
            r@ == (ResponseView { status: status@, body: body@ }),
    {
        Response { status, body }
    }

    /// The body as a number that fits `usize`.
    pub fn as_usize(&self) -> (r: Result<usize, NumberError>)
        ensures
            match r {
                Ok(n) => parsed(self.body@, usize::MAX as nat) == Ok::<nat, NumberError>(n as nat),
                Err(e) => parsed(self.body@, usize::MAX as nat) == Err::<nat, NumberError>(e),
            },
    {
        match as_number(self.body.as_str(), usize::MAX as u64) {
            Ok(n) => Ok(n as usize),
            Err(e) => Err(e),
        }
    }

    /// The body as a number that fits `u64`.
    pub fn as_u64(&self) -> (r: Result<u64, NumberError>)
        ensures
            match r {
                Ok(n) => parsed(self.body@, u64::MAX as nat) == Ok::<nat, NumberError>(n as nat),
                Err(e) => parsed(self.body@, u64::MAX as nat) == Err::<nat, NumberError>(e),
            },
    {
        as_number(self.body.as_str(), u64::MAX)
    }

    /// The response as it goes over the wire.
    pub fn as_string(&self) -> (s: String)
        ensures
            s@ == self@.wire_text(),
    {
        let mut s = String::new();
        push_decimal(&mut s, self.status.code as u128);
        s.append(":");
        s.append(self.status.description.as_str());
        s.append(":");
        s.append(self.body.as_str());
        proof {
            reveal_strlit(":");
            assert(":"@ =~= seq![':']);
            assert(s@ =~= self@.wire_text());
        }
        s
    }
}

/// The commands that the service knows.
#[derive(Debug, Clone, Copy, PartialEq, Eq, Structural)]
pub enum Command {
    Ping,
    Now,
    NowNs,
    Status,
    Get,
    Put,
    Del,
    DbSize,
    Keys,
    LoadDb,
    SaveDb,
    /// Any other word.
    Unknown,
}

impl Command {
    /// The command that a word names.  Upper and lower case differ.
    pub open spec fn named(word: Seq<char>) -> Command {
        if word == "ping"@ {
            Command::Ping
        } else if word == "now"@ {
            Command::Now
        } else if word == "now_ns"@ {
            Command::NowNs
        } else if word == "status"@ {
            Command::Status
        } else if word == "get"@ {
            Command::Get
        } else if word == "set"@ {
            Command::Put
        } else if word == "del"@ {
            Command::Del
        } else if word == "dbsize"@ {
            Command::DbSize
        } else if word == "keys"@ {
            Command::Keys
        } else if word == "loaddb"@ {
            Command::LoadDb
        } else if word == "savedb"@ {
            Command::SaveDb
        } else {
            Command::Unknown
        }
    }

    /// The command that `word` names.
    pub fn parse(word: &str) -> (c: Command)
        ensures
            c == Command::named(word@),
    {
        if same_text(word, "ping") {
            Command::Ping
        } else if same_text(word, "now") {
            Command::Now
        } else if same_text(word, "now_ns") {
            Command::NowNs
        } else if same_text(word, "status") {
            Command::Status
        } else if same_text(word, "get") {
            Command::Get
        } else if same_text(word, "set") {
            Command::Put
        } else if same_text(word, "del") {
            Command::Del
        } else if same_text(word, "dbsize") {
            Command::DbSize
        } else if same_text(word, "keys") {
            Command::Keys
        } else if same_text(word, "loaddb") {
            Command::LoadDb
        } else if same_text(word, "savedb") {
            Command::SaveDb
        } else {
            Command::Unknown
        }
    }
}

/// What the service counts: the requests that it handled, those among them
/// that named no command, and the time at which it started.
#[derive(Debug, Default, Clone, Copy, PartialEq, Eq, Structural)]
pub struct Counters {
    pub start_time: u64,
    pub access: u64,
    pub errors: u64,
}

impl Counters {
    /// The counters of a service that starts at `start_time`.
    pub open spec fn started(start_time: u64) -> Counters {
        Counters { start_time, access: 0, errors: 0 }
    }

    /// One more, as far as the counter can count.
    pub open spec fn bump(n: u64) -> u64 {
        if n < u64::MAX {
            (n + 1) as u64
        } else {
            n
        }
    }

    /// The counters after a request with the given command.
    pub open spec fn record(self, command: Command) -> Counters {
        Counters {
            start_time: self.start_time,
            access: Counters::bump(self.access),
            errors: if command == Command::Unknown {
                Counters::bump(self.errors)
            } else {
                self.errors
            },
        }
    }

    /// The counters never go back, and the start time stays.
    pub proof fn lemma_record_grows(self, command: Command)
        ensures
            self.record(command).start_time == self.start_time,
            self.record(command).access >= self.access,
            self.record(command).errors >= self.errors,
            self.access < u64::MAX ==> self.record(command).access == self.access + 1,
            command != Command::Unknown ==> self.record(command).errors == self.errors,
    {
    }

    /// What the command `status` answers.
    pub open spec fn summary(self) -> Seq<char> {
        "start_time: "@ + decimal(self.start_time as nat) + ", access: "@ + decimal(
            self.access as nat,
        ) + ", errors: "@ + decimal(self.errors as nat)
    }

    /// What the command `status` answers.
    pub fn to_text(&self) -> (s: String)
        ensures
            s@ == self.summary(),
    {
        let mut s = String::from_str("start_time: ");
        push_decimal(&mut s, self.start_time as u128);
        s.append(", access: ");
        push_decimal(&mut s, self.access as u128);
        s.append(", errors: ");
        push_decimal(&mut s, self.errors as u128);
        assert(s@ =~= self.summary());
        s
    }
}

/// What the dispatcher decides for a request: to answer at once, or to have
/// the store perform a call first.
#[derive(Debug, Clone, PartialEq, Eq)]
pub enum Dispatch {
    Reply(Response),
    Store(StoreCall),
}

/// The mathematical value of a `Dispatch`.
pub enum DispatchView {
    Reply(ResponseView),
    Store(StoreCallView),
}

impl View for Dispatch {
    type V = DispatchView;

    open spec fn view(&self) -> DispatchView {
        match self {
            Dispatch::Reply(response) => DispatchView::Reply(response@),
            Dispatch::Store(call) => DispatchView::Store(call@),
        }
    }
}

/// The list of keys as the command `keys` shows it: what `{:?}` writes for a
/// vector of strings.
pub uninterp spec fn rendered_keys(keys: Seq<Seq<char>>) -> Seq<char>;

/// `format!("{:?}", keys)`: the keys between square brackets, each in double
/// quotes and escaped as `Debug` does it.  The contract names the result.
#[verifier::external_body]
fn render_keys(keys: &Vec<String>) -> (s: String)
    ensures
        s@ == rendered_keys(texts(keys@)),
{
    format!("{:?}", keys)
}

/// What the dispatcher decides for `request`, at the time `now`, when
/// `counters` are the counters after the request.
///
/// A command that needs a key finds it in the first parameter; `set` takes
/// exactly two parameters.  A request that lacks a parameter is a bad
/// request, and so is one with an unknown command.
pub open spec fn dispatch(request: RequestView, counters: Counters, now: Timestamp) -> DispatchView {
    let n = request.params.len();
    match Command::named(request.cmd) {
        Command::Ping => DispatchView::Reply(ResponseView::ok("PONG"@)),
        Command::Now => DispatchView::Reply(ResponseView::ok(decimal(now.secs as nat))),
        Command::NowNs => DispatchView::Reply(ResponseView::ok(decimal(now.nanoseconds()))),
        Command::Status => DispatchView::Reply(ResponseView::ok(counters.summary())),
        Command::Get => if n >= 1 {
            DispatchView::Store(StoreCallView::Get { key: request.params[0] })
        } else {
            DispatchView::Reply(ResponseView::bad_request(request.cmd))
        },
        Command::Put => if n == 2 {
            DispatchView::Store(
                StoreCallView::Put { key: request.params[0], value: encode_utf8(request.params[1]) },
            )
        } else {
            DispatchView::Reply(ResponseView::bad_request(request.cmd))
        },
        Command::Del => if n >= 1 {
            DispatchView::Store(StoreCallView::Remove { key: request.params[0] })
        } else {
            DispatchView::Reply(ResponseView::bad_request(request.cmd))
        },
        Command::DbSize => DispatchView::Store(StoreCallView::Size),
        Command::Keys => DispatchView::Store(StoreCallView::Keys),
        Command::LoadDb => if n >= 1 {
            DispatchView::Store(StoreCallView::Load { filename: request.params[0] })
        } else {
            DispatchView::Reply(ResponseView::bad_request(request.cmd))
        },
        Command::SaveDb => if n >= 1 {
            DispatchView::Store(StoreCallView::Save { filename: request.params[0] })
        } else {
            DispatchView::Reply(ResponseView::bad_request(request.cmd))
        },
        Command::Unknown => DispatchView::Reply(ResponseView::bad_request(request.cmd)),
    }
}

/// The response to a request for which the store performed `call` and
/// answered `answer`.
///
/// A value is shown as text, with what is not UTF-8 in it replaced.  An
/// answer of another kind than the call asks for, or a store that failed, is
/// a bad request: with the name of the file for calls that read or write
/// one, and with the name of the command for the others.
pub open spec fn respond(call: StoreCallView, answer: StoreAnswerView) -> ResponseView {
    match call {
        StoreCallView::Get { key } => match answer {
            StoreAnswerView::Value(Some(value)) => ResponseView::ok(as_text(value)),
            StoreAnswerView::Value(None) => ResponseView::not_found(key),
            _ => ResponseView::bad_request("get"@),
        },
        StoreCallView::Put { key, value } => match answer {
            StoreAnswerView::Value(Some(previous)) => ResponseView::ok(as_text(previous)),
            StoreAnswerView::Value(None) => ResponseView::ok("ok"@),
            _ => ResponseView::bad_request("set"@),
        },
        StoreCallView::Remove { key } => match answer {
            StoreAnswerView::Value(Some(previous)) => ResponseView::ok(as_text(previous)),
            StoreAnswerView::Value(None) => ResponseView::ok("ok"@),
            _ => ResponseView::bad_request("del"@),
        },
        StoreCallView::Size => match answer {
            StoreAnswerView::Count(n) => ResponseView::ok(decimal(n)),
            _ => ResponseView::bad_request("dbsize"@),
        },
        StoreCallView::Keys => match answer {
            StoreAnswerView::Keys(keys) => ResponseView::ok(rendered_keys(keys)),
            _ => ResponseView::bad_request("keys"@),
        },
        StoreCallView::Load { filename } => match answer {
            StoreAnswerView::Count(n) => ResponseView::ok(decimal(n)),
            _ => ResponseView::bad_request(filename),
        },
        StoreCallView::Save { filename } => match answer {
            StoreAnswerView::Count(n) => ResponseView::ok(decimal(n)),
            _ => ResponseView::bad_request(filename),
        },
    }
}

/// The command dispatcher: it maps each request to one response, and
/// counts.
#[derive(Debug, Default, Clone)]
pub struct Handler {
    status: Counters,
}

impl View for Handler {
    type V = Counters;

    closed spec fn view(&self) -> Counters {
        self.status
    }
}

/// A bad request that names the command.
fn refuse(request: Request) -> (d: Dispatch)
    ensures
        d@ == DispatchView::Reply(ResponseView::bad_request(request@.cmd)),
{
    Dispatch::Reply(Response::create(Status::bad_request(), request.cmd))
}

/// A response with the status `ok` and a number as its body.
fn count_reply(n: u128) -> (r: Response)
    ensures
        r@ == ResponseView::ok(decimal(n as nat)),
{
    Response::create_ok(to_decimal(n))
}

/// The response that shows the value that a key had, or `ok` for none.
fn previous_reply(previous: Option<Vec<u8>>) -> (r: Response)
    ensures
        r@ == match previous {
            Some(value) => ResponseView::ok(as_text(value@)),
            None => ResponseView::ok("ok"@),
        },
{
    match previous {
        Some(value) => Response::create_ok(text_of(value.as_slice())),
        None => Response::create_ok(String::from_str("ok")),
    }
}

/// A bad request with the given body.
fn bad_request(body: &str) -> (r: Response)
    ensures
        r@ == ResponseView::bad_request(body@),
{
    Response::create(Status::bad_request(), String::from_str(body))
}

impl Handler {
    /// A handler that starts now.
    pub fn new() -> (handler: Handler)
        ensures
            handler@.access == 0,
            handler@.errors == 0,
    {
        Handler::started_at(Timestamp::now().as_secs())
    }

    /// A handler that started at the given time, in seconds since the epoch.
    pub fn started_at(start_time: u64) -> (handler: Handler)
        ensures
            handler@ == Counters::started(start_time),
    {
        Handler { status: Counters { start_time, access: 0, errors: 0 } }
    }

    /// What the handler has counted.
    pub fn counters(&self) -> (c: Counters)
        ensures
            c == self@,
    {
        self.status
    }

    /// Counts a request with the given command.
    fn count(&mut self, command: Command)
        ensures
            final(self)@ == old(self)@.record(command),
    {
        if self.status.access < u64::MAX {
            self.status.access = self.status.access + 1;
        }
        if command == Command::Unknown && self.status.errors < u64::MAX {
            self.status.errors = self.status.errors + 1;
        }
    }

    /// Counts the request and decides what to do for it, at the time that
    /// the system clock shows.
    pub fn handle_request(&mut self, request: Request) -> (d: Dispatch)
        ensures
            final(self)@ == old(self)@.record(Command::named(request@.cmd)),
            exists|now: Timestamp| d@ == dispatch(request@, final(self)@, now),
            d matches Dispatch::Reply(response) ==> response@.status.is_known(),
    {
        let now = Timestamp::now();
        self.handle_request_at(request, now)
    }

    /// Counts the request and decides what to do for it, at the time `now`.
    pub fn handle_request_at(&mut self, request: Request, now: Timestamp) -> (d: Dispatch)
        ensures
            final(self)@ == old(self)@.record(Command::named(request@.cmd)),
            d@ == dispatch(request@, final(self)@, now),
            d matches Dispatch::Reply(response) ==> response@.status.is_known(),
    {
        let command = Command::parse(request.cmd.as_str());
        self.count(command);
        let n = request.params.len();
        proof {
            assert(request@.params.len() == n);
            assert(forall|i: int| 0 <= i < n ==> request@.params[i] == request.params@[i]@);
        }
        match command {
            Command::Ping => Dispatch::Reply(Response::create_ok(String::from_str("PONG"))),
            Command::Now => Dispatch::Reply(count_reply(now.as_secs() as u128)),
            Command::NowNs => Dispatch::Reply(count_reply(now.as_nanos())),
            Command::Status => Dispatch::Reply(Response::create_ok(self.status.to_text())),
            Command::Get => if n >= 1 {
                Dispatch::Store(StoreCall::Get { key: request.params[0].clone() })
            } else {
                refuse(request)
            },
            Command::Put => if n == 2 {
                let key = request.params[0].clone();
                let value = request.params[1].as_str().as_bytes_vec();
                Dispatch::Store(StoreCall::Put { key, value })
            } else {
                refuse(request)
            },
            Command::Del => if n >= 1 {
                Dispatch::Store(StoreCall::Remove { key: request.params[0].clone() })
            } else {
                refuse(request)
            },
            Command::DbSize => Dispatch::Store(StoreCall::Size),
            Command::Keys => Dispatch::Store(StoreCall::Keys),
            Command::LoadDb => if n >= 1 {
                Dispatch::Store(StoreCall::Load { filename: request.params[0].clone() })
            } else {
                refuse(request)
            },
            Command::SaveDb => if n >= 1 {
                Dispatch::Store(StoreCall::Save { filename: request.params[0].clone() })
            } else {
                refuse(request)
            },
            Command::Unknown => refuse(request),
        }
    }

    /// The response to a request for which the store performed `call` and
    /// answered `answer`.
    pub fn respond(call: &StoreCall, answer: StoreAnswer) -> (r: Response)
        ensures
            r@ == respond(call@, answer@),
            r@.status.is_known(),
    {
        match call {
            StoreCall::Get { key } => match answer {
                StoreAnswer::Value(Some(value)) => Response::create_ok(text_of(value.as_slice())),
                StoreAnswer::Value(None) => Response::create(Status::not_found(), key.clone()),
                _ => bad_request("get"),
            },
            StoreCall::Put { key, value } => match answer {
                StoreAnswer::Value(previous) => previous_reply(previous),
                _ => bad_request("set"),
            },
            StoreCall::Remove { key } => match answer {
                StoreAnswer::Value(previous) => previous_reply(previous),
                _ => bad_request("del"),
            },
            StoreCall::Size => match answer {
                StoreAnswer::Count(n) => count_reply(n as u128),
                _ => bad_request("dbsize"),
            },
            StoreCall::Keys => match answer {
                StoreAnswer::Keys(keys) => Response::create_ok(render_keys(&keys)),
                _ => bad_request("keys"),
            },
            StoreCall::Load { filename } => match answer {
                StoreAnswer::Count(n) => count_reply(n as u128),
                _ => bad_request(filename.as_str()),
            },
            StoreCall::Save { filename } => match answer {
                StoreAnswer::Count(n) => count_reply(n as u128),
                _ => bad_request(filename.as_str()),
            },
        }
    }
}

} // verus!
