//! What holds of the service as a whole.
//!
//! The store is not part of this library, so the laws that speak of it are
//! stated of every store that fulfils `store::fulfils`.

use crate::clock::Timestamp;
use crate::decimal::decimal;
use crate::handler::{
    decoded, dispatch, respond, Command, Counters, DispatchView, RequestView, ResponseView,
    StatusView,
};
use crate::parsers::{head, tail};
use crate::server::{encoded, message, received, ServerView, StepView};
use crate::store::{fulfils, lookup, Contents, StoreAnswerView, StoreCallView};
use crate::text::{
    as_text, is_space, lemma_text_of_encoding, lemma_words_first, space_free, words,
};
use vstd::prelude::*;
use vstd::utf8::encode_utf8;

verus! {

/// Each of the eleven command words names its command.
pub proof fn lemma_command_words()
    ensures
        Command::named("ping"@) == Command::Ping,
        Command::named("now"@) == Command::Now,
        Command::named("now_ns"@) == Command::NowNs,
        Command::named("status"@) == Command::Status,
        Command::named("get"@) == Command::Get,
        Command::named("set"@) == Command::Put,
        Command::named("del"@) == Command::Del,
        Command::named("dbsize"@) == Command::DbSize,
        Command::named("keys"@) == Command::Keys,
        Command::named("loaddb"@) == Command::LoadDb,
        Command::named("savedb"@) == Command::SaveDb,
{
    reveal_strlit("ping");
    reveal_strlit("now");
    reveal_strlit("now_ns");
    reveal_strlit("status");
    reveal_strlit("get");
    reveal_strlit("set");
    reveal_strlit("del");
    reveal_strlit("dbsize");
    reveal_strlit("keys");
    reveal_strlit("loaddb");
    reveal_strlit("savedb");
    assert("ping"@.len() == 4 && "keys"@.len() == 4);
    assert("now"@.len() == 3 && "get"@.len() == 3 && "set"@.len() == 3 && "del"@.len() == 3);
    assert("now_ns"@.len() == 6 && "status"@.len() == 6 && "dbsize"@.len() == 6 && "loaddb"@.len()
        == 6 && "savedb"@.len() == 6);
    assert("ping"@[0] == 'p' && "keys"@[0] == 'k');
    assert("now"@[0] == 'n' && "get"@[0] == 'g' && "set"@[0] == 's' && "del"@[0] == 'd');
    assert("now_ns"@[0] == 'n' && "status"@[0] == 's' && "dbsize"@[0] == 'd' && "loaddb"@[0]
        == 'l' && "savedb"@[1] == 'a' && "status"@[1] == 't');
}

/// The three status codes in decimal notation.
pub proof fn lemma_status_codes()
    ensures
        decimal(200) == "200"@,
        decimal(400) == "400"@,
        decimal(404) == "404"@,
{
    reveal_with_fuel(decimal, 3);
    reveal_strlit("200");
    reveal_strlit("400");
    reveal_strlit("404");
    assert(decimal(200) =~= "200"@);
    assert(decimal(400) =~= "400"@);
    assert(decimal(404) =~= "404"@);
}

/// A response goes over the wire as its code, its description and its body,
/// with colons between them.
pub proof fn lemma_wire_text(body: Seq<char>)
    ensures
        ResponseView::ok(body).wire_text() == "200:ok:"@ + body,
        ResponseView::bad_request(body).wire_text() == "400:bad-request:"@ + body,
        ResponseView::not_found(body).wire_text() == "404:not-found:"@ + body,
{
    lemma_status_codes();
    reveal_strlit("200");
    reveal_strlit("400");
    reveal_strlit("404");
    reveal_strlit("ok");
    reveal_strlit("bad-request");
    reveal_strlit("not-found");
    reveal_strlit("200:ok:");
    reveal_strlit("400:bad-request:");
    reveal_strlit("404:not-found:");
    assert(ResponseView::ok(body).wire_text() =~= "200:ok:"@ + body);
    assert(ResponseView::bad_request(body).wire_text() =~= "400:bad-request:"@ + body);
    assert(ResponseView::not_found(body).wire_text() =~= "404:not-found:"@ + body);
}

/// Whatever the request, the status of the response is one of `200 ok`,
/// `400 bad-request` and `404 not-found`: of a response that the dispatcher
/// gives at once, of one that follows an answer of the store, and of one
/// that the server sends.
pub proof fn law_status_is_known(
    request: RequestView,
    counters: Counters,
    now: Timestamp,
    call: StoreCallView,
    answer: StoreAnswerView,
    server: ServerView,
    datagram: Seq<u8>,
)
    ensures
        dispatch(request, counters, now) matches DispatchView::Reply(response)
            ==> response.status.is_known(),
        respond(call, answer).status.is_known(),
        received(server, datagram, now).1 matches StepView::Reply(bytes) ==> exists|
            response: ResponseView,
        |
            response.status.is_known() && bytes == #[trigger] encoded(response),
        forall|status: StatusView| #[trigger]
            status.is_known() ==> status.code == 200 || status.code == 400 || status.code == 404,
{
    if received(server, datagram, now).1 is Reply {
        match decoded(message(datagram)) {
            Err(e) => {
                let response = ResponseView::bad_request(e.text());
                assert(response.status.is_known() && received(server, datagram, now).1
                    == StepView::Reply(encoded(response)));
            },
            Ok(request) => {
                let counters = server.counters.record(Command::named(request.cmd));
                let response = dispatch(request, counters, now)->Reply_0;
                assert(response.status.is_known() && received(server, datagram, now).1
                    == StepView::Reply(encoded(response)));
            },
        }
    }
}

/// A text without white space is its own single word.
pub proof fn lemma_single_word(s: Seq<char>)
    requires
        s.len() > 0,
        space_free(s),
    ensures
        words(s) == seq![s],
        head(s) == s,
        tail(s) == Seq::<char>::empty(),
        decoded(s) == Ok::<RequestView, crate::handler::DecodeError>(
            RequestView { cmd: s, params: seq![Seq::<char>::empty()] },
        ),
{
    assert(s.take(s.len() as int) =~= s);
    lemma_words_first(s, s.len() as int);
    assert(s.skip(s.len() as int) =~= Seq::<char>::empty());
    assert(words(s) =~= seq![s]);
    assert(words(s).skip(1) =~= Seq::<Seq<char>>::empty());
    assert(crate::text::join(Seq::<Seq<char>>::empty()) == Seq::<char>::empty());
    assert(words(Seq::<char>::empty()) == Seq::<Seq<char>>::empty());
}

/// `ping` is answered with `200:ok:PONG`, whatever the parameters, the
/// counters, the time and the store: the dispatcher answers at once, and a
/// server that has not been told to stop sends that answer.
pub proof fn law_ping(
    params: Seq<Seq<char>>,
    counters: Counters,
    now: Timestamp,
    server: ServerView,
    datagram: Seq<u8>,
)
    ensures
        dispatch(RequestView { cmd: "ping"@, params }, counters, now) == DispatchView::Reply(
            ResponseView::ok("PONG"@),
        ),
        ResponseView::ok("PONG"@).wire_text() == "200:ok:PONG"@,
        !server.stopped && message(datagram) == "ping"@ ==> received(server, datagram, now).1
            == StepView::Reply(encode_utf8("200:ok:PONG"@)),
{
    lemma_wire_text("PONG"@);
    reveal_strlit("200:ok:");
    reveal_strlit("PONG");
    reveal_strlit("200:ok:PONG");
    reveal_strlit("ping");
    reveal_strlit("shutdown");
    assert("200:ok:"@ + "PONG"@ =~= "200:ok:PONG"@);
    if !server.stopped && message(datagram) == "ping"@ {
        assert("ping"@.len() == 4 && "shutdown"@.len() == 8);
        assert(space_free("ping"@)) by {
            assert forall|i: int| 0 <= i < "ping"@.len() implies !is_space(#[trigger] "ping"@[i]) by {
                assert("ping"@[0] == 'p' && "ping"@[1] == 'i' && "ping"@[2] == 'n' && "ping"@[3]
                    == 'g');
            }
        }
        lemma_single_word("ping"@);
    }
}

/// The message `shutdown` stops the server: nothing is sent, and nothing
/// is counted.  A server that was told to stop sends nothing any more.
pub proof fn law_shutdown(server: ServerView, datagram: Seq<u8>, now: Timestamp)
    ensures
        message(datagram) == "shutdown"@ ==> received(server, datagram, now).1 == StepView::Stop
            && received(server, datagram, now).0.stopped && received(
            server,
            datagram,
            now,
        ).0.counters == server.counters,
        server.stopped ==> received(server, datagram, now) == (server, StepView::Stop),
        received(server, datagram, now).1 == StepView::Stop ==> received(
            server,
            datagram,
            now,
        ).0.stopped,
{
}

/// Whether `response` may be the response to `request`, and `after` what
/// the store holds then, when the store held `before` and fulfils its
/// contract.
pub open spec fn served(
    before: Contents,
    request: RequestView,
    counters: Counters,
    now: Timestamp,
    response: ResponseView,
    after: Contents,
) -> bool {
    match dispatch(request, counters, now) {
        DispatchView::Reply(reply) => response == reply && after == before,
        DispatchView::Store(call) => exists|answer: StoreAnswerView| #[trigger]
            fulfils(before, call, answer, after) && response == respond(call, answer),
    }
}

/// Whether the request sets the key.
pub open spec fn sets(request: RequestView, key: Seq<char>) -> bool {
    Command::named(request.cmd) == Command::Put && request.params.len() == 2 && request.params[0]
        == key
}

/// Whether the request deletes the key.
pub open spec fn deletes(request: RequestView, key: Seq<char>) -> bool {
    Command::named(request.cmd) == Command::Del && request.params.len() >= 1 && request.params[0]
        == key
}

/// Whether the request asks for the key.
pub open spec fn gets(request: RequestView, key: Seq<char>) -> bool {
    Command::named(request.cmd) == Command::Get && request.params.len() >= 1 && request.params[0]
        == key
}

/// Whether the request has the store read a file.
pub open spec fn loads(request: RequestView) -> bool {
    Command::named(request.cmd) == Command::LoadDb && request.params.len() >= 1
}

/// What a request that reads no file does to the store: `set` gives the key
/// its value, `del` removes the key, and nothing else changes anything.
pub proof fn lemma_served_store(
    before: Contents,
    request: RequestView,
    counters: Counters,
    now: Timestamp,
    response: ResponseView,
    after: Contents,
)
    requires
        served(before, request, counters, now, response, after),
        !loads(request),
    ensures
        sets(request, request.params[0]) ==> after == before.insert(
            request.params[0],
            encode_utf8(request.params[1]),
        ),
        deletes(request, request.params[0]) ==> after == before.remove(request.params[0]),
        !sets(request, request.params[0]) && !deletes(request, request.params[0]) ==> after
            == before,
{
}

/// `del` twice in a row: both are answered with `200 ok`.  The first shows
/// the value that the key had, or `ok` where it had none, and removes the
/// key; the second shows `ok`, and changes nothing.
pub proof fn law_del_twice(
    key: Seq<char>,
    first: RequestView,
    second: RequestView,
    m0: Contents,
    c1: Counters,
    t1: Timestamp,
    r1: ResponseView,
    m1: Contents,
    c2: Counters,
    t2: Timestamp,
    r2: ResponseView,
    m2: Contents,
)
    requires
        deletes(first, key),
        deletes(second, key),
        served(m0, first, c1, t1, r1, m1),
        served(m1, second, c2, t2, r2, m2),
    ensures
        r1 == match lookup(m0, key) {
            Some(value) => ResponseView::ok(as_text(value)),
            None => ResponseView::ok("ok"@),
        },
        r2 == ResponseView::ok("ok"@),
        r1.status.code == 200 && r2.status.code == 200,
        m1 == m0.remove(key),
        m2 == m1,
{
    assert(m1.remove(key) =~= m1);
}

/// `set` and then `get` of the same key: the answer to `get` is `200 ok`
/// with the value that was set.
pub proof fn law_set_then_get(
    key: Seq<char>,
    value: Seq<char>,
    first: RequestView,
    second: RequestView,
    m0: Contents,
    c1: Counters,
    t1: Timestamp,
    r1: ResponseView,
    m1: Contents,
    c2: Counters,
    t2: Timestamp,
    r2: ResponseView,
    m2: Contents,
)
    requires
        sets(first, key),
        first.params[1] == value,
        gets(second, key),
        served(m0, first, c1, t1, r1, m1),
        served(m1, second, c2, t2, r2, m2),
    ensures
        r2 == ResponseView::ok(value),
        r2.wire_text() == "200:ok:"@ + value,
        r1 == match lookup(m0, key) {
            Some(previous) => ResponseView::ok(as_text(previous)),
            None => ResponseView::ok("ok"@),
        },
        m1 == m0.insert(key, encode_utf8(value)),
        m2 == m1,
{
    lemma_text_of_encoding(value);
    lemma_wire_text(value);
}

/// `dbsize` is answered with the number of keys that the store holds, and
/// `set` of a key that the store holds leaves that number as it is.
pub proof fn law_dbsize(
    request: RequestView,
    before: Contents,
    counters: Counters,
    now: Timestamp,
    response: ResponseView,
    after: Contents,
)
    requires
        served(before, request, counters, now, response, after),
    ensures
        Command::named(request.cmd) == Command::DbSize ==> response == ResponseView::ok(
            decimal(before.dom().len()),
        ) && after == before,
        sets(request, request.params[0]) && before.contains_key(request.params[0])
            ==> after.dom() == before.dom(),
{
    if sets(request, request.params[0]) && before.contains_key(request.params[0]) {
        assert(after.dom() =~= before.dom());
    }
}

/// The request that the words of a message make: the first word is the
/// command and the second the key; the words after these, with one space
/// between each two, are the value.
pub open spec fn request_of(ws: Seq<Seq<char>>) -> RequestView {
    if ws.len() <= 1 {
        RequestView { cmd: ws[0], params: seq![Seq::<char>::empty()] }
    } else if ws.len() == 2 {
        RequestView { cmd: ws[0], params: seq![ws[1]] }
    } else {
        RequestView { cmd: ws[0], params: seq![ws[1], crate::text::join(ws.skip(2))] }
    }
}

/// Decoding goes by the words of the message alone: the white space
/// between them and around them makes no difference.  A message without a
/// word holds no request.
pub proof fn law_decoded_by_words(msg: Seq<char>)
    ensures
        words(msg).len() == 0 ==> decoded(msg) == Err::<RequestView, crate::handler::DecodeError>(
            crate::handler::DecodeError::Empty,
        ),
        words(msg).len() > 0 ==> decoded(msg) == Ok::<RequestView, crate::handler::DecodeError>(
            request_of(words(msg)),
        ),
{
    let ws = words(msg);
    crate::text::lemma_words_well_formed(msg);
    if ws.len() > 0 {
        let rest = ws.skip(1);
        assert forall|i: int| 0 <= i < rest.len() implies (#[trigger] rest[i]).len() > 0
            && space_free(rest[i]) by {
            assert(rest[i] == ws[i + 1]);
        }
        crate::text::lemma_words_join(rest);
        assert(words(tail(msg)) == rest);
        if rest.len() > 0 {
            let more = rest.skip(1);
            assert(more =~= ws.skip(2));
            assert forall|i: int| 0 <= i < more.len() implies (#[trigger] more[i]).len() > 0
                && space_free(more[i]) by {
                assert(more[i] == ws[i + 2]);
            }
            crate::text::lemma_words_join(more);
            assert(rest[0] == ws[1]);
        }
        assert(decoded(msg)->Ok_0.params =~= request_of(ws).params);
    }
}

} // verus!
