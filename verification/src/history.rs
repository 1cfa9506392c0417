//! Runs of requests against one store, and what holds at their end.

use crate::clock::Timestamp;
use crate::decimal::decimal;
use crate::handler::{Command, Counters, RequestView, ResponseView};
use crate::laws::{deletes, gets, lemma_served_store, loads, served, sets};
use crate::store::Contents;
use crate::text::lemma_text_of_encoding;
use vstd::prelude::*;
use vstd::utf8::encode_utf8;

verus! {

/// A request with its response, and what the store held before and after.
pub struct Exchange {
    pub request: RequestView,
    pub counters: Counters,
    pub now: Timestamp,
    pub response: ResponseView,
    pub before: Contents,
    pub after: Contents,
}

impl Exchange {
    /// Whether the response and the store are as the service gives them.
    pub open spec fn is_served(self) -> bool {
        served(self.before, self.request, self.counters, self.now, self.response, self.after)
    }
}

/// What the store holds after the first `n` exchanges of a run that began
/// with `initial`.
pub open spec fn contents_at(initial: Contents, run: Seq<Exchange>, n: int) -> Contents {
    if n <= 0 {
        initial
    } else {
        run[n - 1].after
    }
}

/// Whether `run` is a run of the service on a store that held `initial`:
/// each request is served on what the one before it left, and none has the
/// store read a file.
pub open spec fn is_run(initial: Contents, run: Seq<Exchange>) -> bool {
    forall|i: int|
        0 <= i < run.len() ==> (#[trigger] run[i]).is_served() && !loads(run[i].request)
            && run[i].before == contents_at(initial, run, i)
}

/// Whether at the end of the run the key is set: a request has set it, and
/// none after that one has deleted it.
pub open spec fn is_live(run: Seq<Exchange>, key: Seq<char>) -> bool {
    exists|i: int| set_since(run, i, key)
}

/// Whether the request at `i` sets the key, and none after it deletes it.
pub open spec fn set_since(run: Seq<Exchange>, i: int, key: Seq<char>) -> bool {
    &&& 0 <= i < run.len()
    &&& sets(run[i].request, key)
    &&& forall|j: int| i < j < run.len() ==> !deletes((#[trigger] run[j]).request, key)
}

/// The keys that are set at the end of the run.
pub open spec fn live_keys(run: Seq<Exchange>) -> Set<Seq<char>> {
    Set::new(|key: Seq<char>| is_live(run, key))
}

/// A run without its last exchange is a run.
pub proof fn lemma_run_prefix(initial: Contents, run: Seq<Exchange>)
    requires
        is_run(initial, run),
        run.len() > 0,
    ensures
        is_run(initial, run.drop_last()),
        contents_at(initial, run.drop_last(), run.len() - 1) == run.last().before,
{
    let prefix = run.drop_last();
    assert forall|i: int| 0 <= i < prefix.len() implies (#[trigger] prefix[i]).is_served()
        && !loads(prefix[i].request) && prefix[i].before == contents_at(initial, prefix, i) by {
        assert(prefix[i] == run[i]);
        if i > 0 {
            assert(prefix[i - 1] == run[i - 1]);
        }
    }
    assert(run.last() == run[run.len() - 1]);
    if run.len() > 1 {
        assert(prefix[run.len() - 2] == run[run.len() - 2]);
    }
}

/// The last exchange decides whether a key is live: a `set` of the key
/// makes it so, a `del` of the key ends it, and anything else leaves it as
/// the run before left it.
pub proof fn lemma_live_step(run: Seq<Exchange>, key: Seq<char>)
    requires
        run.len() > 0,
    ensures
        is_live(run, key) == (sets(run.last().request, key) || (is_live(run.drop_last(), key)
            && !deletes(run.last().request, key))),
{
    let prefix = run.drop_last();
    let last = run.len() - 1;
    assert(run.last() == run[last]);
    if is_live(run, key) {
        let i = choose|i: int| set_since(run, i, key);
        if i < last {
            assert(!deletes(run[last].request, key));
            assert(prefix[i] == run[i]);
            assert forall|j: int| i < j < prefix.len() implies !deletes(
                (#[trigger] prefix[j]).request,
                key,
            ) by {
                assert(prefix[j] == run[j]);
            }
            assert(set_since(prefix, i, key));
        }
    }
    if sets(run.last().request, key) {
        assert(set_since(run, last, key));
    }
    if is_live(prefix, key) && !deletes(run.last().request, key) {
        let i = choose|i: int| set_since(prefix, i, key);
        assert(prefix[i] == run[i]);
        assert forall|j: int| i < j < run.len() implies !deletes((#[trigger] run[j]).request, key) by {
            if j < last {
                assert(prefix[j] == run[j]);
            }
        }
        assert(set_since(run, i, key));
    }
}

/// At the end of a run on a store that was empty, the store holds the keys
/// that have been set and not deleted since, and no others.
pub proof fn law_store_holds_live_keys(run: Seq<Exchange>)
    requires
        is_run(Map::empty(), run),
    ensures
        contents_at(Map::empty(), run, run.len() as int).dom() == live_keys(run),
        live_keys(run).finite(),
    decreases run.len(),
{
    let initial = Map::<Seq<char>, Seq<u8>>::empty();
    let end = contents_at(initial, run, run.len() as int);
    if run.len() == 0 {
        assert(end.dom() =~= live_keys(run));
    } else {
        let prefix = run.drop_last();
        let e = run.last();
        lemma_run_prefix(initial, run);
        law_store_holds_live_keys(prefix);
        assert(e == run[run.len() - 1]);
        assert(e.is_served() && !loads(e.request));
        lemma_served_store(e.before, e.request, e.counters, e.now, e.response, e.after);
        assert forall|key: Seq<char>| end.dom().contains(key) == live_keys(run).contains(key) by {
            lemma_live_step(run, key);
            assert(e.before.dom().contains(key) == live_keys(prefix).contains(key));
        }
        assert(end.dom() =~= live_keys(run));
        assert(e.before.dom().finite());
    }
}

/// After a run on a store that was empty, `dbsize` is answered with the
/// number of keys that have been set and not deleted since.
pub proof fn law_dbsize_counts_live_keys(
    run: Seq<Exchange>,
    request: RequestView,
    counters: Counters,
    now: Timestamp,
    response: ResponseView,
    after: Contents,
)
    requires
        is_run(Map::empty(), run),
        Command::named(request.cmd) == Command::DbSize,
        served(
            contents_at(Map::empty(), run, run.len() as int),
            request,
            counters,
            now,
            response,
            after,
        ),
    ensures
        response == ResponseView::ok(decimal(live_keys(run).len())),
{
    law_store_holds_live_keys(run);
}

/// From a `set` of a key on, as long as no request sets or deletes the key,
/// the store holds the value that was set.
pub proof fn lemma_value_kept(initial: Contents, run: Seq<Exchange>, i: int, n: int, key: Seq<char>)
    requires
        is_run(initial, run),
        0 <= i < n <= run.len(),
        sets(run[i].request, key),
        forall|j: int|
            i < j < n ==> !sets((#[trigger] run[j]).request, key) && !deletes(run[j].request, key),
    ensures
        contents_at(initial, run, n).contains_key(key),
        contents_at(initial, run, n)[key] == encode_utf8(run[i].request.params[1]),
    decreases n - i,
{
    let e = run[n - 1];
    assert(e.is_served() && !loads(e.request));
    lemma_served_store(e.before, e.request, e.counters, e.now, e.response, e.after);
    if n - 1 > i {
        lemma_value_kept(initial, run, i, n - 1, key);
    }
}

/// `set` and then `get` of the same key, with any requests between them
/// that neither set nor delete the key: the answer to `get` is `200 ok`
/// with the value that was set.
pub proof fn law_round_trip(initial: Contents, run: Seq<Exchange>, i: int, n: int, key: Seq<char>)
    requires
        is_run(initial, run),
        0 <= i < n < run.len(),
        sets(run[i].request, key),
        gets(run[n].request, key),
        forall|j: int|
            i < j < n ==> !sets((#[trigger] run[j]).request, key) && !deletes(run[j].request, key),
    ensures
        run[n].response == ResponseView::ok(run[i].request.params[1]),
{
    lemma_value_kept(initial, run, i, n, key);
    lemma_text_of_encoding(run[i].request.params[1]);
    assert(run[n].is_served());
}

} // verus!
