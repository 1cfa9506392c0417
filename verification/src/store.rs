//! The key/value store, as the dispatcher sees it.
//!
//! The store itself is not part of this library.  The dispatcher names the
//! operation that it wants performed as a `StoreCall`; whoever owns the store
//! performs it and hands back a `StoreAnswer`.  What a store is expected to
//! answer, and how a call changes what it holds, is stated here over a map
//! from keys to values.

use crate::text::texts;
use vstd::prelude::*;

verus! {

/// What a store holds: at most one value for each key.
pub type Contents = Map<Seq<char>, Seq<u8>>;

/// An operation on the store.
#[derive(Debug, Clone, PartialEq, Eq)]
pub enum StoreCall {
    /// Look up the value of a key.
    Get { key: String },
    /// Give a key a value.
    Put { key: String, value: Vec<u8> },
    /// Remove a key and its value.
    Remove { key: String },
    /// Count the keys.
    Size,
    /// List the keys.
    Keys,
    /// Read entries from a file into the store.
    Load { filename: String },
    /// Write the entries of the store to a file.
    Save { filename: String },
}

/// The mathematical value of a `StoreCall`.
pub enum StoreCallView {
    Get { key: Seq<char> },
    Put { key: Seq<char>, value: Seq<u8> },
    Remove { key: Seq<char> },
    Size,
    Keys,
    Load { filename: Seq<char> },
    Save { filename: Seq<char> },
}

impl View for StoreCall {
    type V = StoreCallView;

    open spec fn view(&self) -> StoreCallView {
        match self {
            StoreCall::Get { key } => StoreCallView::Get { key: key@ },
            StoreCall::Put { key, value } => StoreCallView::Put { key: key@, value: value@ },
            StoreCall::Remove { key } => StoreCallView::Remove { key: key@ },
            StoreCall::Size => StoreCallView::Size,
            StoreCall::Keys => StoreCallView::Keys,
            StoreCall::Load { filename } => StoreCallView::Load { filename: filename@ },
            StoreCall::Save { filename } => StoreCallView::Save { filename: filename@ },
        }
    }
}

/// What the store hands back.
#[derive(Debug, Clone, PartialEq, Eq)]
pub enum StoreAnswer {
    /// The value of a key before the call, if it had one.
    Value(Option<Vec<u8>>),
    /// A number of entries.
    Count(usize),
    /// The keys.
    Keys(Vec<String>),
    /// The store could not perform the call.
    Failed,
}

/// The mathematical value of a `StoreAnswer`.
pub enum StoreAnswerView {
    Value(Option<Seq<u8>>),
    Count(nat),
    Keys(Seq<Seq<char>>),
    Failed,
}

impl View for StoreAnswer {
    type V = StoreAnswerView;

    open spec fn view(&self) -> StoreAnswerView {
        match self {
            StoreAnswer::Value(Some(value)) => StoreAnswerView::Value(Some(value@)),
            StoreAnswer::Value(None) => StoreAnswerView::Value(None),
            StoreAnswer::Count(n) => StoreAnswerView::Count(*n as nat),
            StoreAnswer::Keys(keys) => StoreAnswerView::Keys(texts(keys@)),
            StoreAnswer::Failed => StoreAnswerView::Failed,
        }
    }
}

/// The value that `contents` holds for `key`, if any.
pub open spec fn lookup(contents: Contents, key: Seq<char>) -> Option<Seq<u8>> {
    if contents.contains_key(key) {
        Some(contents[key])
    } else {
        None
    }
}

/// Whether `answer` is what a store that holds `before` may hand back for
/// `call`, holding `after` from then on.
///
/// Looking up, setting, removing and counting are fixed by what the store
/// holds.  The keys come in an order that the store chooses.  Of reading and
/// writing a file only the kind of answer is fixed, since the outcome
/// depends on the file; writing leaves the store as it was.
pub open spec fn fulfils(
    before: Contents,
    call: StoreCallView,
    answer: StoreAnswerView,
    after: Contents,
) -> bool {
    match call {
        StoreCallView::Get { key } => {
            &&& answer == StoreAnswerView::Value(lookup(before, key))
            &&& after == before
        },
        StoreCallView::Put { key, value } => {
            &&& answer == StoreAnswerView::Value(lookup(before, key))
            &&& after == before.insert(key, value)
        },
        StoreCallView::Remove { key } => {
            &&& answer == StoreAnswerView::Value(lookup(before, key))
            &&& after == before.remove(key)
        },
        StoreCallView::Size => {
            &&& answer == StoreAnswerView::Count(before.dom().len())
            &&& after == before
        },
        StoreCallView::Keys => {
            &&& answer matches StoreAnswerView::Keys(keys)
            &&& keys.no_duplicates()
            &&& keys.to_set() == before.dom()
            &&& after == before
        },
        StoreCallView::Load { filename } => {
            answer is Count || answer is Failed
        },
        StoreCallView::Save { filename } => {
            &&& answer is Count || answer is Failed
            &&& after == before
        },
    }
}

} // verus!
