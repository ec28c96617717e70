//! The command proxy: what each of the three operations answers, given what
//! the store returned.
//!
//! `ping` consults no store. A `get` reads one key and a `set` writes one; the
//! caller performs the read or the write and hands its result to
//! [`get_response`] or [`set_response`], which decide the answer.

use vstd::prelude::*;
use crate::store::{
    lemma_writes_keep_other_keys, read_view, targets, ReadView, StoreFault, StoreState,
};

verus! {

/// Status of an answer that carries the result of the operation.
pub const STATUS_OK: u16 = 200;

/// Status of a write that the store did not carry out.
pub const STATUS_BAD_REQUEST: u16 = 400;

/// Status of a read that the store did not carry out.
pub const STATUS_INTERNAL_ERROR: u16 = 500;

/// The acknowledgment text of `ping`.
pub open spec fn pong_text() -> Seq<char> {
    "Pong"@
}

/// The text shown in place of a value for a key that the store does not hold.
pub open spec fn absent_text() -> Seq<char> {
    "None"@
}

/// Acknowledges a liveness probe. It takes no store and cannot fail.
pub fn ping() -> (text: &'static str)
    ensures
        text@ == pong_text(),
{
    "Pong"
}

/// The answer to a `get`.
#[derive(Debug, PartialEq, Eq)]
pub enum GetResponse {
    /// The key is held, with this value.
    Found(String),
    /// The key is not held. This differs from every `Found`, also from one
    /// whose value reads like the text shown for an absent key.
    Absent,
    /// The store did not carry out the read.
    Unavailable,
}

/// A `GetResponse` with its value as plain text.
pub enum GetOutcome {
    Found(Seq<char>),
    Absent,
    Unavailable,
}

impl View for GetResponse {
    type V = GetOutcome;

    open spec fn view(&self) -> GetOutcome {
        match self {
            GetResponse::Found(value) => GetOutcome::Found(value@),
            GetResponse::Absent => GetOutcome::Absent,
            GetResponse::Unavailable => GetOutcome::Unavailable,
        }
    }
}

impl GetOutcome {
    /// The status that the answer is sent with: a failed read is a fault of
    /// the server's side, an absent key is none.
    pub open spec fn status(self) -> u16 {
        match self {
            GetOutcome::Found(_) => STATUS_OK,
            GetOutcome::Absent => STATUS_OK,
            GetOutcome::Unavailable => STATUS_INTERNAL_ERROR,
        }
    }

    /// The body that the answer is sent with: the value, the text for an
    /// absent key, or nothing.
    pub open spec fn text(self) -> Seq<char> {
        match self {
            GetOutcome::Found(value) => value,
            GetOutcome::Absent => absent_text(),
            GetOutcome::Unavailable => Seq::empty(),
        }
    }
}

/// The answer that a read's result calls for.
pub open spec fn get_outcome(read: ReadView) -> GetOutcome {
    match read {
        Ok(Some(value)) => GetOutcome::Found(value),
        Ok(None) => GetOutcome::Absent,
        Err(_) => GetOutcome::Unavailable,
    }
}

/// Answers a `get` from the result of the read of its key.
pub fn get_response(read: Result<Option<String>, StoreFault>) -> (response: GetResponse)
    ensures
        response@ == get_outcome(read_view(read)),
{
    match read {
        Ok(Some(value)) => GetResponse::Found(value),
        Ok(None) => GetResponse::Absent,
        Err(_) => GetResponse::Unavailable,
    }
}

impl GetResponse {
    /// The status that the answer is sent with.
    pub fn status(&self) -> (status: u16)
        ensures
            status == self@.status(),
    {
        match self {
            GetResponse::Found(_) => STATUS_OK,
            GetResponse::Absent => STATUS_OK,
            GetResponse::Unavailable => STATUS_INTERNAL_ERROR,
        }
    }

    /// Whether the key is not held. The body alone cannot tell: a held value
    /// may read like the text for an absent key.
    pub fn is_absent(&self) -> (absent: bool)
        ensures
            absent == (self@ == GetOutcome::Absent),
    {
        match self {
            GetResponse::Absent => true,
            _ => false,
        }
    }

    /// The body that the answer is sent with.
    pub fn text(&self) -> (text: String)
        ensures
            text@ == self@.text(),
    {
        match self {
            GetResponse::Found(value) => value.clone(),
            GetResponse::Absent => String::from_str("None"),
            GetResponse::Unavailable => String::new(),
        }
    }
}

/// The answer to a `set`. Neither carries a body.
#[derive(Clone, Copy, Debug, PartialEq, Eq, Structural)]
pub enum SetResponse {
    /// The store carried out the write.
    Stored,
    /// The store did not carry out the write.
    Rejected,
}

/// The answer that a write's result calls for.
pub open spec fn set_outcome(written: Result<(), StoreFault>) -> SetResponse {
    match written {
        Ok(_) => SetResponse::Stored,
        Err(_) => SetResponse::Rejected,
    }
}

/// Answers a `set` from the result of the write of its value.
pub fn set_response(written: Result<(), StoreFault>) -> (response: SetResponse)
    ensures
        response == set_outcome(written),
{
    match written {
        Ok(_) => SetResponse::Stored,
        Err(_) => SetResponse::Rejected,
    }
}

impl SetResponse {
    /// The status that the answer is sent with: a failed write is reported as
    /// a fault of the request.
    pub open spec fn spec_status(self) -> u16 {
        match self {
            SetResponse::Stored => STATUS_OK,
            SetResponse::Rejected => STATUS_BAD_REQUEST,
        }
    }

    /// The status that the answer is sent with.
    #[verifier::when_used_as_spec(spec_status)]
    pub fn status(self) -> (status: u16)
        ensures
            status == self.spec_status(),
    {
        match self {
            SetResponse::Stored => STATUS_OK,
            SetResponse::Rejected => STATUS_BAD_REQUEST,
        }
    }
}

/// A key that was never written is answered as absent: whatever was written
/// to a store that held nothing, a `get` of a key that no write went to is
/// answered with `Absent`, which is no `Found` of any value.
pub proof fn lemma_unwritten_key_is_absent(writes: Seq<(Seq<char>, Seq<char>)>, key: Seq<char>)
    requires
        !targets(writes, key),
    ensures
        get_outcome(StoreState::empty().write_all(writes).read(key)) == GetOutcome::Absent,
        forall|value: Seq<char>|
            get_outcome(StoreState::empty().write_all(writes).read(key)) != GetOutcome::Found(
                value,
            ),
{
    lemma_writes_keep_other_keys(StoreState::empty(), writes, key);
}

/// What is set is what is got: on a reachable store, a `set` is answered with
/// `Stored`, and a `get` of the same key that follows it is answered with
/// exactly the value that was set.
pub proof fn lemma_set_then_get(state: StoreState, key: Seq<char>, value: Seq<char>)
    requires
        state.reachable,
    ensures
        set_outcome(state.write_result()) == SetResponse::Stored,
        get_outcome(state.write(key, value).read(key)) == GetOutcome::Found(value),
        get_outcome(state.write(key, value).read(key)).status() == STATUS_OK,
        get_outcome(state.write(key, value).read(key)).text() == value,
{
}

/// A `set` on a store out of reach is answered as a fault of the request, and
/// changes nothing.
pub proof fn lemma_set_out_of_reach(state: StoreState, key: Seq<char>, value: Seq<char>)
    requires
        !state.reachable,
    ensures
        set_outcome(state.write_result()) == SetResponse::Rejected,
        set_outcome(state.write_result()).status() == STATUS_BAD_REQUEST,
        state.write(key, value) == state,
{
}

/// A `get` on a store out of reach is answered as a fault of the server,
/// without a body.
pub proof fn lemma_get_out_of_reach(state: StoreState, key: Seq<char>)
    requires
        !state.reachable,
    ensures
        get_outcome(state.read(key)) == GetOutcome::Unavailable,
        get_outcome(state.read(key)).status() == STATUS_INTERNAL_ERROR,
        get_outcome(state.read(key)).text() == Seq::<char>::empty(),
{
}

} // verus!
