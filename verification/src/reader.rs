//! The history reader: the answer to a request for the whole history.

use crate::store::{read_history, read_outcome, stored_view, write_history, Failure};
use crate::wire::history_text;
use vstd::prelude::*;
use vstd::string::{StrSliceExecFns, StringSliceAdditionalSpecFns};

verus! {

/// The status of an answer that carries the history.
pub const STATUS_OK: u16 = 200;

/// The status of an answer when the history could not be read.
pub const STATUS_SERVER_ERROR: u16 = 500;

/// An answer to a request: a status and a body.
#[derive(Debug, PartialEq, Eq)]
pub struct Reply {
    pub status: u16,
    pub body: Vec<u8>,
}

/// An answer, with its body as a sequence.
pub struct ReplyView {
    pub status: u16,
    pub body: Seq<u8>,
}

impl View for Reply {
    type V = ReplyView;

    open spec fn view(&self) -> ReplyView {
        ReplyView { status: self.status, body: self.body@ }
    }
}

/// What the body of an answer says when the history could not be read.
pub open spec fn failure_text(failure: Failure) -> Seq<u8> {
    match failure {
        Failure::ConfigMissing => "configuration is missing".spec_bytes(),
        Failure::StoreMissingKey => "history key is not initialized".spec_bytes(),
        Failure::StoreDecodeError => "stored history is not well-formed".spec_bytes(),
        Failure::StoreWriteFailure => "history could not be written".spec_bytes(),
    }
}

/// The answer to a request for the history, for what the store holds under
/// the key: the whole history as a JSON array with status 200, or status
/// 500 and the reason where the history cannot be read.
pub open spec fn reply_for(stored: Option<Seq<u8>>) -> ReplyView {
    match read_outcome(stored) {
        Ok(history) => ReplyView { status: STATUS_OK, body: history_text(history) },
        Err(failure) => ReplyView { status: STATUS_SERVER_ERROR, body: failure_text(failure) },
    }
}

/// The words for a failure, as the body of an answer.
pub fn failure_message(failure: Failure) -> (body: Vec<u8>)
    ensures
        body@ == failure_text(failure),
{
    let words: &str = match failure {
        Failure::ConfigMissing => "configuration is missing",
        Failure::StoreMissingKey => "history key is not initialized",
        Failure::StoreDecodeError => "stored history is not well-formed",
        Failure::StoreWriteFailure => "history could not be written",
    };
    words.as_bytes_vec()
}

/// The answer that tells a failure: status 500 and the words for it.
pub fn failure_reply(failure: Failure) -> (reply: Reply)
    ensures
        reply@ == (ReplyView { status: STATUS_SERVER_ERROR, body: failure_text(failure) }),
{
    Reply { status: STATUS_SERVER_ERROR, body: failure_message(failure) }
}

/// Answers a request for the history from what was fetched under its key:
/// `None` where the key has no value. Nothing is filtered or cut: the body
/// holds every record. A history that cannot be read gives an answer too,
/// never a panic.
pub fn handle_request(stored: Option<&[u8]>) -> (reply: Reply)
    ensures
        reply@ == reply_for(stored_view(stored)),
{
    match read_history(stored) {
        Ok(history) => Reply { status: STATUS_OK, body: write_history(&history) },
        Err(failure) => failure_reply(failure),
    }
}

} // verus!
