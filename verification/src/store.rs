//! The history store: one value under one key of a key-value store, read and
//! replaced as a whole.

use crate::history::History;
use crate::record::ProbeRecord;
use crate::wire::{all_ascii, decode, encode, history_of, history_text, is_history_text};
use vstd::prelude::*;

verus! {

/// The one key under which the history is kept.
pub const HISTORY_KEY: &'static str = "result";

/// Why a run of the recorder, or a request for the history, came to nothing.
#[derive(Clone, Copy, Debug, PartialEq, Eq, Structural)]
pub enum Failure {
    /// The target URL or the store binding is not configured.
    ConfigMissing,
    /// The key of the history was never given a value.
    StoreMissingKey,
    /// The value under the key is not the stored form of a history.
    StoreDecodeError,
    /// The store did not take the new value.
    StoreWriteFailure,
}

/// What reading the history gives, for what the store holds under the key:
/// `None` where the key has no value.
pub open spec fn read_outcome(stored: Option<Seq<u8>>) -> Result<Seq<ProbeRecord>, Failure> {
    match stored {
        None => Err(Failure::StoreMissingKey),
        Some(v) => if is_history_text(v) {
            Ok(history_of(v))
        } else {
            Err(Failure::StoreDecodeError)
        },
    }
}

/// The view of what was fetched from the store.
pub open spec fn stored_view(stored: Option<&[u8]>) -> Option<Seq<u8>> {
    match stored {
        None => None,
        Some(v) => Some(v@),
    }
}

/// The view of what reading the history gave.
pub open spec fn read_view(r: Result<History, Failure>) -> Result<Seq<ProbeRecord>, Failure> {
    match r {
        Ok(h) => Ok(h@),
        Err(f) => Err(f),
    }
}

/// Reads the history from what was fetched under its key: `None` where the
/// key has no value.
pub fn read_history(stored: Option<&[u8]>) -> (r: Result<History, Failure>)
    ensures
        read_view(r) == read_outcome(stored_view(stored)),
        r matches Ok(h) ==> stored matches Some(v) && history_text(h@) == v@,
{
    match stored {
        None => Err(Failure::StoreMissingKey),
        Some(bytes) => match decode(bytes) {
            Some(history) => Ok(history),
            None => Err(Failure::StoreDecodeError),
        },
    }
}

/// The value to put under the key so that the store holds `history`. It
/// replaces whatever was there. The value is ASCII text.
pub fn write_history(history: &History) -> (value: Vec<u8>)
    ensures
        value@ == history_text(history@),
        all_ascii(value@),
{
    encode(history)
}

/// The value to put under the key when the store is set up: the stored form
/// of the history with no record.
pub fn initial_value() -> (value: Vec<u8>)
    ensures
        value@ == history_text(Seq::<ProbeRecord>::empty()),
{
    let history = History::new();
    encode(&history)
}

} // verus!
