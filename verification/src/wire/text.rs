//! What the stored form of a history is.

use crate::decimal::int_text;
use crate::record::{Outcome, ProbeRecord};
use vstd::prelude::*;

verus! {

/// The byte `[`.
pub const OPEN_BRACKET: u8 = 91;

/// The byte `]`.
pub const CLOSE_BRACKET: u8 = 93;

/// The byte `}`.
pub const CLOSE_BRACE: u8 = 125;

/// The byte `,`.
pub const COMMA: u8 = 44;

/// The bytes `{"timestamp":`.
pub const TIMESTAMP_KEY: [u8; 13] = [123, 34, 116, 105, 109, 101, 115, 116, 97, 109, 112, 34, 58];

/// The bytes `,"result":"`.
pub const RESULT_KEY: [u8; 11] = [44, 34, 114, 101, 115, 117, 108, 116, 34, 58, 34];

/// The bytes `","ping":`.
pub const PING_KEY: [u8; 9] = [34, 44, 34, 112, 105, 110, 103, 34, 58];

/// The bytes `Success`.
pub const SUCCESS_TEXT: [u8; 7] = [83, 117, 99, 99, 101, 115, 115];

/// The bytes `No Response`.
pub const NO_RESPONSE_TEXT: [u8; 11] = [78, 111, 32, 82, 101, 115, 112, 111, 110, 115, 101];

/// The text that stands for an outcome in the `result` field.
pub open spec fn outcome_text(o: Outcome) -> Seq<u8> {
    match o {
        Outcome::Success => SUCCESS_TEXT@,
        Outcome::NoResponse => NO_RESPONSE_TEXT@,
    }
}

/// The text of one record: `{"timestamp":T,"result":"R","ping":P}`.
pub open spec fn record_text(r: ProbeRecord) -> Seq<u8> {
    TIMESTAMP_KEY@ + int_text(r.timestamp as int) + RESULT_KEY@ + outcome_text(r.outcome)
        + PING_KEY@ + int_text(r.latency_millis as int) + seq![CLOSE_BRACE]
}

/// The text of the records of `s`, each led by a comma.
pub open spec fn rest_text(s: Seq<ProbeRecord>) -> Seq<u8>
    decreases s.len(),
{
    if s.len() == 0 {
        Seq::empty()
    } else {
        seq![COMMA] + record_text(s[0]) + rest_text(s.skip(1))
    }
}

/// The text of the records of `s`, with a comma between each two.
pub open spec fn records_text(s: Seq<ProbeRecord>) -> Seq<u8> {
    if s.len() == 0 {
        Seq::empty()
    } else {
        record_text(s[0]) + rest_text(s.skip(1))
    }
}

/// The stored form of the history `s`: its records in order, newest first,
/// between `[` and `]`.
pub open spec fn history_text(s: Seq<ProbeRecord>) -> Seq<u8> {
    seq![OPEN_BRACKET] + records_text(s) + seq![CLOSE_BRACKET]
}

/// Whether `v` is the stored form of some history.
pub open spec fn is_history_text(v: Seq<u8>) -> bool {
    exists|s: Seq<ProbeRecord>| #[trigger] history_text(s) == v
}

/// The history of which `v` is the stored form, where it is one.
pub open spec fn history_of(v: Seq<u8>) -> Seq<ProbeRecord> {
    choose|s: Seq<ProbeRecord>| #[trigger] history_text(s) == v
}

/// Whether the text `t` stands in `x` at `p`.
pub open spec fn text_at(x: Seq<u8>, p: int, t: Seq<u8>) -> bool {
    &&& 0 <= p
    &&& p + t.len() <= x.len()
    &&& x.subrange(p, p + t.len()) == t
}

/// Whether the text of `r` stands in `x` from `p` up to `e`.
pub open spec fn record_at(x: Seq<u8>, p: int, r: ProbeRecord, e: int) -> bool {
    &&& 0 <= p <= e <= x.len()
    &&& x.subrange(p, e) == record_text(r)
}

/// What stands in a stored form before the record that follows those of
/// `a`: the bracket, the records of `a`, and a comma unless `a` is empty.
pub open spec fn lead_text(a: Seq<ProbeRecord>) -> Seq<u8> {
    if a.len() == 0 {
        seq![OPEN_BRACKET]
    } else {
        seq![OPEN_BRACKET] + records_text(a) + seq![COMMA]
    }
}

/// Whether every history with the stored form `x` starts with the records
/// `a` and holds more than these.
pub open spec fn starts_every_history(x: Seq<u8>, a: Seq<ProbeRecord>) -> bool {
    forall|s: Seq<ProbeRecord>| #[trigger]
        history_text(s) == x ==> a.len() < s.len() && s.take(a.len() as int) == a
}

/// Whether every byte of `t` is an ASCII character.
pub open spec fn all_ascii(t: Seq<u8>) -> bool {
    forall|i: int| 0 <= i < t.len() ==> #[trigger] t[i] < 128
}

} // verus!
