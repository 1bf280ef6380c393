//! Writing a history in its stored form.

use super::lemmas::{lemma_history_text_ascii, lemma_records_text_push};
use super::text::{
    all_ascii, history_text, record_text, records_text, CLOSE_BRACE, CLOSE_BRACKET, COMMA, NO_RESPONSE_TEXT,
    OPEN_BRACKET, PING_KEY, RESULT_KEY, SUCCESS_TEXT, TIMESTAMP_KEY,
};
use crate::decimal::push_int;
use crate::history::History;
use crate::record::{Outcome, ProbeRecord};
use vstd::prelude::*;

verus! {

/// Appends the bytes of `text` to `out`.
pub fn push_text(out: &mut Vec<u8>, text: &[u8])
    ensures
        final(out)@ == old(out)@ + text@,
{
    let mut i: usize = 0;
    while i < text.len()
        invariant
            i <= text.len(),
            out@ == old(out)@ + text@.subrange(0, i as int),
        decreases text.len() - i,
    {
        out.push(text[i]);
        i = i + 1;
    }
    assert(text@.subrange(0, text.len() as int) == text@);
}

/// Appends the text of `record` to `out`.
pub fn push_record(out: &mut Vec<u8>, record: &ProbeRecord)
    ensures
        final(out)@ == old(out)@ + record_text(*record),
{
    push_text(out, TIMESTAMP_KEY.as_slice());
    push_int(out, record.timestamp);
    push_text(out, RESULT_KEY.as_slice());
    match record.outcome {
        Outcome::Success => push_text(out, SUCCESS_TEXT.as_slice()),
        Outcome::NoResponse => push_text(out, NO_RESPONSE_TEXT.as_slice()),
    }
    push_text(out, PING_KEY.as_slice());
    push_int(out, record.latency_millis);
    out.push(CLOSE_BRACE);
    assert(out@ == old(out)@ + record_text(*record));
}

/// Writes `history` in its stored form. The bytes are ASCII, so they can be
/// kept as text.
pub fn encode(history: &History) -> (bytes: Vec<u8>)
    ensures
        bytes@ == history_text(history@),
        all_ascii(bytes@),
{
    proof {
        lemma_history_text_ascii(history@);
    }
    let mut out: Vec<u8> = Vec::new();
    out.push(OPEN_BRACKET);
    let count: usize = history.records.len();
    let mut i: usize = 0;
    while i < count
        invariant
            i <= count,
            count == history@.len(),
            out@ == seq![OPEN_BRACKET] + records_text(history@.take(i as int)),
        decreases count - i,
    {
        if i > 0 {
            out.push(COMMA);
        }
        push_record(&mut out, &history.records[i]);
        proof {
            lemma_records_text_push(history@.take(i as int), history@[i as int]);
            assert(history@.take(i + 1) == history@.take(i as int).push(history@[i as int]));
        }
        i = i + 1;
    }
    out.push(CLOSE_BRACKET);
    assert(history@.take(count as int) == history@);
    out
}

} // verus!
