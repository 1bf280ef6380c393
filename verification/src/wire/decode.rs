//! Reading a history back from its stored form.

use super::lemmas::{
    lemma_after_record, lemma_after_record_read, lemma_history_text_injective, lemma_no_record,
    lemma_record_at_parts, lemma_record_in_history,
};
use super::text::{
    history_of, history_text, is_history_text, lead_text, outcome_text, record_at, record_text,
    starts_every_history, text_at, CLOSE_BRACE, CLOSE_BRACKET, COMMA, NO_RESPONSE_TEXT,
    OPEN_BRACKET, PING_KEY, RESULT_KEY, SUCCESS_TEXT, TIMESTAMP_KEY,
};
use crate::decimal::{int_at, int_text, parse_int};
use crate::history::History;
use crate::record::{Outcome, ProbeRecord};
use vstd::prelude::*;

verus! {

/// Says where `text` ends if it stands in `input` at `pos`.
pub fn expect_text(input: &[u8], pos: usize, text: &[u8]) -> (r: Option<usize>)
    ensures
        r.is_some() <==> text_at(input@, pos as int, text@),
        r matches Some(end) ==> end == pos + text@.len(),
{
    let n: usize = input.len();
    let m: usize = text.len();
    if pos > n || m > n - pos {
        return None;
    }
    let mut i: usize = 0;
    while i < m
        invariant
            i <= m,
            m == text@.len(),
            n == input@.len(),
            pos + m <= n,
            input@.subrange(pos as int, pos + i) == text@.subrange(0, i as int),
        decreases m - i,
    {
        if input[pos + i] != text[i] {
            proof {
                assert(input@.subrange(pos as int, pos + m)[i as int] == input@[pos + i]);
            }
            return None;
        }
        proof {
            assert(input@.subrange(pos as int, pos + i + 1) == input@.subrange(
                pos as int,
                pos + i,
            ).push(input@[pos + i]));
            assert(text@.subrange(0, i + 1) == text@.subrange(0, i as int).push(text@[i as int]));
        }
        i = i + 1;
    }
    assert(text@.subrange(0, m as int) == text@);
    Some(pos + m)
}

/// Reads the outcome whose text stands in `input` at `pos`, and says where
/// the text ends.
pub fn parse_outcome(input: &[u8], pos: usize) -> (r: Option<(Outcome, usize)>)
    ensures
        r matches Some((o, end)) ==> text_at(input@, pos as int, outcome_text(o)) && end == pos
            + outcome_text(o).len(),
        forall|o: Outcome| #[trigger]
            text_at(input@, pos as int, outcome_text(o)) ==> r.is_some() && r.unwrap().0 == o,
{
    proof {
        if text_at(input@, pos as int, SUCCESS_TEXT@) && text_at(
            input@,
            pos as int,
            NO_RESPONSE_TEXT@,
        ) {
            assert(input@[pos as int] == input@.subrange(pos as int, pos + 7)[0]);
            assert(input@[pos as int] == input@.subrange(pos as int, pos + 11)[0]);
        }
    }
    match expect_text(input, pos, SUCCESS_TEXT.as_slice()) {
        Some(end) => Some((Outcome::Success, end)),
        None => match expect_text(input, pos, NO_RESPONSE_TEXT.as_slice()) {
            Some(end) => Some((Outcome::NoResponse, end)),
            None => None,
        },
    }
}

/// Reads the record whose text stands in `input` at `pos`, and says where
/// the text ends. At most one record stands there.
pub fn parse_record(input: &[u8], pos: usize) -> (r: Option<(ProbeRecord, usize)>)
    ensures
        r matches Some((record, end)) ==> record_at(input@, pos as int, record, end as int),
        forall|record: ProbeRecord, end: int| #[trigger]
            record_at(input@, pos as int, record, end) ==> r.is_some() && r.unwrap().0 == record
                && r.unwrap().1 == end,
{
    proof {
        assert forall|record: ProbeRecord, end: int| #[trigger]
            record_at(input@, pos as int, record, end) implies ({
            let stamp_start = pos + 13;
            let stamp_end = stamp_start + int_text(record.timestamp as int).len();
            let outcome_start = stamp_end + 11;
            let outcome_end = outcome_start + outcome_text(record.outcome).len();
            let ping_start = outcome_end + 9;
            let ping_end = ping_start + int_text(record.latency_millis as int).len();
            &&& text_at(input@, pos as int, TIMESTAMP_KEY@)
            &&& int_at(input@, stamp_start, record.timestamp as int, stamp_end)
            &&& text_at(input@, stamp_end, RESULT_KEY@)
            &&& text_at(input@, outcome_start, outcome_text(record.outcome))
            &&& text_at(input@, outcome_end, PING_KEY@)
            &&& int_at(input@, ping_start, record.latency_millis as int, ping_end)
            &&& ping_end < input@.len()
            &&& input@[ping_end] == CLOSE_BRACE
            &&& end == ping_end + 1
        }) by {
            lemma_record_at_parts(input@, pos as int, record, end);
        }
    }
    let stamp_start: usize = match expect_text(input, pos, TIMESTAMP_KEY.as_slice()) {
        Some(p) => p,
        None => { return None; },
    };
    let (timestamp, stamp_end): (i64, usize) = match parse_int(input, stamp_start) {
        Some(found) => found,
        None => { return None; },
    };
    let outcome_start: usize = match expect_text(input, stamp_end, RESULT_KEY.as_slice()) {
        Some(p) => p,
        None => { return None; },
    };
    let (outcome, outcome_end): (Outcome, usize) = match parse_outcome(input, outcome_start) {
        Some(found) => found,
        None => { return None; },
    };
    let ping_start: usize = match expect_text(input, outcome_end, PING_KEY.as_slice()) {
        Some(p) => p,
        None => { return None; },
    };
    let (latency_millis, ping_end): (i64, usize) = match parse_int(input, ping_start) {
        Some(found) => found,
        None => { return None; },
    };
    if ping_end >= input.len() || input[ping_end] != CLOSE_BRACE {
        return None;
    }
    let record = ProbeRecord { timestamp, outcome, latency_millis };
    proof {
        let x = input@;
        assert(x.subrange(pos as int, ping_end + 1) == x.subrange(pos as int, stamp_start as int) + x.subrange(
            stamp_start as int,
            stamp_end as int,
        ) + x.subrange(stamp_end as int, outcome_start as int) + x.subrange(outcome_start as int, outcome_end as int) + x.subrange(
            outcome_end as int,
            ping_start as int,
        ) + x.subrange(ping_start as int, ping_end as int) + seq![CLOSE_BRACE]);
    }
    Some((record, ping_end + 1))
}

/// Reads a history back from its stored form. Only what `encode` writes is
/// read: the result is `None` for every other input, so also for JSON that
/// holds the same records with white space, with the fields in another
/// order, or with another `result` than `Success` and `No Response`.
pub fn decode(input: &[u8]) -> (r: Option<History>)
    ensures
        match r {
            Some(history) => history_text(history@) == input@ && history@ == history_of(input@),
            None => !is_history_text(input@),
        },
{
    let n: usize = input.len();
    proof {
        assert forall|s: Seq<ProbeRecord>| #[trigger] history_text(s) == input@ implies n >= 2
            && input@[0] == OPEN_BRACKET && (s.len() == 0 ==> n == 2 && input@[1] == CLOSE_BRACKET)
            && (s.len() > 0 ==> input@[1] == 123) by {
            if s.len() > 0 {
                lemma_record_in_history(s, 0);
                assert(s.take(0).len() == 0);
                lemma_record_at_parts(input@, 1, s[0], 1int + record_text(s[0]).len());
                assert(input@[1] == input@.subrange(1, 14)[0]);
            }
        }
    }
    if n < 2 || input[0] != OPEN_BRACKET {
        return None;
    }
    if input[1] == CLOSE_BRACKET {
        if n == 2 {
            let history = History::new();
            proof {
                assert(history_text(history@) == input@);
                lemma_history_text_injective(history@, history_of(input@));
            }
            return Some(history);
        }
        return None;
    }
    let mut records: Vec<ProbeRecord> = Vec::new();
    let mut pos: usize = 1;
    assert(input@.subrange(0, 1) == lead_text(records@));
    assert(starts_every_history(input@, records@)) by {
        assert forall|s: Seq<ProbeRecord>| #[trigger] history_text(s) == input@ implies s.take(0)
            == records@ by {}
    }
    loop
        invariant
            n == input@.len(),
            1 <= pos <= n,
            input@.subrange(0, pos as int) == lead_text(records@),
            starts_every_history(input@, records@),
        decreases n - pos,
    {
        let found: Option<(ProbeRecord, usize)> = parse_record(input, pos);
        if found.is_none() {
            proof {
                lemma_no_record(input@, pos as int, records@);
            }
            return None;
        }
        let (record, end): (ProbeRecord, usize) = found.unwrap();
        proof {
            lemma_after_record_read(input@, pos as int, records@, record, end as int);
            lemma_after_record(input@, pos as int, records@, record, end as int);
        }
        records.push(record);
        if end >= n {
            return None;
        }
        let next: u8 = input[end];
        if next == COMMA {
            pos = end + 1;
        } else if next == CLOSE_BRACKET && end + 1 == n {
            let history = History { records };
            proof {
                lemma_history_text_injective(history@, history_of(input@));
            }
            return Some(history);
        } else {
            return None;
        }
    }
}

} // verus!
