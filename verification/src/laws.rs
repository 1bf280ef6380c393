//! What holds of the monitor as a whole, proved from the contracts of its
//! parts.

use crate::history::newest_first;
use crate::probe::{elapsed_millis, probe_record, ProbeStart};
use crate::reader::{failure_text, reply_for, ReplyView, STATUS_OK, STATUS_SERVER_ERROR};
use crate::record::{Outcome, ProbeRecord};
use crate::recorder::{transition, value_with, ActionView, EventView, Phase};
use crate::store::{read_outcome, Failure};
use crate::wire::{
    all_ascii, history_of, history_text, is_history_text, lemma_history_text_ascii,
    lemma_history_text_injective, record_text, records_text, rest_text, CLOSE_BRACKET, COMMA,
    OPEN_BRACKET,
};
use vstd::prelude::*;

verus! {

/// Reading back what was written gives the history that was written: every
/// history has a stored form, and no two histories share one.
pub proof fn law_decode_after_encode(history: Seq<ProbeRecord>)
    ensures
        is_history_text(history_text(history)),
        history_of(history_text(history)) == history,
        read_outcome(Some(history_text(history))) == Ok::<Seq<ProbeRecord>, Failure>(history),
{
    let stored = history_text(history);
    assert(is_history_text(stored));
    lemma_history_text_injective(history_of(stored), history);
}

/// Writing again what was read from a well-formed value gives that value,
/// byte for byte.
pub proof fn law_encode_after_decode(stored: Seq<u8>)
    requires
        is_history_text(stored),
    ensures
        history_text(history_of(stored)) == stored,
{
}

/// The stored form of a history with a new record in front: the bracket, the
/// new record, a comma unless the history was empty, and then the old
/// stored form from its second byte on, unchanged.
pub proof fn law_prepend_keeps_bytes(history: Seq<ProbeRecord>, record: ProbeRecord)
    ensures
        ({
            let comma = if history.len() == 0 {
                Seq::<u8>::empty()
            } else {
                seq![COMMA]
            };
            history_text(seq![record] + history) == seq![OPEN_BRACKET] + record_text(record) + comma
                + history_text(history).skip(1)
        }),
{
    let longer = seq![record] + history;
    assert(longer.skip(1) == history);
    assert(longer[0] == record);
    assert(history_text(history).skip(1) == records_text(history) + seq![CLOSE_BRACKET]);
    if history.len() == 0 {
        assert(history_text(longer) == seq![OPEN_BRACKET] + record_text(record) + Seq::<u8>::empty()
            + history_text(history).skip(1));
    } else {
        assert(rest_text(history) == seq![COMMA] + records_text(history));
        assert(history_text(longer) == seq![OPEN_BRACKET] + record_text(record) + seq![COMMA]
            + history_text(history).skip(1));
    }
}

/// When the store holds the history `history`, the recorder writes back
/// exactly the new record followed by `history`: no record is dropped,
/// changed or moved.
pub proof fn law_prepend_order(history: Seq<ProbeRecord>, record: ProbeRecord)
    ensures
        transition(
            Phase::Reading(record),
            EventView::HistoryRead { stored: Some(history_text(history)) },
        ) == (Phase::Writing, ActionView::WriteHistory(history_text(seq![record] + history))),
        history_of(history_text(seq![record] + history)) == seq![record] + history,
        history_of(history_text(seq![record] + history)).skip(1) == history,
        history_of(history_text(seq![record] + history))[0] == record,
{
    law_decode_after_encode(history);
    law_decode_after_encode(seq![record] + history);
    assert((seq![record] + history).skip(1) == history);
}

/// One whole run of the recorder over a store that holds `history`: the
/// probe's record is made from the two readings of the clock and from
/// whether the GET completed, the value written is that record followed by
/// `history`, and the run is done once the store took the write.
pub proof fn law_recorder_run(
    target: Seq<char>,
    now_seconds: i64,
    sent_millis: i64,
    completed: bool,
    ended_millis: i64,
    history: Seq<ProbeRecord>,
)
    ensures
        ({
            let start = ProbeStart { timestamp: now_seconds, sent_millis };
            let record = probe_record(start, completed, ended_millis);
            let first = transition(
                Phase::Idle,
                EventView::Triggered {
                    target: Some(target),
                    store_bound: true,
                    now_seconds,
                    now_millis: sent_millis,
                },
            );
            let second = transition(
                first.0,
                EventView::ProbeEnded { completed, now_millis: ended_millis },
            );
            let third = transition(
                second.0,
                EventView::HistoryRead { stored: Some(history_text(history)) },
            );
            let fourth = transition(third.0, EventView::HistoryWritten { ok: true });
            &&& first.1 == ActionView::SendGet(target)
            &&& second.1 == ActionView::ReadHistory
            &&& third.1 == ActionView::WriteHistory(history_text(seq![record] + history))
            &&& fourth == (Phase::Done, ActionView::Stop)
        }),
{
    law_decode_after_encode(history);
}

/// A GET that completed is a success and one that did not is no response;
/// the timestamp and the latency are recorded alike in both cases.
pub proof fn law_outcome_classification(start: ProbeStart, ended_millis: i64)
    ensures
        probe_record(start, true, ended_millis).outcome == Outcome::Success,
        probe_record(start, false, ended_millis).outcome == Outcome::NoResponse,
        probe_record(start, true, ended_millis).latency_millis == elapsed_millis(
            start.sent_millis,
            ended_millis,
        ),
        probe_record(start, false, ended_millis).latency_millis == elapsed_millis(
            start.sent_millis,
            ended_millis,
        ),
        probe_record(start, true, ended_millis).timestamp == start.timestamp,
        probe_record(start, false, ended_millis).timestamp == start.timestamp,
{
}

/// Two requests for the history, with the same value in the store at both,
/// get the same answer. Where that value is well-formed, the answer has
/// status 200 and the stored value itself as its body.
pub proof fn law_repeated_reads(stored: Option<Seq<u8>>, first: ReplyView, second: ReplyView)
    requires
        first == reply_for(stored),
        second == reply_for(stored),
    ensures
        first == second,
        stored matches Some(value) ==> (is_history_text(value) ==> first == (ReplyView {
            status: STATUS_OK,
            body: value,
        })),
{
}

/// A store whose key has no value makes neither path panic: the recorder
/// gives the run up without a write, and the reader answers with status
/// 500 and the reason.
pub proof fn law_missing_key(record: ProbeRecord)
    ensures
        transition(Phase::Reading(record), EventView::HistoryRead { stored: None }) == (
            Phase::Aborted(Failure::StoreMissingKey),
            ActionView::Stop,
        ),
        reply_for(None) == (ReplyView {
            status: STATUS_SERVER_ERROR,
            body: failure_text(Failure::StoreMissingKey),
        }),
{
}

/// Once the key holds the stored form of the empty history, which is `[]`,
/// the reader answers with that empty array, and the first run of the
/// recorder writes a history of one record.
pub proof fn law_bootstrap(record: ProbeRecord)
    ensures
        history_text(Seq::<ProbeRecord>::empty()) == seq![OPEN_BRACKET, CLOSE_BRACKET],
        reply_for(Some(seq![OPEN_BRACKET, CLOSE_BRACKET])) == (ReplyView {
            status: STATUS_OK,
            body: seq![OPEN_BRACKET, CLOSE_BRACKET],
        }),
        transition(
            Phase::Reading(record),
            EventView::HistoryRead { stored: Some(seq![OPEN_BRACKET, CLOSE_BRACKET]) },
        ) == (
            Phase::Writing,
            ActionView::WriteHistory(seq![OPEN_BRACKET] + record_text(record) + seq![CLOSE_BRACKET]),
        ),
{
    let none = Seq::<ProbeRecord>::empty();
    assert(history_text(none) == seq![OPEN_BRACKET, CLOSE_BRACKET]);
    law_decode_after_encode(none);
    law_prepend_keeps_bytes(none, record);
    assert(seq![record] + none == seq![record]);
    assert(history_text(none).skip(1) == seq![CLOSE_BRACKET]);
    assert(history_text(seq![record]) == seq![OPEN_BRACKET] + record_text(record)
        + seq![CLOSE_BRACKET]);
}

/// A probe records a latency that is not negative, unless the clock was set
/// back while it ran.
pub proof fn law_latency_not_negative(start: ProbeStart, completed: bool, ended_millis: i64)
    requires
        start.sent_millis <= ended_millis,
    ensures
        probe_record(start, completed, ended_millis).latency_millis >= 0,
{
}

/// A history that stands newest first still does once a record that is no
/// older than its newest one is put in front: so it does after every run, as
/// long as one recorder at a time writes it and the clock is not set back.
pub proof fn law_order_kept(history: Seq<ProbeRecord>, record: ProbeRecord)
    requires
        newest_first(history),
        history.len() > 0 ==> record.timestamp >= history[0].timestamp,
    ensures
        newest_first(seq![record] + history),
{
    let longer = seq![record] + history;
    assert forall|i: int, j: int| 0 <= i <= j < longer.len() implies longer[i].timestamp
        >= longer[j].timestamp by {
        if i == 0 && j > 0 {
            assert(longer[j] == history[j - 1]);
            assert(history[0].timestamp >= history[j - 1].timestamp);
        } else if i > 0 {
            assert(longer[i] == history[i - 1]);
            assert(longer[j] == history[j - 1]);
        }
    }
}

/// Nothing guards the store against two runs at once. Where both read the
/// same history before either writes, the write that comes last stands: the
/// store then holds one record more than before, not two, and the record of
/// the other run is gone.
pub proof fn law_overlapping_runs_lose_a_record(
    history: Seq<ProbeRecord>,
    first: ProbeRecord,
    second: ProbeRecord,
)
    ensures
        transition(
            Phase::Reading(first),
            EventView::HistoryRead { stored: Some(history_text(history)) },
        ).1 == ActionView::WriteHistory(value_with(first, history)),
        transition(
            Phase::Reading(second),
            EventView::HistoryRead { stored: Some(history_text(history)) },
        ).1 == ActionView::WriteHistory(value_with(second, history)),
        history_of(value_with(second, history)) == seq![second] + history,
        history_of(value_with(second, history)).len() == history.len() + 1,
{
    law_decode_after_encode(history);
    law_decode_after_encode(seq![second] + history);
}

/// Whatever the recorder asks the store to hold is the stored form of a
/// history with at least one record, in ASCII text: the store is never
/// handed a value that cannot be read back.
pub proof fn law_every_write_is_well_formed(phase: Phase, event: EventView)
    ensures
        transition(phase, event).1 matches ActionView::WriteHistory(value) ==> is_history_text(value)
            && history_of(value).len() >= 1 && all_ascii(value),
{
    if let ActionView::WriteHistory(value) = transition(phase, event).1 {
        let record = phase->Reading_0;
        let stored = event->HistoryRead_stored;
        let history = history_of(stored->Some_0);
        assert(value == history_text(seq![record] + history));
        law_decode_after_encode(seq![record] + history);
        lemma_history_text_ascii(seq![record] + history);
    }
}

/// A run that is done or given up stays so: no event makes it probe, read or
/// write again.
pub proof fn law_run_ends(failure: Failure, event: EventView)
    ensures
        transition(Phase::Done, event) == (Phase::Done, ActionView::Ignore),
        transition(Phase::Aborted(failure), event) == (
            Phase::Aborted(failure),
            ActionView::Ignore,
        ),
{
}

} // verus!
