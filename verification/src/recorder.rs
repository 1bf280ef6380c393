//! The recorder: one run of the scheduled job, as a machine that is told
//! what happened and answers what to do next. The caller sends the GET and
//! talks to the store; every decision is taken here.

use crate::clock::{unix_millis, unix_seconds};
use crate::history::History;
use crate::probe::{probe_record, ProbeStart};
use crate::record::ProbeRecord;
use crate::store::{read_history, read_outcome, stored_view, write_history, Failure};
use crate::wire::history_text;
use vstd::prelude::*;

verus! {

/// Where a run of the recorder stands.
#[derive(Clone, Copy, Debug, PartialEq, Eq, Structural)]
pub enum Phase {
    /// Not started: waiting for the schedule.
    Idle,
    /// The GET is on its way.
    Probing(ProbeStart),
    /// The probe is done; the store was asked for the history.
    Reading(ProbeRecord),
    /// The store was asked to replace the history.
    Writing,
    /// The new history is stored.
    Done,
    /// The run was given up. Nothing is retried and nothing is rolled back.
    Aborted(Failure),
}

/// What happened outside, as the caller tells it.
#[derive(Debug, PartialEq, Eq)]
pub enum Event {
    /// The schedule fired. `target` is the configured URL, if there is one;
    /// `store_bound` says whether the store is configured.
    Triggered { target: Option<String>, store_bound: bool, now_seconds: i64, now_millis: i64 },
    /// The GET ended: with a response of any status, or in the transport.
    ProbeEnded { completed: bool, now_millis: i64 },
    /// The store answered the read: the value under the key, if it has one.
    HistoryRead { stored: Option<Vec<u8>> },
    /// The store answered the write.
    HistoryWritten { ok: bool },
}

/// What the caller is to do next.
#[derive(Debug, PartialEq, Eq)]
pub enum Action {
    /// Send a GET to this URL, then tell how it ended.
    SendGet(String),
    /// Fetch the value under the key of the history, then tell what it is.
    ReadHistory,
    /// Put this value under the key of the history, then tell whether the
    /// store took it.
    WriteHistory(Vec<u8>),
    /// The run is over: see the phase for how it ended.
    Stop,
    /// The event is not the one that the phase waits for: it changed nothing.
    Ignore,
}

/// An event, with its strings and bytes as sequences.
pub enum EventView {
    Triggered { target: Option<Seq<char>>, store_bound: bool, now_seconds: i64, now_millis: i64 },
    ProbeEnded { completed: bool, now_millis: i64 },
    HistoryRead { stored: Option<Seq<u8>> },
    HistoryWritten { ok: bool },
}

/// An action, with its strings and bytes as sequences.
pub enum ActionView {
    SendGet(Seq<char>),
    ReadHistory,
    WriteHistory(Seq<u8>),
    Stop,
    Ignore,
}

impl View for Event {
    type V = EventView;

    open spec fn view(&self) -> EventView {
        match *self {
            Event::Triggered { target, store_bound, now_seconds, now_millis } => {
                EventView::Triggered {
                    target: match target {
                        Some(url) => Some(url@),
                        None => None,
                    },
                    store_bound,
                    now_seconds,
                    now_millis,
                }
            },
            Event::ProbeEnded { completed, now_millis } => EventView::ProbeEnded {
                completed,
                now_millis,
            },
            Event::HistoryRead { stored } => EventView::HistoryRead {
                stored: match stored {
                    Some(value) => Some(value@),
                    None => None,
                },
            },
            Event::HistoryWritten { ok } => EventView::HistoryWritten { ok },
        }
    }
}

impl View for Action {
    type V = ActionView;

    open spec fn view(&self) -> ActionView {
        match *self {
            Action::SendGet(url) => ActionView::SendGet(url@),
            Action::ReadHistory => ActionView::ReadHistory,
            Action::WriteHistory(value) => ActionView::WriteHistory(value@),
            Action::Stop => ActionView::Stop,
            Action::Ignore => ActionView::Ignore,
        }
    }
}

/// The value that the recorder writes back: the stored form of the history
/// read, with `record` in front.
pub open spec fn value_with(record: ProbeRecord, history: Seq<ProbeRecord>) -> Seq<u8> {
    history_text(seq![record] + history)
}

/// The recorder's rule: the phase that follows, and what to do, for each
/// phase and event.
///
/// A run goes through three steps in order. The schedule fires: with both
/// the target and the store configured the probe starts, else the run is
/// given up. The GET ends: its record is made, whatever the outcome, and the
/// history is asked for. The store answers: with no value under the key, or
/// with one that is no stored history, the run is given up and the record is
/// lost; else the record goes in front of the history read and the whole is
/// written back. The run is done when the store took the write.
pub open spec fn transition(phase: Phase, event: EventView) -> (Phase, ActionView) {
    match (phase, event) {
        (Phase::Idle, EventView::Triggered { target, store_bound, now_seconds, now_millis }) => {
            if store_bound && target.is_some() {
                (
                    Phase::Probing(ProbeStart { timestamp: now_seconds, sent_millis: now_millis }),
                    ActionView::SendGet(target.unwrap()),
                )
            } else {
                (Phase::Aborted(Failure::ConfigMissing), ActionView::Stop)
            }
        },
        (Phase::Probing(start), EventView::ProbeEnded { completed, now_millis }) => (
            Phase::Reading(probe_record(start, completed, now_millis)),
            ActionView::ReadHistory,
        ),
        (Phase::Reading(record), EventView::HistoryRead { stored }) => match read_outcome(stored) {
            Ok(history) => (Phase::Writing, ActionView::WriteHistory(value_with(record, history))),
            Err(failure) => (Phase::Aborted(failure), ActionView::Stop),
        },
        (Phase::Writing, EventView::HistoryWritten { ok }) => if ok {
            (Phase::Done, ActionView::Stop)
        } else {
            (Phase::Aborted(Failure::StoreWriteFailure), ActionView::Stop)
        },
        _ => (phase, ActionView::Ignore),
    }
}

impl Event {
    /// The event that the schedule fired, with the clock as it stands now.
    /// The clock is read through `chrono`, which may panic where it stands
    /// before 1970 or beyond the dates that `chrono` can hold.
    pub fn triggered(target: Option<String>, store_bound: bool) -> (event: Event)
        ensures
            event matches Event::Triggered { target: t, store_bound: b, .. } && t == target && b
                == store_bound,
    {
        let now_seconds: i64 = unix_seconds();
        let now_millis: i64 = unix_millis();
        Event::Triggered { target, store_bound, now_seconds, now_millis }
    }

    /// The event that the GET ended, with the clock as it stands now. The
    /// clock is read through `chrono`, which may panic where it stands
    /// before 1970 or beyond the dates that `chrono` can hold.
    pub fn probe_ended(completed: bool) -> (event: Event)
        ensures
            event matches Event::ProbeEnded { completed: c, .. } && c == completed,
    {
        let now_millis: i64 = unix_millis();
        Event::ProbeEnded { completed, now_millis }
    }
}

/// The value to write back for a probe's record, from what was fetched
/// under the key of the history: what was read with the record in front.
/// Nothing is written where the key has no value or holds no stored history.
pub fn updated_value(record: ProbeRecord, stored: Option<&[u8]>) -> (r: Result<Vec<u8>, Failure>)
    ensures
        match read_outcome(stored_view(stored)) {
            Ok(history) => r matches Ok(value) && value@ == value_with(record, history),
            Err(failure) => r == Err::<Vec<u8>, Failure>(failure),
        },
{
    match read_history(stored) {
        Ok(history) => {
            let mut history: History = history;
            history.prepend(record);
            Ok(write_history(&history))
        },
        Err(failure) => Err(failure),
    }
}

/// Takes one event in one phase, and gives the phase that follows and what
/// to do next.
pub fn step(phase: Phase, event: Event) -> (next: (Phase, Action))
    ensures
        (next.0, next.1@) == transition(phase, event@),
{
    match phase {
        Phase::Idle => match event {
            Event::Triggered { target, store_bound, now_seconds, now_millis } => {
                if !store_bound {
                    return (Phase::Aborted(Failure::ConfigMissing), Action::Stop);
                }
                match target {
                    Some(url) => (
                        Phase::Probing(
                            ProbeStart { timestamp: now_seconds, sent_millis: now_millis },
                        ),
                        Action::SendGet(url),
                    ),
                    None => (Phase::Aborted(Failure::ConfigMissing), Action::Stop),
                }
            },
            _ => (phase, Action::Ignore),
        },
        Phase::Probing(start) => match event {
            Event::ProbeEnded { completed, now_millis } => (
                Phase::Reading(start.finish(completed, now_millis)),
                Action::ReadHistory,
            ),
            _ => (phase, Action::Ignore),
        },
        Phase::Reading(record) => match event {
            Event::HistoryRead { stored } => {
                let fetched: Option<&[u8]> = match &stored {
                    Some(value) => Some(value.as_slice()),
                    None => None,
                };
                match updated_value(record, fetched) {
                    Ok(value) => (Phase::Writing, Action::WriteHistory(value)),
                    Err(failure) => (Phase::Aborted(failure), Action::Stop),
                }
            },
            _ => (phase, Action::Ignore),
        },
        Phase::Writing => match event {
            Event::HistoryWritten { ok } => if ok {
                (Phase::Done, Action::Stop)
            } else {
                (Phase::Aborted(Failure::StoreWriteFailure), Action::Stop)
            },
            _ => (phase, Action::Ignore),
        },
        _ => (phase, Action::Ignore),
    }
}

} // verus!
