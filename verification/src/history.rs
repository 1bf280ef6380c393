//! The log of probe records, newest first.

use crate::record::ProbeRecord;
use vstd::prelude::*;

verus! {

/// The probe records seen so far, newest first. Records are only ever added
/// at the front; none is removed or changed.
#[derive(Debug, PartialEq, Eq)]
pub struct History {
    pub records: Vec<ProbeRecord>,
}

impl View for History {
    type V = Seq<ProbeRecord>;

    open spec fn view(&self) -> Seq<ProbeRecord> {
        self.records@
    }
}

/// Whether no record of `s` is older than one that stands after it.
pub open spec fn newest_first(s: Seq<ProbeRecord>) -> bool {
    forall|i: int, j: int| 0 <= i <= j < s.len() ==> s[i].timestamp >= s[j].timestamp
}

impl History {
    /// The history with no record.
    pub fn new() -> (h: History)
        ensures
            h@ == Seq::<ProbeRecord>::empty(),
    {
        History { records: Vec::new() }
    }

    /// The number of records.
    pub fn len(&self) -> (n: usize)
        ensures
            n == self@.len(),
    {
        self.records.len()
    }

    /// Whether there is no record.
    pub fn is_empty(&self) -> (empty: bool)
        ensures
            empty == (self@.len() == 0),
    {
        self.records.len() == 0
    }

    /// The newest record, if there is any.
    pub fn newest(&self) -> (first: Option<ProbeRecord>)
        ensures
            first == if self@.len() == 0 {
                None
            } else {
                Some(self@[0])
            },
    {
        if self.records.len() == 0 {
            None
        } else {
            Some(self.records[0])
        }
    }

    /// Whether the records stand newest first. They do as long as one
    /// recorder at a time writes the history and the clock is not set back;
    /// two runs that overlap can break the order, or lose a record.
    pub fn is_newest_first(&self) -> (ordered: bool)
        ensures
            ordered == newest_first(self@),
    {
        let n: usize = self.records.len();
        let mut i: usize = 1;
        while i < n
            invariant
                1 <= i,
                i <= n || n == 0,
                n == self@.len(),
                newest_first(self@.take(i as int)) || n == 0,
            decreases n - i,
        {
            if self.records[i - 1].timestamp < self.records[i].timestamp {
                return false;
            }
            proof {
                let shorter = self@.take(i as int);
                let longer = self@.take(i + 1);
                assert forall|a: int, b: int| 0 <= a <= b < longer.len() implies longer[a].timestamp
                    >= longer[b].timestamp by {
                    if b == i {
                        if a < i {
                            assert(shorter[a].timestamp >= shorter[i - 1].timestamp);
                        }
                    } else {
                        assert(shorter[a].timestamp >= shorter[b].timestamp);
                    }
                }
            }
            i = i + 1;
        }
        proof {
            if n > 0 {
                assert(self@.take(i as int) == self@);
            }
        }
        true
    }

    /// Puts `record` in front of all the others.
    pub fn prepend(&mut self, record: ProbeRecord)
        ensures
            final(self)@ == seq![record] + old(self)@,
    {
        self.records.insert(0, record);
        assert(self.records@ == seq![record] + old(self)@);
    }
}

} // verus!
