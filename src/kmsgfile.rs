//! The structured-device backend: one-shot reads of the backlog and the
//! per-record decisions of a follow session.
use vstd::prelude::*;
use crate::entry::{Entry, RMesgError};
use crate::kmsg::{kmsg_model, parse_kmsg};

verus! {

/// Parses every record of a one-shot read; fails with `MalformedRecord` at the
/// first record that does not parse.
pub fn kmsg_entries(records: &Vec<String>) -> (r: Result<Vec<Entry>, RMesgError>)
    ensures
        r is Ok <==> forall|i: int| 0 <= i < records@.len() ==> kmsg_model(#[trigger] records@[i]@) is Some,
        r matches Ok(es) ==> es@.len() == records@.len() && forall|i: int| 0 <= i < records@.len()
            ==> kmsg_model(records@[i]@) == Some((#[trigger] es@[i])@),
        r matches Err(e) ==> e == RMesgError::MalformedRecord,
{
    let mut out: Vec<Entry> = Vec::new();
    let mut i: usize = 0;
    while i < records.len()
        invariant
            i <= records@.len(),
            out@.len() == i,
            forall|j: int| 0 <= j < i ==> kmsg_model(records@[j]@) == Some((#[trigger] out@[j])@),
        decreases records.len() - i,
    {
        match parse_kmsg(records[i].as_str()) {
            Ok(e) => out.push(e),
            Err(e) => {
                return Err(e);
            },
        }
        i = i + 1;
    }
    assert forall|j: int| 0 <= j < records@.len() implies kmsg_model(
        #[trigger] records@[j]@,
    ) is Some by {
        assert(kmsg_model(records@[j]@) == Some(out@[j]@));
    }
    Ok(out)
}

/// What one attempt to read the next record brought.
#[derive(Debug)]
pub enum KMsgRead {
    /// One whole record.
    Record(String),
    /// No record is ready yet.
    WouldBlock,
    /// The read failed.
    Failed(RMesgError),
}

/// What a follow session does after one read attempt.
#[derive(Debug)]
pub enum KMsgStep {
    /// Hand this one entry to the consumer.
    Deliver(Entry),
    /// Hand this record's text to the consumer as it came, unparsed.
    Pass(String),
    /// Report that this record was malformed, then go on.
    Malformed,
    /// Drop a record that numbers below one already delivered, then go on.
    Skip,
    /// Wait until the device is readable, then read again.
    Wait,
    /// End the session with this error.
    Stop(RMesgError),
}

/// The cursor of one follow session on the structured device.
#[derive(Debug)]
pub struct KMsgFollow {
    /// The sequence number of the last entry delivered.
    pub last_seq: Option<u64>,
}

/// Whether a record numbered `q` may follow the last delivered one.
pub open spec fn in_order(last: Option<u64>, q: nat) -> bool {
    match last {
        Some(l) => l <= q,
        None => true,
    }
}

impl KMsgFollow {
    /// A session that has delivered nothing yet.
    pub fn new() -> (r: KMsgFollow)
        ensures
            r.last_seq is None,
    {
        KMsgFollow { last_seq: None }
    }

    /// Handles one read attempt. Each record gives at most one entry, and the
    /// sequence numbers delivered never go down within a session.
    pub fn step(&mut self, read: KMsgRead) -> (r: KMsgStep)
        ensures
            match read {
                KMsgRead::Record(line) => match kmsg_model(line@) {
                    Some(m) => if in_order(old(self).last_seq, m.sequence->0) {
                        r matches KMsgStep::Deliver(e) && e@ == m && final(self).last_seq == Some(
                            m.sequence->0 as u64,
                        )
                    } else {
                        r == KMsgStep::Skip && *final(self) == *old(self)
                    },
                    None => r == KMsgStep::Malformed && *final(self) == *old(self),
                },
                KMsgRead::WouldBlock => r == KMsgStep::Wait && *final(self) == *old(self),
                KMsgRead::Failed(e) => r == KMsgStep::Stop(e) && *final(self) == *old(self),
            },
            r matches KMsgStep::Deliver(e) ==> e.sequence_num is Some && in_order(
                old(self).last_seq,
                e.sequence_num->0 as nat,
            ) && final(self).last_seq == e.sequence_num,
    {
        match read {
            KMsgRead::Record(line) => match parse_kmsg(line.as_str()) {
                Ok(e) => {
                    let q = match e.sequence_num {
                        Some(q) => q,
                        None => 0,
                    };
                    let ok = match self.last_seq {
                        Some(l) => l <= q,
                        None => true,
                    };
                    if ok {
                        self.last_seq = Some(q);
                        KMsgStep::Deliver(e)
                    } else {
                        KMsgStep::Skip
                    }
                },
                Err(_) => KMsgStep::Malformed,
            },
            KMsgRead::WouldBlock => KMsgStep::Wait,
            KMsgRead::Failed(e) => KMsgStep::Stop(e),
        }
    }

    /// Handles one read attempt in raw mode: each record is handed on as its
    /// text, without parsing, checking or filtering.
    pub fn step_raw(&mut self, read: KMsgRead) -> (r: KMsgStep)
        ensures
            match read {
                KMsgRead::Record(line) => r == KMsgStep::Pass(line),
                KMsgRead::WouldBlock => r == KMsgStep::Wait,
                KMsgRead::Failed(e) => r == KMsgStep::Stop(e),
            },
            *final(self) == *old(self),
    {
        match read {
            KMsgRead::Record(line) => KMsgStep::Pass(line),
            KMsgRead::WouldBlock => KMsgStep::Wait,
            KMsgRead::Failed(e) => KMsgStep::Stop(e),
        }
    }
}

} // verus!
