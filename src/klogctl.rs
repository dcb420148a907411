//! The ring-buffer backend: one-shot snapshots of the whole buffer and the
//! decisions of its polling follow loop.
use vstd::prelude::*;
use crate::entry::{Entry, EntryModel, RMesgError};
use crate::klog::{klog_model, parse_klog};
use crate::scan::find_in;
use crate::text::{find_char, lemma_find_char, push_range};

verus! {

/// How long the follow loop waits after a read that brought no record.
pub const POLL_INTERVAL_MS: u64 = 100;

/// The lines of a buffer: each `\n` ends one line, empty lines included;
/// text after the last `\n` is one more line, and a final `\n` starts none.
pub open spec fn lines(s: Seq<char>) -> Seq<Seq<char>>
    decreases s.len(),
    via lines_decreases
{
    match find_char(s, '\n') {
        Some(k) => seq![s.take(k)] + lines(s.skip(k + 1)),
        None => if s.len() == 0 {
            Seq::empty()
        } else {
            seq![s]
        },
    }
}

#[via_fn]
proof fn lines_decreases(s: Seq<char>) {
    lemma_find_char(s, '\n');
}

/// The entries that a buffer of the ring-buffer dialect holds, one per line.
pub open spec fn klog_entries_model(s: Seq<char>) -> Seq<EntryModel> {
    lines(s).map_values(|l: Seq<char>| klog_model(l))
}

/// Splits a buffer snapshot into lines and parses each one, an empty line
/// giving an entry with an empty message.
pub fn klog_entries(buffer: &str) -> (r: Vec<Entry>)
    ensures
        r@.map_values(|e: Entry| e@) == klog_entries_model(buffer@),
{
    let cs = crate::text::chars_of(buffer);
    let s = cs.as_slice();
    let n = s.len();
    let mut out: Vec<Entry> = Vec::new();
    let mut start: usize = 0;
    let ghost mut done: Seq<Seq<char>> = Seq::empty();
    assert(s@.skip(0) =~= s@);
    while start < n
        invariant
            start <= n == s@.len(),
            s@ == buffer@,
            lines(s@) == done + lines(s@.skip(start as int)),
            out@.len() == done.len(),
            forall|i: int| 0 <= i < done.len() ==> (#[trigger] out@[i])@ == klog_model(done[i]),
        decreases n - start,
    {
        let ghost rest = s@.skip(start as int);
        let k = find_in(s, start, n, '\n');
        assert(s@.subrange(start as int, n as int) =~= rest);
        let mut line = String::new();
        push_range(&mut line, s, start, k);
        let e = parse_klog(line.as_str());
        proof {
            assert(line@ =~= rest.take(k - start));
            if k < n {
                assert(rest.skip(k - start + 1) =~= s@.skip(k + 1));
            } else {
                assert(rest.take(k - start) =~= rest);
                assert(s@.skip(n as int) =~= Seq::<char>::empty());
                assert(lines(s@.skip(n as int)) =~= Seq::<Seq<char>>::empty());
            }
            done = done.push(line@);
        }
        out.push(e);
        proof {
            assert(lines(s@) =~= done + lines(s@.skip(
                if k < n {
                    k + 1
                } else {
                    n as int
                },
            )));
        }
        if k == n {
            start = n;
        } else {
            start = k + 1;
        }
    }
    assert(s@.skip(n as int) =~= Seq::<char>::empty());
    assert(done + lines(s@.skip(n as int)) =~= done);
    assert(out@.map_values(|e: Entry| e@) =~= done.map_values(|l: Seq<char>| klog_model(l)));
    out
}

/// What one read of the ring buffer brought.
#[derive(Debug)]
pub enum KLogRead {
    /// The text of the records read.
    Data(String),
    /// Nothing new.
    Empty,
    /// The read failed.
    Failed(RMesgError),
}

/// What the follow loop does next.
#[derive(Debug)]
pub enum KLogStep {
    /// Hand these entries to the consumer one by one, then read again at once.
    Deliver(Vec<Entry>),
    /// Wait this many milliseconds, then read again.
    Sleep(u64),
    /// End the session with this error.
    Stop(RMesgError),
}

/// A buffer has no lines exactly when it is empty.
pub proof fn lemma_lines_empty(s: Seq<char>)
    ensures
        lines(s).len() == 0 <==> s.len() == 0,
{
    lemma_find_char(s, '\n');
}

/// Decides the follow loop's next move after one read: a read that brought
/// text is delivered at once, one entry per line (empty lines included); a
/// read that brought nothing waits `POLL_INTERVAL_MS`; a failure ends the
/// session.
pub fn klog_follow_step(read: KLogRead) -> (r: KLogStep)
    ensures
        match read {
            KLogRead::Data(text) => if text@.len() > 0 {
                r matches KLogStep::Deliver(es) && es@.map_values(|e: Entry| e@)
                    == klog_entries_model(text@)
            } else {
                r == KLogStep::Sleep(POLL_INTERVAL_MS)
            },
            KLogRead::Empty => r == KLogStep::Sleep(POLL_INTERVAL_MS),
            KLogRead::Failed(e) => r == KLogStep::Stop(e),
        },
{
    match read {
        KLogRead::Data(text) => {
            let es = klog_entries(text.as_str());
            proof {
                lemma_lines_empty(text@);
            }
            if es.len() > 0 {
                KLogStep::Deliver(es)
            } else {
                assert(es@.map_values(|e: Entry| e@).len() == 0);
                KLogStep::Sleep(POLL_INTERVAL_MS)
            }
        },
        KLogRead::Empty => KLogStep::Sleep(POLL_INTERVAL_MS),
        KLogRead::Failed(e) => KLogStep::Stop(e),
    }
}

} // verus!
