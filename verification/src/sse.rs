//! Resuming the event stream of a run.
//!
//! A client reconnects with `Last-Event-ID: <seq>`; the server replays
//! from `seq + 1`, catches up in batches, then follows live. Reading the
//! store and waiting for wake-ups are the web layer's work; where to resume
//! and when the stream is over are decided here.

use vstd::prelude::*;
use vstd::slice::slice_subrange;

use crate::text::{chars_of, parse_i64, parse_i64_chars, trim, trim_bounds};

verus! {

/// The heartbeat interval in seconds: proxies drop idle connections (nginx
/// after 60 s by default), the heartbeat keeps them alive.
pub const KEEPALIVE_S: u64 = 15;

/// The fallback poll interval in seconds, for wake-ups that got lost.
pub const FALLBACK_POLL_S: u64 = 2;

/// The most events read in one catch-up query.
pub const CATCHUP_BATCH: i64 = 500;

/// The sequence number a reconnecting client saw last: the header
/// trimmed, read as a non-negative number. Anything else replays from
/// the start; a duplicate is better than a loss.
pub open spec fn last_event_id_spec(header: Option<Seq<char>>) -> Option<i64> {
    match header {
        Some(h) => match parse_i64(trim(h)) {
            Some(n) => if n >= 0 {
                Some(n)
            } else {
                None
            },
            None => None,
        },
        None => None,
    }
}

pub fn last_event_id(header: Option<&str>) -> (r: Option<i64>)
    ensures
        r == last_event_id_spec(
            match header {
                Some(h) => Some(h@),
                None => None,
            },
        ),
{
    let h = match header {
        Some(h) => h,
        None => return None,
    };
    let chars = chars_of(h);
    let (a, b) = trim_bounds(chars.as_slice());
    match parse_i64_chars(slice_subrange(chars.as_slice(), a, b)) {
        Some(n) => if n >= 0 {
            Some(n)
        } else {
            None
        },
        None => None,
    }
}

/// Where a stream stands: the last sequence number sent, and whether the
/// run's final event has been sent.
pub struct EventCursor {
    pub seq: i64,
    pub finished: bool,
}

impl EventCursor {
    /// A stream resumes after the client's last event, or from the start.
    /// A run that has ended and whose events the client has all seen is
    /// over before anything is read.
    pub fn start(last_event_id: Option<i64>, run_terminal: bool, max_seq: i64) -> (c: EventCursor)
        ensures
            c.seq == (match last_event_id {
                Some(n) => n,
                None => 0,
            }),
            c.finished == (run_terminal && c.seq >= max_seq),
    {
        let seq = match last_event_id {
            Some(n) => n,
            None => 0,
        };
        EventCursor { seq, finished: run_terminal && seq >= max_seq }
    }

    /// One event sent: the cursor moves to it, and the run's final event
    /// ends the stream.
    pub fn absorb(&mut self, seq: i64, run_finished: bool)
        ensures
            final(self).seq == seq,
            final(self).finished == (old(self).finished || run_finished),
    {
        self.seq = seq;
        self.finished = self.finished || run_finished;
    }

    /// A full batch means more may be waiting: read again before sleeping.
    pub fn batch_was_full(len: usize) -> (b: bool)
        ensures
            b == (len == CATCHUP_BATCH),
    {
        len == 500
    }

    /// One batch read after the cursor, as (sequence number, is the run's
    /// final event), sent in order. A full batch is followed by another read
    /// at once; otherwise the stream ends once the final event went out,
    /// and waits for the next wake-up while it did not.
    pub fn take_batch(&mut self, batch: &Vec<(i64, bool)>) -> (next: StreamNext)
        ensures
            final(self).seq == (if batch@.len() == 0 {
                old(self).seq
            } else {
                batch@.last().0
            }),
            final(self).finished == (old(self).finished || exists|k: int| 0 <= k < batch@.len() && (#[trigger] batch@[k]).1),
            batch@.len() == CATCHUP_BATCH ==> next is ReadMore,
            batch@.len() != CATCHUP_BATCH && final(self).finished ==> next is End,
            batch@.len() != CATCHUP_BATCH && !final(self).finished ==> next is Wait,
    {
        let ghost f0 = self.finished;
        let mut i: usize = 0;
        while i < batch.len()
            invariant
                i <= batch@.len(),
                self.seq == (if i == 0 {
                    old(self).seq
                } else {
                    batch@[i - 1].0
                }),
                self.finished == (f0 || exists|k: int| 0 <= k < i && (#[trigger] batch@[k]).1),
                f0 == old(self).finished,
            decreases batch@.len() - i,
        {
            let (seq, fin) = batch[i];
            self.absorb(seq, fin);
            proof {
                if fin {
                    assert(batch@[i as int].1);
                }
            }
            i += 1;
        }
        if EventCursor::batch_was_full(batch.len()) {
            StreamNext::ReadMore
        } else if self.finished {
            StreamNext::End
        } else {
            StreamNext::Wait
        }
    }
}

/// What a stream does after a batch.
pub enum StreamNext {
    /// Read again at once: more may be waiting.
    ReadMore,
    /// Everything up to the run's end was sent.
    End,
    /// Caught up: wait for a wake-up or the fallback poll.
    Wait,
}

} // verus!
