//! Batching of run events.
//!
//! One AI execution emits hundreds of `agent_text` events. One transaction per
//! event would swamp the database; batching too long would make the UI stop
//! being live. A batch is written when [`MAX_BATCH`] events are waiting or
//! [`FLUSH_INTERVAL_MS`] has passed since the last write, whichever comes
//! first. Writing is the caller's work; this buffer decides when, and keeps a
//! failed batch in order.

use vstd::prelude::*;

verus! {

/// A batch is written once this many events wait.
pub const MAX_BATCH: usize = 32;

/// A batch is written at least this often (milliseconds). It has to stay
/// well under the one second within which a click must show live events.
pub const FLUSH_INTERVAL_MS: u64 = 200;

/// At most this many unwritten events are kept after a failed write. Only a
/// database that stays down gets here, and then keeping the process alive
/// matters more than keeping the events.
pub const MAX_PENDING: usize = 10_000;

/// Events waiting to be written, oldest first.
pub struct EventBuffer<T> {
    buffer: Vec<T>,
    last_flush_ms: u64,
}

impl<T> EventBuffer<T> {
    /// The waiting events, oldest first.
    pub closed spec fn events(&self) -> Seq<T> {
        self.buffer@
    }

    /// When the last write started (milliseconds on a monotonic clock).
    pub closed spec fn last_flush(&self) -> u64 {
        self.last_flush_ms
    }

    /// An empty buffer whose interval starts at `now_ms`.
    pub fn new(now_ms: u64) -> (b: EventBuffer<T>)
        ensures
            b.events().len() == 0,
            b.last_flush() == now_ms,
    {
        EventBuffer { buffer: Vec::new(), last_flush_ms: now_ms }
    }

    /// Milliseconds since the last write started.
    pub open spec fn elapsed(&self, now_ms: u64) -> int {
        if now_ms >= self.last_flush() {
            now_ms - self.last_flush()
        } else {
            0
        }
    }

    /// Appends an event and says whether a write is due.
    pub fn push(&mut self, event: T, now_ms: u64) -> (due: bool)
        ensures
            final(self).events() == old(self).events().push(event),
            final(self).last_flush() == old(self).last_flush(),
            due == (final(self).events().len() >= MAX_BATCH || old(self).elapsed(now_ms)
                >= FLUSH_INTERVAL_MS),
    {
        self.buffer.push(event);
        self.buffer.len() >= MAX_BATCH || now_ms.saturating_sub(self.last_flush_ms)
            >= FLUSH_INTERVAL_MS
    }

    /// Starts a write: hands out every waiting event and restarts the
    /// interval. With nothing waiting, only the interval restarts.
    pub fn take_batch(&mut self, now_ms: u64) -> (batch: Vec<T>)
        ensures
            batch@ == old(self).events(),
            final(self).events().len() == 0,
            final(self).last_flush() == now_ms,
    {
        let mut batch: Vec<T> = Vec::new();
        std::mem::swap(&mut batch, &mut self.buffer);
        self.last_flush_ms = now_ms;
        batch
    }

    /// A write of `batch` failed. The batch goes back in front of whatever
    /// arrived since, because events are ordered and replay must see them in
    /// order; unless that would exceed [`MAX_PENDING`], in which case the
    /// batch is dropped. Returns whether it was kept.
    pub fn restore_failed(&mut self, batch: Vec<T>) -> (kept: bool)
        ensures
            kept == (batch@.len() + old(self).events().len() <= MAX_PENDING),
            kept ==> final(self).events() == batch@ + old(self).events(),
            !kept ==> final(self).events() == old(self).events(),
            final(self).last_flush() == old(self).last_flush(),
    {
        if batch.len() <= MAX_PENDING && self.buffer.len() <= MAX_PENDING - batch.len() {
            let mut merged = batch;
            merged.append(&mut self.buffer);
            self.buffer = merged;
            true
        } else {
            false
        }
    }

    /// Milliseconds until a write is due by the interval.
    pub fn until_next_flush(&self, now_ms: u64) -> (ms: u64)
        ensures
            ms == (if self.elapsed(now_ms) >= FLUSH_INTERVAL_MS {
                0
            } else {
                FLUSH_INTERVAL_MS - self.elapsed(now_ms)
            }),
    {
        FLUSH_INTERVAL_MS.saturating_sub(now_ms.saturating_sub(self.last_flush_ms))
    }

    /// How many events wait.
    pub fn pending(&self) -> (n: usize)
        ensures
            n == self.events().len(),
    {
        self.buffer.len()
    }
}

} // verus!
