//! The buffer of a file writer: records wait in it until there are enough
//! to write in one call, and closing tells whether anything was written.

use vstd::prelude::*;
use crate::sample::Sample;

verus! {

/// The records a writer holds back, and what it has handed on.
pub struct WriteBuffer {
    buffer: Vec<Sample>,
    partition_size: usize,
    wrote: bool,
    closed: bool,
}

impl WriteBuffer {
    /// The records held back, oldest first.
    pub closed spec fn pending(&self) -> Seq<Sample> {
        self.buffer@
    }

    /// The number of records at which the buffer is handed on.
    pub closed spec fn capacity(&self) -> int {
        self.partition_size as int
    }

    /// Whether any record has been handed on to be written.
    pub closed spec fn has_written(&self) -> bool {
        self.wrote
    }

    /// Whether the writer has been closed.
    pub closed spec fn is_closed(&self) -> bool {
        self.closed
    }

    /// An open buffer holds fewer records than its capacity, a closed one none.
    pub open spec fn wf(&self) -> bool {
        &&& self.capacity() > 0
        &&& self.pending().len() < self.capacity()
        &&& self.is_closed() ==> self.pending().len() == 0
    }

    /// An empty buffer that is handed on at `partition_size` records, and
    /// at every record where `partition_size` is 0.
    pub fn new(partition_size: usize) -> (r: Self)
        ensures
            r.wf(),
            r.pending().len() == 0,
            r.capacity() == (if partition_size == 0 {
                1int
            } else {
                partition_size as int
            }),
            !r.has_written(),
            !r.is_closed(),
    {
        let size = if partition_size == 0 {
            1
        } else {
            partition_size
        };
        WriteBuffer { buffer: Vec::new(), partition_size: size, wrote: false, closed: false }
    }

    /// Takes a record. Where it fills the buffer, the buffered records are
    /// handed back, oldest first, to be written in one call. A closed
    /// writer hands the record back alone and keeps nothing.
    pub fn write_sample(&mut self, sample: Sample) -> (r: Option<Vec<Sample>>)
        requires
            old(self).wf(),
        ensures
            final(self).wf(),
            final(self).capacity() == old(self).capacity(),
            final(self).is_closed() == old(self).is_closed(),
            match r {
                Some(batch) => {
                    &&& batch@ == old(self).pending().push(sample)
                    &&& (old(self).is_closed() || batch@.len() == old(self).capacity())
                    &&& final(self).pending().len() == 0
                    &&& final(self).has_written()
                },
                None => {
                    &&& !old(self).is_closed()
                    &&& final(self).pending() == old(self).pending().push(sample)
                    &&& final(self).has_written() == old(self).has_written()
                },
            },
    {
        self.buffer.push(sample);
        if self.closed || self.buffer.len() >= self.partition_size {
            let mut batch: Vec<Sample> = Vec::new();
            core::mem::swap(&mut batch, &mut self.buffer);
            self.wrote = true;
            Some(batch)
        } else {
            None
        }
    }

    /// Closes the writer: the records still held back are handed back to be
    /// written, and the flag tells whether the writer has handed on any
    /// record at all. Closing a closed writer changes nothing and hands
    /// back no records.
    pub fn close(&mut self) -> (r: (Option<Vec<Sample>>, bool))
        requires
            old(self).wf(),
        ensures
            final(self).wf(),
            final(self).is_closed(),
            final(self).capacity() == old(self).capacity(),
            final(self).pending().len() == 0,
            r.1 == final(self).has_written(),
            r.1 == (old(self).has_written() || old(self).pending().len() > 0),
            match r.0 {
                Some(batch) => batch@ == old(self).pending() && batch@.len() > 0,
                None => old(self).pending().len() == 0,
            },
            old(self).is_closed() ==> r.0 is None && r.1 == old(self).has_written(),
    {
        self.closed = true;
        if self.buffer.len() == 0 {
            return (None, self.wrote);
        }
        let mut batch: Vec<Sample> = Vec::new();
        core::mem::swap(&mut batch, &mut self.buffer);
        self.wrote = true;
        (Some(batch), true)
    }
}

/// Closing twice is closing once: the second call hands back nothing,
/// reports what the first reported, and leaves the writer as it was.
pub proof fn lemma_close_is_idempotent(
    start: WriteBuffer,
    once: WriteBuffer,
    first: (Option<Vec<Sample>>, bool),
    twice: WriteBuffer,
    second: (Option<Vec<Sample>>, bool),
)
    requires
        start.wf(),
        closes(start, once, first),
        closes(once, twice, second),
    ensures
        second.0 is None,
        second.1 == first.1,
        twice.is_closed(),
        twice.pending() == once.pending(),
        twice.has_written() == once.has_written(),
        twice.capacity() == once.capacity(),
{
}

/// What `close` promises of the writer before and after it and of its result.
pub open spec fn closes(before: WriteBuffer, after: WriteBuffer, r: (Option<Vec<Sample>>, bool)) -> bool {
    &&& after.wf()
    &&& after.is_closed()
    &&& after.capacity() == before.capacity()
    &&& after.pending().len() == 0
    &&& r.1 == after.has_written()
    &&& r.1 == (before.has_written() || before.pending().len() > 0)
    &&& match r.0 {
        Some(batch) => batch@ == before.pending() && batch@.len() > 0,
        None => before.pending().len() == 0,
    }
    &&& before.is_closed() ==> r.0 is None && r.1 == before.has_written()
}

} // verus!
