//! The stream worker's slab-cycling state machine. A worker owns one
//! slab at a time, writes it end-to-end, and then either adopts a newer
//! slab, restarts the same one, or exits when its channel closes. The
//! I/O loop performs the socket writes; these transitions decide what is
//! written next.

use vstd::prelude::*;

verus! {

/// What a non-blocking poll of the worker's slab channel yielded.
pub enum SlabPoll {
    /// A fresh slab was delivered; it preempts the current one.
    Delivered(Vec<u8>),
    /// Nothing new arrived: the worker keeps cycling its current slab.
    Pending,
    /// The channel closed: the dispatcher dropped this worker.
    Closed,
}

/// One stream worker's state: the slab it cycles through and the write
/// cursor within it.
pub struct StreamWorker {
    pub slab: Vec<u8>,
    pub cursor: usize,
}

impl StreamWorker {
    /// The cursor never leaves the slab.
    pub open spec fn wf(self) -> bool {
        self.cursor <= self.slab@.len()
    }

    /// A worker that just received its first slab and has written
    /// nothing.
    pub fn new(slab: Vec<u8>) -> (r: StreamWorker)
        ensures
            r.wf(),
            r.slab@ == slab@,
            r.cursor == 0,
    {
        StreamWorker { slab, cursor: 0 }
    }

    /// How many bytes of the current pass are still unwritten.
    pub fn remaining(&self) -> (n: usize)
        requires
            self.wf(),
        ensures
            n == self.slab@.len() - self.cursor,
    {
        self.slab.len() - self.cursor
    }

    /// Whether the current pass over the slab is complete.
    pub fn at_end(&self) -> (b: bool)
        ensures
            b == (self.cursor == self.slab@.len()),
    {
        self.cursor == self.slab.len()
    }

    /// The bytes still to be written in this pass, in order.
    pub fn pending_bytes(&self) -> (r: Vec<u8>)
        requires
            self.wf(),
        ensures
            r@ == self.slab@.subrange(self.cursor as int, self.slab@.len() as int),
    {
        let mut out: Vec<u8> = Vec::new();
        let mut i: usize = self.cursor;
        proof {
            assert(self.slab@.subrange(self.cursor as int, self.cursor as int) =~= Seq::<
                u8,
            >::empty());
        }
        while i < self.slab.len()
            invariant
                self.cursor <= i <= self.slab@.len(),
                out@ == self.slab@.subrange(self.cursor as int, i as int),
            decreases self.slab@.len() - i,
        {
            out.push(self.slab[i]);
            proof {
                assert(self.slab@.subrange(self.cursor as int, i + 1) =~= self.slab@.subrange(
                    self.cursor as int,
                    i as int,
                ).push(self.slab@[i as int]));
            }
            i = i + 1;
        }
        out
    }

    /// Accounts for `written` bytes accepted by the socket: the cursor
    /// moves forward, the slab stays.
    pub fn advance(&mut self, written: usize)
        requires
            old(self).wf(),
            written <= old(self).slab@.len() - old(self).cursor,
        ensures
            final(self).wf(),
            final(self).slab@ == old(self).slab@,
            final(self).cursor == old(self).cursor + written,
    {
        let len = self.slab.len();
        self.cursor = self.cursor + written;
    }

    /// Applies the outcome of polling the slab channel after a complete
    /// pass: a delivered slab is adopted from its start, an empty poll
    /// restarts the current slab, and a closed channel ends the worker.
    /// Returns whether the worker exits.
    pub fn on_poll(&mut self, poll: SlabPoll) -> (exit: bool)
        requires
            old(self).wf(),
        ensures
            final(self).wf(),
            match poll {
                SlabPoll::Delivered(s) => final(self).slab@ == s@ && final(self).cursor == 0
                    && !exit,
                SlabPoll::Pending => final(self).slab@ == old(self).slab@ && final(self).cursor == 0
                    && !exit,
                SlabPoll::Closed => *final(self) == *old(self) && exit,
            },
    {
        match poll {
            SlabPoll::Delivered(slab) => {
                self.slab = slab;
                self.cursor = 0;
                false
            },
            SlabPoll::Pending => {
                self.cursor = 0;
                false
            },
            SlabPoll::Closed => true,
        }
    }
}

} // verus!
