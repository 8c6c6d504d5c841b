//! The reactor-side dispatcher's decisions: sizing the worker set to the
//! target stream count of each update, and turning the update into one
//! byte slab per worker. The I/O loop around these calls connects
//! sockets, spawns workers and sends the slabs.

use vstd::prelude::*;

use crate::frame_painter::Update;
use crate::frame_serializer::same_kind;
use crate::frame_serializer::serialization_ok;
use crate::pixel::Pixel;
use crate::slabs::build_slabs;
use crate::slabs::slab_seq;

verus! {

/// The dispatcher's worker set: one handle per live stream worker, in
/// spawn order. The handle type is the caller's (a channel sender in the
/// I/O loop); the dispatcher only decides which handles stay.
pub struct Dispatcher<H> {
    pub workers: Vec<H>,
}

impl<H> Dispatcher<H> {
    /// A dispatcher with no workers yet.
    pub fn new() -> (r: Dispatcher<H>)
        ensures
            r.workers@.len() == 0,
    {
        Dispatcher { workers: Vec::new() }
    }

    /// Applies a new target stream count to the worker set: when the set
    /// is too large, exactly the first `target` handles stay and the rest
    /// are dropped; when it is too small, nothing changes and the number
    /// of missing workers is returned for the caller to connect.
    pub fn apply_stream_count(&mut self, target: usize) -> (missing: usize)
        ensures
            old(self).workers@.len() >= target ==> final(self).workers@ == old(
                self,
            ).workers@.take(target as int) && missing == 0,
            old(self).workers@.len() < target ==> final(self).workers@ == old(self).workers@
                && missing == target - old(self).workers@.len(),
            final(self).workers@.len() + missing >= target,
    {
        if self.workers.len() >= target {
            self.workers.truncate(target);
            proof {
                assert(self.workers@ =~= old(self).workers@.take(target as int));
            }
            0
        } else {
            target - self.workers.len()
        }
    }

    /// Keeps the handle of a freshly connected worker, at the end of the
    /// set.
    pub fn add_worker(&mut self, handle: H)
        ensures
            final(self).workers@ == old(self).workers@.push(handle),
    {
        self.workers.push(handle);
    }

    /// The number of live workers.
    pub fn worker_count(&self) -> (n: usize)
        ensures
            n == self.workers@.len(),
    {
        self.workers.len()
    }

    /// The handle of worker `i`.
    pub fn worker(&self, i: usize) -> (h: &H)
        requires
            i < self.workers@.len(),
        ensures
            *h == self.workers@[i as int],
    {
        &self.workers[i]
    }
}

/// One dispatch cycle's computation: runs the update's serializer over
/// its frame and splits the emitted stream into one slab per stream. The
/// result holds, for some stream the serializer was allowed to emit,
/// exactly that stream's slabs. A serializer always emits one pixel per
/// grid cell, so the stream's length and the frame's cell count can
/// never disagree here.
pub fn update_slabs(u: &mut Update) -> (r: Vec<Vec<u8>>)
    requires
        old(u).frame.wf(),
        old(u).position.x + old(u).frame.width <= usize::MAX,
        old(u).position.y + old(u).frame.height <= usize::MAX,
    ensures
        final(u).frame == old(u).frame,
        same_kind(final(u).serializer, old(u).serializer),
        final(u).stream_count == old(u).stream_count,
        final(u).position == old(u).position,
        r@.len() == old(u).stream_count,
        exists|pixels: Seq<Pixel>|
            {
                &&& #[trigger] serialization_ok(old(u).serializer, old(u).frame, pixels)
                &&& pixels.len() == old(u).frame.width * old(u).frame.height
                &&& forall|i: int|
                    0 <= i < old(u).stream_count ==> (#[trigger] r@[i])@ == slab_seq(
                        pixels,
                        old(u).stream_count as int,
                        i,
                        old(u).position,
                    )
            },
{
    let frame = &u.frame;
    let pixels = u.serializer.serialize(frame);
    let slabs = build_slabs(&pixels, u.stream_count, u.position);
    proof {
        let witness = pixels@;
        assert(serialization_ok(old(u).serializer, old(u).frame, witness));
    }
    slabs
}

} // verus!
