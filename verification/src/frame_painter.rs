//! The caller-side painter: it keeps the resize configuration, re-resizes
//! the cached source raster on every change, and turns each change into
//! an update message for the dispatcher.

use vstd::prelude::*;

use crate::coordinate::Coordinate;
use crate::coordinate::Dimension;
use crate::frame::Frame;
use crate::frame::frame_eqv;
use crate::frame_serializer::FrameSerializer;
use crate::frame_serializer::same_kind;
use crate::resize::ResizeFilter;
use crate::resize::ResizeType;
use crate::resize::dims_valid;
use crate::resize::resize_feasible;
use crate::resize::resize_frame;
use crate::resize::resize_ok;

verus! {

/// Caches the source raster and its latest resized form, and re-resizes
/// on every configuration change.
pub struct FrameResizer {
    pub original_frame: Frame,
    pub resized_frame: Frame,
    pub dimensions: Dimension,
    pub resize_type: ResizeType,
    pub resize_filter: ResizeFilter,
}

impl FrameResizer {
    /// The shape a resizer always has: sound rasters and a positive
    /// target dimension.
    pub open spec fn wf(self) -> bool {
        &&& self.original_frame.wf()
        &&& 1 <= self.original_frame.width
        &&& 1 <= self.original_frame.height
        &&& self.resized_frame.wf()
        &&& dims_valid(self.dimensions)
    }

    /// The dimension of the cached source raster.
    pub open spec fn src_dims(self) -> Dimension {
        Dimension { width: self.original_frame.width, height: self.original_frame.height }
    }

    /// Whether a resize under the current configuration stays within the
    /// machine's limits: the output raster, and the resampler's
    /// intermediate raster of source width by target height, must both
    /// fit flat byte buffers.
    pub open spec fn feasible(self) -> bool {
        resize_feasible(self.src_dims(), self.dimensions, self.resize_type)
    }

    /// A resizer that starts from `frame` at the frame's own dimension,
    /// stretching, with the default filter.
    pub fn new(frame: Frame) -> (r: FrameResizer)
        requires
            frame.wf(),
            1 <= frame.width,
            1 <= frame.height,
        ensures
            r.wf(),
            frame_eqv(r.original_frame, frame),
            frame_eqv(r.resized_frame, frame),
            r.dimensions == (Dimension { width: frame.width, height: frame.height }),
            r.resize_type is Stretch,
            r.resize_filter is Lanczos3,
    {
        let resized = frame.duplicate();
        let dimensions = frame.dimension();
        FrameResizer {
            original_frame: frame,
            resized_frame: resized,
            dimensions,
            resize_type: ResizeType::Stretch,
            resize_filter: ResizeFilter::Lanczos3,
        }
    }

    /// A copy of the latest resized raster.
    pub fn resized_frame(&self) -> (r: Frame)
        ensures
            frame_eqv(r, self.resized_frame),
    {
        self.resized_frame.duplicate()
    }

    /// Re-resizes the cached source under the current configuration and
    /// hands out a copy of the result.
    fn resize(&mut self) -> (r: Frame)
        requires
            old(self).wf(),
            old(self).feasible(),
        ensures
            final(self).wf(),
            final(self).original_frame == old(self).original_frame,
            final(self).dimensions == old(self).dimensions,
            final(self).resize_type == old(self).resize_type,
            final(self).resize_filter == old(self).resize_filter,
            resize_ok(
                old(self).original_frame,
                old(self).dimensions,
                old(self).resize_type,
                old(self).resize_filter,
                final(self).resized_frame,
            ),
            frame_eqv(r, final(self).resized_frame),
    {
        let resized = resize_frame(
            &self.original_frame,
            self.dimensions,
            self.resize_type,
            self.resize_filter,
        );
        self.resized_frame = resized;
        self.resized_frame.duplicate()
    }

    /// Replaces the source raster and re-resizes.
    pub fn update_frame(&mut self, frame: Frame) -> (r: Frame)
        requires
            old(self).wf(),
            frame.wf(),
            1 <= frame.width,
            1 <= frame.height,
            resize_feasible(
                (Dimension { width: frame.width, height: frame.height }),
                old(self).dimensions,
                old(self).resize_type,
            ),
        ensures
            final(self).wf(),
            final(self).original_frame == frame,
            final(self).dimensions == old(self).dimensions,
            final(self).resize_type == old(self).resize_type,
            final(self).resize_filter == old(self).resize_filter,
            resize_ok(
                frame,
                old(self).dimensions,
                old(self).resize_type,
                old(self).resize_filter,
                final(self).resized_frame,
            ),
            frame_eqv(r, final(self).resized_frame),
    {
        self.original_frame = frame;
        self.resize()
    }

    /// Changes the target dimension and re-resizes.
    pub fn update_dimensions(&mut self, dimensions: Dimension) -> (r: Frame)
        requires
            old(self).wf(),
            dims_valid(dimensions),
            resize_feasible(old(self).src_dims(), dimensions, old(self).resize_type),
        ensures
            final(self).wf(),
            final(self).original_frame == old(self).original_frame,
            final(self).dimensions == dimensions,
            final(self).resize_type == old(self).resize_type,
            final(self).resize_filter == old(self).resize_filter,
            resize_ok(
                old(self).original_frame,
                dimensions,
                old(self).resize_type,
                old(self).resize_filter,
                final(self).resized_frame,
            ),
            frame_eqv(r, final(self).resized_frame),
    {
        self.dimensions = dimensions;
        self.resize()
    }

    /// Changes the fit policy and re-resizes.
    pub fn update_type(&mut self, resize_type: ResizeType) -> (r: Frame)
        requires
            old(self).wf(),
            resize_feasible(old(self).src_dims(), old(self).dimensions, resize_type),
        ensures
            final(self).wf(),
            final(self).original_frame == old(self).original_frame,
            final(self).dimensions == old(self).dimensions,
            final(self).resize_type == resize_type,
            final(self).resize_filter == old(self).resize_filter,
            resize_ok(
                old(self).original_frame,
                old(self).dimensions,
                resize_type,
                old(self).resize_filter,
                final(self).resized_frame,
            ),
            frame_eqv(r, final(self).resized_frame),
    {
        self.resize_type = resize_type;
        self.resize()
    }

    /// Changes the resampling filter and re-resizes.
    pub fn update_filter(&mut self, resize_filter: ResizeFilter) -> (r: Frame)
        requires
            old(self).wf(),
            old(self).feasible(),
        ensures
            final(self).wf(),
            final(self).original_frame == old(self).original_frame,
            final(self).dimensions == old(self).dimensions,
            final(self).resize_type == old(self).resize_type,
            final(self).resize_filter == resize_filter,
            resize_ok(
                old(self).original_frame,
                old(self).dimensions,
                old(self).resize_type,
                resize_filter,
                final(self).resized_frame,
            ),
            frame_eqv(r, final(self).resized_frame),
    {
        self.resize_filter = resize_filter;
        self.resize()
    }
}

/// One message to the dispatcher: everything a re-emission needs, frozen
/// at the moment of the configuration change that caused it.
pub struct Update {
    pub frame: Frame,
    pub serializer: FrameSerializer,
    pub stream_count: usize,
    pub position: Coordinate,
}

impl Update {
    /// The message reflects the painter's configuration as of the update:
    /// the raster resized under it, a serializer of the active strategy,
    /// and the current stream count and canvas offset. The dispatcher
    /// never sees a mix of old and new configuration.
    pub open spec fn reflects(self, p: FramePainter) -> bool {
        &&& frame_eqv(self.frame, p.resizer.resized_frame)
        &&& same_kind(self.serializer, p.serializer)
        &&& self.stream_count == p.stream_count
        &&& self.position == p.position
    }
}

/// The painter's caller-side state: the resizer, the active serializer,
/// the target stream count and the canvas offset. Every mutation
/// re-resizes as needed and yields one update message.
pub struct FramePainter {
    pub resizer: FrameResizer,
    pub serializer: FrameSerializer,
    pub stream_count: usize,
    pub position: Coordinate,
}

impl FramePainter {
    /// The shape a painter always has.
    pub open spec fn wf(self) -> bool {
        self.resizer.wf()
    }

    /// A painter that starts with `frame`, a random serializer, no
    /// streams and no canvas offset.
    pub fn new(frame: Frame) -> (r: FramePainter)
        requires
            frame.wf(),
            1 <= frame.width,
            1 <= frame.height,
        ensures
            r.wf(),
            frame_eqv(r.resizer.original_frame, frame),
            frame_eqv(r.resizer.resized_frame, frame),
            r.resizer.resize_type is Stretch,
            r.resizer.resize_filter is Lanczos3,
            r.serializer is Random,
            r.stream_count == 0,
            r.position == (Coordinate { x: 0usize, y: 0usize }),
    {
        FramePainter {
            resizer: FrameResizer::new(frame),
            serializer: FrameSerializer::random(),
            stream_count: 0,
            position: Coordinate::null(),
        }
    }

    /// The update message for the current state.
    fn emit(&self, frame: Frame) -> (u: Update)
        requires
            frame_eqv(frame, self.resizer.resized_frame),
        ensures
            u.reflects(*self),
    {
        Update {
            frame,
            serializer: self.serializer.duplicate(),
            stream_count: self.stream_count,
            position: self.position,
        }
    }

    /// Replaces the source raster; re-resizes; re-emits.
    pub fn update_frame(&mut self, frame: Frame) -> (u: Update)
        requires
            old(self).wf(),
            frame.wf(),
            1 <= frame.width,
            1 <= frame.height,
            resize_feasible(
                (Dimension { width: frame.width, height: frame.height }),
                old(self).resizer.dimensions,
                old(self).resizer.resize_type,
            ),
        ensures
            final(self).wf(),
            u.reflects(*final(self)),
            final(self).resizer.original_frame == frame,
            final(self).resizer.dimensions == old(self).resizer.dimensions,
            final(self).resizer.resize_type == old(self).resizer.resize_type,
            final(self).resizer.resize_filter == old(self).resizer.resize_filter,
            resize_ok(
                frame,
                old(self).resizer.dimensions,
                old(self).resizer.resize_type,
                old(self).resizer.resize_filter,
                final(self).resizer.resized_frame,
            ),
            final(self).serializer == old(self).serializer,
            final(self).stream_count == old(self).stream_count,
            final(self).position == old(self).position,
    {
        let resized = self.resizer.update_frame(frame);
        self.emit(resized)
    }

    /// Changes the target dimension; re-resizes; re-emits.
    pub fn update_dimensions(&mut self, dimensions: Dimension) -> (u: Update)
        requires
            old(self).wf(),
            dims_valid(dimensions),
            resize_feasible(
                old(self).resizer.src_dims(),
                dimensions,
                old(self).resizer.resize_type,
            ),
        ensures
            final(self).wf(),
            u.reflects(*final(self)),
            final(self).resizer.original_frame == old(self).resizer.original_frame,
            final(self).resizer.dimensions == dimensions,
            final(self).resizer.resize_type == old(self).resizer.resize_type,
            final(self).resizer.resize_filter == old(self).resizer.resize_filter,
            resize_ok(
                old(self).resizer.original_frame,
                dimensions,
                old(self).resizer.resize_type,
                old(self).resizer.resize_filter,
                final(self).resizer.resized_frame,
            ),
            final(self).serializer == old(self).serializer,
            final(self).stream_count == old(self).stream_count,
            final(self).position == old(self).position,
    {
        let resized = self.resizer.update_dimensions(dimensions);
        self.emit(resized)
    }

    /// Changes the fit policy; re-resizes; re-emits.
    pub fn update_resize_type(&mut self, resize_type: ResizeType) -> (u: Update)
        requires
            old(self).wf(),
            resize_feasible(
                old(self).resizer.src_dims(),
                old(self).resizer.dimensions,
                resize_type,
            ),
        ensures
            final(self).wf(),
            u.reflects(*final(self)),
            final(self).resizer.original_frame == old(self).resizer.original_frame,
            final(self).resizer.dimensions == old(self).resizer.dimensions,
            final(self).resizer.resize_type == resize_type,
            final(self).resizer.resize_filter == old(self).resizer.resize_filter,
            resize_ok(
                old(self).resizer.original_frame,
                old(self).resizer.dimensions,
                resize_type,
                old(self).resizer.resize_filter,
                final(self).resizer.resized_frame,
            ),
            final(self).serializer == old(self).serializer,
            final(self).stream_count == old(self).stream_count,
            final(self).position == old(self).position,
    {
        let resized = self.resizer.update_type(resize_type);
        self.emit(resized)
    }

    /// Changes the resampling filter; re-resizes; re-emits.
    pub fn update_resize_filter(&mut self, resize_filter: ResizeFilter) -> (u: Update)
        requires
            old(self).wf(),
            old(self).resizer.feasible(),
        ensures
            final(self).wf(),
            u.reflects(*final(self)),
            final(self).resizer.original_frame == old(self).resizer.original_frame,
            final(self).resizer.dimensions == old(self).resizer.dimensions,
            final(self).resizer.resize_type == old(self).resizer.resize_type,
            final(self).resizer.resize_filter == resize_filter,
            resize_ok(
                old(self).resizer.original_frame,
                old(self).resizer.dimensions,
                old(self).resizer.resize_type,
                resize_filter,
                final(self).resizer.resized_frame,
            ),
            final(self).serializer == old(self).serializer,
            final(self).stream_count == old(self).stream_count,
            final(self).position == old(self).position,
    {
        let resized = self.resizer.update_filter(resize_filter);
        self.emit(resized)
    }

    /// Changes the canvas offset; re-emits without resizing.
    pub fn update_position(&mut self, position: Coordinate) -> (u: Update)
        requires
            old(self).wf(),
        ensures
            final(self).wf(),
            u.reflects(*final(self)),
            final(self).resizer == old(self).resizer,
            final(self).serializer == old(self).serializer,
            final(self).stream_count == old(self).stream_count,
            final(self).position == position,
    {
        let frame = self.resizer.resized_frame();
        self.position = position;
        self.emit(frame)
    }

    /// Changes the target stream count; re-emits without resizing.
    pub fn update_stream_count(&mut self, count: usize) -> (u: Update)
        requires
            old(self).wf(),
        ensures
            final(self).wf(),
            u.reflects(*final(self)),
            final(self).resizer == old(self).resizer,
            final(self).serializer == old(self).serializer,
            final(self).stream_count == count,
            final(self).position == old(self).position,
    {
        let frame = self.resizer.resized_frame();
        self.stream_count = count;
        self.emit(frame)
    }

    /// Replaces the serializer; re-emits without resizing.
    pub fn update_serializer(&mut self, serializer: FrameSerializer) -> (u: Update)
        requires
            old(self).wf(),
        ensures
            final(self).wf(),
            u.reflects(*final(self)),
            final(self).resizer == old(self).resizer,
            final(self).serializer == serializer,
            final(self).stream_count == old(self).stream_count,
            final(self).position == old(self).position,
    {
        let frame = self.resizer.resized_frame();
        self.serializer = serializer;
        self.emit(frame)
    }
}

} // verus!
