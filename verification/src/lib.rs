//! A verified core for a pixel-flooding canvas client: it renders an
//! RGBA raster into `PX <x> <y> <hex-color>` command lines, partitions
//! the traffic into one slab per TCP stream, and drives the dispatcher
//! and stream-worker state machines that keep those streams saturated.

pub mod coordinate;
pub mod dispatcher;
pub mod encode;
pub mod field;
pub mod frame;
pub mod frame_painter;
pub mod frame_serializer;
pub mod pixel;
pub mod resize;
mod rng;
pub mod settings;
pub mod slabs;
pub mod worker;

pub use coordinate::Coordinate;
pub use coordinate::Dimension;
pub use dispatcher::Dispatcher;
pub use dispatcher::update_slabs;
pub use encode::push_pixel;
pub use field::Field;
pub use field::FieldCoordinatesIterator;
pub use field::field_from_frame;
pub use frame::Frame;
pub use frame_painter::FramePainter;
pub use frame_painter::FrameResizer;
pub use frame_painter::Update;
pub use frame_serializer::ColumnSerializer;
pub use frame_serializer::FrameSerializer;
pub use frame_serializer::RandomSerializer;
pub use frame_serializer::RowSerializer;
pub use pixel::Color;
pub use pixel::Pixel;
pub use resize::ResizeFilter;
pub use resize::ResizeType;
pub use resize::resize_feasible_check;
pub use settings::Image;
pub use settings::Style;
pub use slabs::build_slabs;
pub use worker::SlabPoll;
pub use worker::StreamWorker;
