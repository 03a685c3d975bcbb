use vstd::prelude::*;

mod clip;
mod effects;
mod error;
mod frame;
mod pixel;
mod sink;
mod source;
mod stream;
mod text;

pub use clip::Clip;
pub use clip::SourceParams;
pub use clip::TimeDuration;
pub use clip::VideoMetadata;
pub use clip::derive_fps_milli;
pub use clip::frame_cap_from;
pub use effects::EffectsExt;
pub use effects::crop::Crop;
pub use effects::crop::crop_frame;
pub use effects::grayscale::Grayscale;
pub use effects::grayscale::grayscale_frame;
pub use effects::resize::Resize;
pub use effects::resize::resize_frame;
pub use error::Error;
pub use error::ErrorKind;
pub use frame::Frame;
pub use frame::FrameView;
pub use frame::IterFrame;
pub use pixel::ChannelKind;
pub use pixel::Pixel;
pub use pixel::PixelFormat;
pub use pixel::Pixels;
pub use pixel::PixelsMut;
pub use pixel::Rgb;
pub use pixel::Yuv420p;
pub use sink::FrameSink;
pub use sink::MemoryFrameSink;
pub use sink::write_failure;
pub use source::FrameSource;
pub use source::MemoryFrameSource;
pub use stream::FrameStream;

verus! {

} // verus!
