use vstd::prelude::*;

pub mod crop;
pub mod grayscale;
pub mod resize;

use crate::stream::FrameStream;
use crop::Crop;
use grayscale::Grayscale;
use resize::Resize;

verus! {

/// Composition over frame streams: each method wraps the stream in one
/// effect stage, which holds it as its upstream. Stages compose in any
/// order; each pulls one frame at a time from the stage below it.
pub trait EffectsExt: FrameStream {
    /// Wraps the stream in a grayscale stage.
    fn grayscale(self) -> (r: Grayscale<Self>)
        ensures
            r.upstream() == self,
    ;

    /// Wraps the stream in a crop stage cutting the rectangle with
    /// corner `(x, y)` and size `width` by `height` out of every
    /// frame.
    fn crop(self, x: u32, y: u32, width: u32, height: u32) -> (r: Crop<Self>)
        ensures
            r.upstream() == self,
            r.spec_x() == x,
            r.spec_y() == y,
            r.spec_width() == width,
            r.spec_height() == height,
    ;

    /// Wraps the stream in a resize stage resampling every frame to
    /// `width` by `height` pixels.
    fn resize(self, width: u32, height: u32) -> (r: Resize<Self>)
        ensures
            r.upstream() == self,
            r.spec_width() == width,
            r.spec_height() == height,
    ;
}

impl<I: FrameStream> EffectsExt for I {
    fn grayscale(self) -> (r: Grayscale<Self>) {
        Grayscale::new(self)
    }

    fn crop(self, x: u32, y: u32, width: u32, height: u32) -> (r: Crop<Self>) {
        Crop::new(self, x, y, width, height)
    }

    fn resize(self, width: u32, height: u32) -> (r: Resize<Self>) {
        Resize::new(self, width, height)
    }
}

} // verus!
