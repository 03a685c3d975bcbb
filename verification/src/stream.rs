use vstd::prelude::*;

use crate::error::Error;
use crate::error::ErrorKind;
use crate::frame::Frame;
use crate::frame::FrameView;

verus! {

/// A pull-based, one-frame-at-a-time sequence of frames: a frame
/// source adapter or an effect stage layered over one.
///
/// A stream's behaviour is its model: `frames()` is what it will still
/// yield, in order, and `failure()` is what ends the stream after
/// them — nothing, for a clean end, or the failure the next pull
/// surfaces. Each pull hands over one whole frame or settles the end;
/// frames come strictly in order and no frame is buffered across
/// pulls.
pub trait FrameStream: Sized {
    /// The frames this stream will still yield, in order.
    spec fn frames(&self) -> Seq<FrameView>;

    /// What ends the stream after the yielded frames, if anything.
    spec fn failure(&self) -> Option<ErrorKind>;

    spec fn wf(&self) -> bool;

    /// The stream's sizing hint: the frame count its source was opened
    /// with. A hint, not a promise — truncation or a refused frame can
    /// end the stream earlier.
    spec fn hint(&self) -> nat;

    /// The sizing hint; an effect stage passes its upstream's hint on
    /// unchanged, since no stage changes the frame count.
    fn size_hint(&self) -> (n: usize)
        ensures
            n == self.hint(),
    ;

    /// Pulls the next frame: the first of `frames()`, the clean end of
    /// the stream, or the failure that ends it. The pipeline stops at
    /// the first error; no partial result is ever handed over.
    fn next_frame(&mut self) -> (r: Result<Option<Frame>, Error>)
        requires
            old(self).wf(),
        ensures
            final(self).wf(),
            match r {
                Ok(Some(f)) => {
                    &&& f.wf()
                    &&& old(self).frames().len() > 0
                    &&& f@ == old(self).frames()[0]
                    &&& final(self).frames() == old(self).frames().skip(1)
                    &&& final(self).failure() == old(self).failure()
                },
                Ok(None) => {
                    &&& old(self).frames().len() == 0
                    &&& old(self).failure() is None
                    &&& final(self).frames().len() == 0
                    &&& final(self).failure() is None
                },
                Err(e) => {
                    &&& old(self).frames().len() == 0
                    &&& old(self).failure() == Some(e.spec_kind())
                },
            },
    ;
}

} // verus!
