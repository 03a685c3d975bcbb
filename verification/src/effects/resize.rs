use vstd::prelude::*;

use crate::error::Error;
use crate::error::ErrorKind;
use crate::frame::Frame;
use crate::frame::FrameView;
use crate::pixel::PixelFormat;
use crate::stream::FrameStream;

verus! {

/// What the resampler returns for a red, green, blue buffer of size
/// `w` by `h` brought to `nw` by `nh`: a fixed windowed-sinc filter
/// over the source pixels, a function of the bytes and the four
/// dimensions alone.
pub uninterp spec fn resize_of(bytes: Seq<u8>, w: int, h: int, nw: int, nh: int) -> Seq<u8>;

/// Whether the resize stage operates on this layout. The resampler is
/// bound to the red, green, blue layout, the one the decode side
/// produces.
pub open spec fn resize_supported(f: PixelFormat) -> bool {
    f == PixelFormat::Rgb24
}

/// The machine limits of resampling: the output buffer and the
/// resampler's intermediate one-row-per-source-column buffer must fit
/// in an allocation.
pub open spec fn resize_fits(v: FrameView, nw: int, nh: int) -> bool {
    &&& nw * nh * 3 <= usize::MAX
    &&& v.width * nh * 4 <= usize::MAX
}

/// The resampled image of a frame: the requested dimensions exactly,
/// same layout, pixel data given by the resampler. No aspect-ratio
/// correction: a requested shape that distorts the image is delivered
/// as requested.
pub open spec fn resize_view(v: FrameView, nw: int, nh: int) -> FrameView {
    FrameView {
        bytes: resize_of(v.bytes, v.width as int, v.height as int, nw, nh),
        width: nw as nat,
        height: nh as nat,
        format: v.format,
    }
}

/// Relies on `image::imageops::resize` with the `Lanczos3` filter: a
/// pure function of the pixel data and the dimensions, returning an
/// image of exactly `nw` by `nh` pixels; and on
/// `image::ImageBuffer::from_raw` accepting a buffer of exactly
/// `w * h * 3` bytes. The bounds keep the output and the resampler's
/// intermediate buffer below allocation limits, under which the calls
/// return normally.
#[verifier::external_body]
fn resize_rgb(buf: &Vec<u8>, w: u32, h: u32, nw: u32, nh: u32) -> (r: Vec<u8>)
    requires
        buf@.len() == w * h * 3,
        nw * nh * 3 <= usize::MAX,
        w * nh * 4 <= usize::MAX,
    ensures
        r@ == resize_of(buf@, w as int, h as int, nw as int, nh as int),
        r@.len() == nw * nh * 3,
{
    let img = image::ImageBuffer::<image::Rgb<u8>, Vec<u8>>::from_raw(w, h, buf.clone()).expect(
        "the buffer length matches the dimensions",
    );
    let out = image::imageops::resize(&img, nw, nh, image::imageops::FilterType::Lanczos3);
    out.into_raw()
}

/// Resamples a red, green, blue frame to exactly `nw` by `nh` pixels.
///
/// Any other layout is refused with `UnsupportedFormat`; requested
/// dimensions whose buffers cannot be allocated are a `SizeMismatch`.
pub fn resize_frame(frame: &Frame, nw: u32, nh: u32) -> (r: Result<Frame, Error>)
    requires
        frame.wf(),
    ensures
        r is Ok <==> resize_supported(frame@.format) && resize_fits(frame@, nw as int, nh as int),
        match r {
            Ok(f) => f@ == resize_view(frame@, nw as int, nh as int) && f.wf(),
            Err(e) => if !resize_supported(frame@.format) {
                e is UnsupportedFormat
            } else {
                e is SizeMismatch
            },
        },
{
    let format = frame.format();
    if !matches!(format, PixelFormat::Rgb24) {
        return Err(Error::UnsupportedFormat);
    }
    let fw = frame.width();
    proof {
        assert((nw as int) * (nh as int) * 3 < u128::MAX && (fw as int) * (nh as int) * 4
            < u128::MAX) by (nonlinear_arith)
            requires
                nw <= u32::MAX,
                nh <= u32::MAX,
                fw <= u32::MAX,
        {
        }
    }
    let out_len: u128 = (nw as u128) * (nh as u128) * 3;
    let tmp_len: u128 = (fw as u128) * (nh as u128) * 4;
    if !(out_len <= usize::MAX as u128 && tmp_len <= usize::MAX as u128) {
        return Err(Error::SizeMismatch);
    }
    let fh = frame.height();
    let out = resize_rgb(frame.as_raw(), fw, fh, nw, nh);
    let f = Frame::from_parts(out, nw, nh, format);
    proof {
        assert(f@ == resize_view(frame@, nw as int, nh as int));
    }
    Ok(f)
}

/// Whether one frame passes through the resize stage whole: its layout
/// is the one the resampler operates on and the buffers fit.
pub open spec fn resize_stage_ok(v: FrameView, nw: int, nh: int) -> bool {
    &&& resize_supported(v.format)
    &&& resize_fits(v, nw, nh)
}

/// The failure one refused frame gives: the layout first, the machine
/// limits after.
pub open spec fn resize_err_kind(v: FrameView, nw: int, nh: int) -> ErrorKind {
    if !resize_supported(v.format) {
        ErrorKind::UnsupportedFormat
    } else {
        ErrorKind::SizeMismatch
    }
}

/// What a stream yields once every frame passes through the resize:
/// the resampled frames, up to the first one the stage refuses.
pub open spec fn resize_stream(s: Seq<FrameView>, nw: int, nh: int) -> Seq<FrameView>
    decreases s.len(),
{
    if s.len() == 0 {
        Seq::empty()
    } else if resize_stage_ok(s[0], nw, nh) {
        seq![resize_view(s[0], nw, nh)] + resize_stream(s.skip(1), nw, nh)
    } else {
        Seq::empty()
    }
}

/// What ends the resampled stream: the upstream's own end, unless a
/// refused frame comes first.
pub open spec fn resize_failure(s: Seq<FrameView>, nw: int, nh: int, up: Option<ErrorKind>) -> Option<
    ErrorKind,
>
    decreases s.len(),
{
    if s.len() == 0 {
        up
    } else if resize_stage_ok(s[0], nw, nh) {
        resize_failure(s.skip(1), nw, nh, up)
    } else {
        Some(resize_err_kind(s[0], nw, nh))
    }
}

/// Resizing changes no frame count: a stream of frames the stage takes
/// comes out frame for frame, each resampled to the target shape and
/// nothing else.
pub proof fn lemma_resize_stream_keeps_count(s: Seq<FrameView>, nw: int, nh: int)
    requires
        forall|i: int| 0 <= i < s.len() ==> resize_stage_ok(#[trigger] s[i], nw, nh),
    ensures
        resize_stream(s, nw, nh).len() == s.len(),
        forall|i: int|
            0 <= i < s.len() ==> resize_stream(s, nw, nh)[i] == resize_view(
                #[trigger] s[i],
                nw,
                nh,
            ),
    decreases s.len(),
{
    if s.len() > 0 {
        lemma_resize_stream_keeps_count(s.skip(1), nw, nh);
        assert forall|i: int| 0 <= i < s.len() implies resize_stream(s, nw, nh)[i] == resize_view(
            #[trigger] s[i],
            nw,
            nh,
        ) by {
            if i > 0 {
                assert(resize_stream(s, nw, nh)[i] == resize_stream(s.skip(1), nw, nh)[i - 1]);
                assert(s.skip(1)[i - 1] == s[i]);
            }
        }
    }
}

/// The resize stage: yields its upstream's frames resampled to the
/// fixed target dimensions, one frame per pull and none buffered.
pub struct Resize<I> {
    iter: I,
    width: u32,
    height: u32,
}

impl<I> Resize<I> {
    /// The stream this stage pulls from.
    pub closed spec fn upstream(&self) -> I {
        self.iter
    }

    pub closed spec fn spec_width(&self) -> int {
        self.width as int
    }

    pub closed spec fn spec_height(&self) -> int {
        self.height as int
    }

    pub fn new(iter: I, width: u32, height: u32) -> (r: Resize<I>)
        ensures
            r.upstream() == iter,
            r.spec_width() == width,
            r.spec_height() == height,
    {
        Resize { iter, width, height }
    }
}

impl<I: FrameStream> FrameStream for Resize<I> {
    open spec fn hint(&self) -> nat {
        self.upstream().hint()
    }

    fn size_hint(&self) -> (n: usize) {
        self.iter.size_hint()
    }

    open spec fn frames(&self) -> Seq<FrameView> {
        resize_stream(self.upstream().frames(), self.spec_width(), self.spec_height())
    }

    open spec fn failure(&self) -> Option<ErrorKind> {
        resize_failure(
            self.upstream().frames(),
            self.spec_width(),
            self.spec_height(),
            self.upstream().failure(),
        )
    }

    open spec fn wf(&self) -> bool {
        self.upstream().wf()
    }

    fn next_frame(&mut self) -> (r: Result<Option<Frame>, Error>) {
        let ghost pre = *self;
        match self.iter.next_frame() {
            Ok(None) => Ok(None),
            Err(e) => Err(e),
            Ok(Some(f)) => {
                let ghost fv = f@;
                match resize_frame(&f, self.width, self.height) {
                    Ok(g) => {
                        proof {
                            assert(pre.frames()[0] == resize_view(
                                fv,
                                pre.spec_width(),
                                pre.spec_height(),
                            ));
                            assert(self.frames() =~= pre.frames().skip(1)) by {
                                assert(pre.upstream().frames().skip(1) == self.upstream().frames());
                            }
                        }
                        Ok(Some(g))
                    },
                    Err(e) => Err(e),
                }
            },
        }
    }
}

} // verus!
