use vstd::prelude::*;

use crate::error::Error;
use crate::error::ErrorKind;
use crate::frame::Frame;
use crate::frame::FrameView;
use crate::pixel::PixelFormat;
use crate::stream::FrameStream;

verus! {

/// The luma value of a red, green, blue triple under the fixed weights
/// 30/100, 59/100 and 11/100, each product truncated before the sum.
///
/// Truncating each term separately is the documented rounding rule; the
/// three truncated terms sum to at most 254, so the value is a byte.
pub open spec fn spec_luma(r: int, g: int, b: int) -> int {
    r * 30 / 100 + g * 59 / 100 + b * 11 / 100
}

/// Whether the grayscale stage operates on this layout: it reads red,
/// green and blue channels, so it takes exactly the red, green, blue
/// layout, as the decode side produces it.
pub open spec fn gray_supported(f: PixelFormat) -> bool {
    f == PixelFormat::Rgb24
}

/// A red, green, blue buffer with every pixel's channels replaced by
/// that pixel's luma value: channel values are equalized, the layout is
/// kept.
pub open spec fn gray_bytes(s: Seq<u8>) -> Seq<u8> {
    Seq::new(
        s.len(),
        |i: int|
            spec_luma(s[3 * (i / 3)] as int, s[3 * (i / 3) + 1] as int, s[3 * (i / 3) + 2] as int)
                as u8,
    )
}

/// The grayscale image of a frame: same dimensions, same layout, every
/// channel of every pixel holding the pixel's luma value.
pub open spec fn gray_view(v: FrameView) -> FrameView {
    FrameView { bytes: gray_bytes(v.bytes), width: v.width, height: v.height, format: v.format }
}

/// The luma value of the pixel at flat index `k`.
pub open spec fn pixel_luma(v: FrameView, k: int) -> int {
    spec_luma(
        v.pixel_at(k)[0] as int,
        v.pixel_at(k)[1] as int,
        v.pixel_at(k)[2] as int,
    )
}

/// A luma value that the weights leave in place. Truncation makes this
/// rare: only bytes the three truncated terms rebuild exactly qualify.
pub open spec fn luma_fixed(l: int) -> bool {
    spec_luma(l, l, l) == l
}

/// Applying grayscale twice gives the same frame as applying it once,
/// on frames all of whose pixels have a luma value that the weights
/// leave in place.
///
/// The restriction is forced by the truncation rule: a second pass maps
/// a pixel whose three equal channels hold `l` to `spec_luma(l, l, l)`,
/// which truncation can place below `l`.
pub proof fn lemma_grayscale_idempotent(v: FrameView)
    requires
        v.wf(),
        v.format == PixelFormat::Rgb24,
        forall|k: int|
            0 <= k < v.width * v.height ==> luma_fixed(#[trigger] pixel_luma(v, k)),
    ensures
        gray_view(gray_view(v)) == gray_view(v),
{
    let b = v.bytes;
    let g = gray_bytes(b);
    let count = (v.width * v.height) as int;
    assert(b.len() == count * 3);
    assert forall|i: int| 0 <= i < b.len() implies gray_bytes(g)[i] == g[i] by {
        let k = i / 3;
        assert(0 <= k < count && 3 * k <= i < 3 * k + 3) by (nonlinear_arith)
            requires
                0 <= i < count * 3,
                k == i / 3,
        {
        }
        crate::frame::lemma_flat_index_bound(k, count, 3);
        assert((3 * k) / 3 == k && (3 * k + 1) / 3 == k && (3 * k + 2) / 3 == k)
            by (nonlinear_arith);
        let l = pixel_luma(v, k);
        assert(v.pixel_at(k)[0] == b[3 * k] && v.pixel_at(k)[1] == b[3 * k + 1] && v.pixel_at(k)[2]
            == b[3 * k + 2]);
        assert(g[3 * k] == l as u8 && g[3 * k + 1] == l as u8 && g[3 * k + 2] == l as u8);
        assert(luma_fixed(l));
        assert(0 <= l <= 254) by {
            lemma_luma_bounds(b[3 * k] as int, b[3 * k + 1] as int, b[3 * k + 2] as int);
        }
        assert(gray_bytes(g)[i] == spec_luma(l, l, l) as u8);
        assert(g[i] == l as u8);
    }
    assert(gray_bytes(g) =~= g);
}

/// The luma sum is itself a byte.
pub proof fn lemma_luma_bounds(r: int, g: int, b: int)
    requires
        0 <= r <= 255,
        0 <= g <= 255,
        0 <= b <= 255,
    ensures
        0 <= spec_luma(r, g, b) <= 254,
{
}

/// Replaces every pixel of a red, green, blue frame by its luma value,
/// replicated into all three channels: channel values are equalized,
/// the layout is kept, never narrowed to a single channel.
///
/// Any other layout is refused with `UnsupportedFormat`; the caller
/// stops at the first error, so the refused frame is dropped with it.
pub fn grayscale_frame(frame: Frame) -> (r: Result<Frame, Error>)
    requires
        frame.wf(),
    ensures
        r is Ok <==> gray_supported(frame@.format),
        match r {
            Ok(g) => g@ == gray_view(frame@) && g.wf(),
            Err(e) => e is UnsupportedFormat,
        },
{
    let format = frame.format();
    if !matches!(format, PixelFormat::Rgb24) {
        return Err(Error::UnsupportedFormat);
    }
    let ghost v0 = frame@;
    let count = frame.pixel_count();
    let mut pm = frame.pixels_mut();
    let mut k: usize = 0;
    while k < count
        invariant
            k <= count,
            count == v0.width * v0.height,
            v0.format == PixelFormat::Rgb24,
            v0.wf(),
            pm.wf(),
            pm.at() == k,
            pm.frame_view().width == v0.width,
            pm.frame_view().height == v0.height,
            pm.frame_view().format == v0.format,
            pm.frame_view().bytes =~= gray_bytes(v0.bytes).take(3 * k).add(v0.bytes.skip(3 * k)),
        decreases count - k,
    {
        let px = match pm.peek() {
            Some(px) => px,
            None => {
                proof {
                    assert(false);
                }
                return Err(Error::UnsupportedFormat);
            },
        };
        proof {
            crate::frame::lemma_flat_index_bound(k as int, count as int, 3);
            assert(px@ =~= v0.bytes.subrange(3 * k, 3 * k + 3));
            assert(px@.len() == 3);
        }
        let l = ((px[0] as u32) * 30 / 100 + (px[1] as u32) * 59 / 100 + (px[2] as u32) * 11 / 100)
            as u8;
        let mut gp: Vec<u8> = Vec::new();
        gp.push(l);
        gp.push(l);
        gp.push(l);
        let ghost before = pm.frame_view();
        let replaced = pm.replace_next(&gp);
        proof {
            assert(replaced is Some);
            assert(pm.frame_view().bytes =~= gray_bytes(v0.bytes).take(3 * (k + 1)).add(
                v0.bytes.skip(3 * (k + 1)),
            )) by {
                assert(pm.frame_view() == before.with_pixel_at(k as int, gp@));
                assert(l as int == spec_luma(
                    v0.bytes[3 * k] as int,
                    v0.bytes[3 * k + 1] as int,
                    v0.bytes[3 * k + 2] as int,
                ));
                assert forall|i: int| 0 <= i < v0.bytes.len() implies pm.frame_view().bytes[i]
                    == gray_bytes(v0.bytes).take(3 * (k + 1)).add(v0.bytes.skip(3 * (k + 1)))[i] by {
                    assert(3 * (i / 3) <= i < 3 * (i / 3) + 3);
                }
            }
        }
        k += 1;
    }
    proof {
        assert((v0.width * v0.height) * v0.channels() == v0.bytes.len());
        assert((v0.width * v0.height) * 3 == v0.bytes.len());
        assert(count * 3 == v0.bytes.len());
        assert(3 * count == v0.bytes.len());
        assert(pm.frame_view().bytes =~= gray_bytes(v0.bytes));
    }
    let out = pm.finish();
    proof {
        assert(out@ == gray_view(v0));
    }
    Ok(out)
}

/// What a stream yields once every frame passes through grayscale: the
/// grayed frames, up to the first one whose layout the stage refuses.
pub open spec fn gray_stream(s: Seq<FrameView>) -> Seq<FrameView>
    decreases s.len(),
{
    if s.len() == 0 {
        Seq::empty()
    } else if gray_supported(s[0].format) {
        seq![gray_view(s[0])] + gray_stream(s.skip(1))
    } else {
        Seq::empty()
    }
}

/// What ends the grayed stream: the upstream's own end, unless a frame
/// of a refused layout comes first.
pub open spec fn gray_failure(s: Seq<FrameView>, up: Option<ErrorKind>) -> Option<ErrorKind>
    decreases s.len(),
{
    if s.len() == 0 {
        up
    } else if gray_supported(s[0].format) {
        gray_failure(s.skip(1), up)
    } else {
        Some(ErrorKind::UnsupportedFormat)
    }
}

/// Grayscale changes no frame count: a stream of frames the stage
/// takes comes out frame for frame, each replaced by its grayscale
/// image and nothing else.
pub proof fn lemma_gray_stream_keeps_count(s: Seq<FrameView>)
    requires
        forall|i: int| 0 <= i < s.len() ==> gray_supported(#[trigger] s[i].format),
    ensures
        gray_stream(s).len() == s.len(),
        forall|i: int| 0 <= i < s.len() ==> gray_stream(s)[i] == gray_view(#[trigger] s[i]),
    decreases s.len(),
{
    if s.len() > 0 {
        lemma_gray_stream_keeps_count(s.skip(1));
        assert forall|i: int| 0 <= i < s.len() implies gray_stream(s)[i] == gray_view(
            #[trigger] s[i],
        ) by {
            if i > 0 {
                assert(gray_stream(s)[i] == gray_stream(s.skip(1))[i - 1]);
                assert(s.skip(1)[i - 1] == s[i]);
            }
        }
    }
}

/// The grayscale stage: yields its upstream's frames, each replaced by
/// its grayscale image, one frame per pull and none buffered.
pub struct Grayscale<I> {
    iter: I,
}

impl<I> Grayscale<I> {
    /// The stream this stage pulls from.
    pub closed spec fn upstream(&self) -> I {
        self.iter
    }

    pub fn new(iter: I) -> (r: Grayscale<I>)
        ensures
            r.upstream() == iter,
    {
        Grayscale { iter }
    }
}

impl<I: FrameStream> FrameStream for Grayscale<I> {
    open spec fn hint(&self) -> nat {
        self.upstream().hint()
    }

    fn size_hint(&self) -> (n: usize) {
        self.iter.size_hint()
    }

    open spec fn frames(&self) -> Seq<FrameView> {
        gray_stream(self.upstream().frames())
    }

    open spec fn failure(&self) -> Option<ErrorKind> {
        gray_failure(self.upstream().frames(), self.upstream().failure())
    }

    open spec fn wf(&self) -> bool {
        self.upstream().wf()
    }

    fn next_frame(&mut self) -> (r: Result<Option<Frame>, Error>) {
        let ghost pre = *self;
        match self.iter.next_frame() {
            Ok(None) => Ok(None),
            Err(e) => Err(e),
            Ok(Some(f)) => {
                let ghost fv = f@;
                match grayscale_frame(f) {
                    Ok(g) => {
                        proof {
                            assert(pre.frames()[0] == gray_view(fv));
                            assert(self.frames() =~= pre.frames().skip(1)) by {
                                assert(pre.upstream().frames().skip(1) == self.upstream().frames());
                            }
                        }
                        Ok(Some(g))
                    },
                    Err(e) => Err(e),
                }
            },
        }
    }
}

} // verus!
