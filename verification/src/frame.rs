use vstd::prelude::*;

use crate::error::Error;
use crate::pixel::Pixel;
use crate::pixel::PixelFormat;
use crate::stream::FrameStream;

verus! {

/// The mathematical value of a [`Frame`]: its bytes, its dimensions and
/// its pixel format.
pub ghost struct FrameView {
    pub bytes: Seq<u8>,
    pub width: nat,
    pub height: nat,
    pub format: PixelFormat,
}

impl FrameView {
    /// How many 8-bit samples one pixel occupies.
    pub open spec fn channels(self) -> nat {
        self.format.spec_channel_count()
    }

    /// The layout invariant: the buffer holds exactly one sample per
    /// channel of every pixel.
    pub open spec fn wf(self) -> bool {
        self.bytes.len() == self.width * self.height * self.channels()
    }

    /// The channel values of the pixel at flat (row-major) index `k`.
    pub open spec fn pixel_at(self, k: int) -> Seq<u8> {
        self.bytes.subrange(k * self.channels(), k * self.channels() + self.channels())
    }

    /// The channel values of the pixel in column `i` of row `j`.
    pub open spec fn pixel(self, i: int, j: int) -> Seq<u8> {
        self.pixel_at(j * self.width + i)
    }

    /// All pixels in row-major order, each as its channel values.
    pub open spec fn pixel_seq(self) -> Seq<Seq<u8>> {
        Seq::new(self.width * self.height, |k: int| self.pixel_at(k))
    }

    /// The same frame with the pixel at flat index `k` replaced by `px`.
    pub open spec fn with_pixel_at(self, k: int, px: Seq<u8>) -> FrameView {
        FrameView {
            bytes: self.bytes.take(k * self.channels()).add(px).add(
                self.bytes.skip(k * self.channels() + self.channels()),
            ),
            width: self.width,
            height: self.height,
            format: self.format,
        }
    }
}

/// Row-major index arithmetic stays inside the buffer.
pub proof fn lemma_pixel_index_bound(i: int, j: int, w: int, h: int, c: int)
    requires
        0 <= i < w,
        0 <= j < h,
        0 < c,
    ensures
        0 <= j * w,
        j * w + i < w * h,
        j * w + i <= w * h * c,
        0 <= (j * w + i) * c,
        (j * w + i) * c + c <= w * h * c,
{
    assert(0 <= j * w && j * w + i < w * h && j * w + i <= w * h * c && 0 <= (j * w + i) * c && (j
        * w + i) * c + c <= w * h * c) by (nonlinear_arith)
        requires
            0 <= i < w,
            0 <= j < h,
            0 < c,
    {
    }
}

/// A flat pixel index stays inside the buffer.
pub proof fn lemma_flat_index_bound(k: int, n: int, c: int)
    requires
        0 <= k < n,
        0 < c,
    ensures
        0 <= k * c,
        k * c + c <= n * c,
{
    assert(0 <= k * c && k * c + c <= n * c) by (nonlinear_arith)
        requires
            0 <= k < n,
            0 < c,
    {
    }
}

/// A buffer that holds every channel of every pixel has room for the
/// pixel count itself.
pub proof fn lemma_pixel_count_bound(n: int, c: int)
    requires
        0 <= n,
        1 <= c,
    ensures
        n <= n * c,
        (n * c) / c == n,
{
    assert(n <= n * c && (n * c) / c == n) by (nonlinear_arith)
        requires
            0 <= n,
            1 <= c,
    {
    }
}

/// One decoded frame: an owned byte buffer, the frame's dimensions and
/// the pixel format that gives the bytes their meaning.
///
/// Invariant (checked at construction, kept by every operation): the
/// buffer holds exactly `width * height * channel_count` bytes.
pub struct Frame {
    buffer: Vec<u8>,
    width: u32,
    height: u32,
    format: PixelFormat,
}

impl View for Frame {
    type V = FrameView;

    closed spec fn view(&self) -> FrameView {
        FrameView {
            bytes: self.buffer@,
            width: self.width as nat,
            height: self.height as nat,
            format: self.format,
        }
    }
}

impl Frame {
    /// The layout invariant, at the level of the concrete type.
    pub open spec fn wf(self) -> bool {
        self@.wf()
    }

    /// Takes ownership of a raw frame buffer.
    ///
    /// Succeeds exactly when the buffer length matches the dimensions
    /// and format; any other length is a `SizeMismatch`, never a
    /// silently truncated or padded frame.
    pub fn from_vec(buffer: Vec<u8>, dims: (u32, u32), format: PixelFormat) -> (r: Result<
        Frame,
        Error,
    >)
        ensures
            r is Ok <==> buffer@.len() == dims.0 * dims.1 * format.spec_channel_count(),
            match r {
                Ok(f) => f@ == (FrameView {
                    bytes: buffer@,
                    width: dims.0 as nat,
                    height: dims.1 as nat,
                    format,
                }) && f.wf(),
                Err(e) => e is SizeMismatch,
            },
    {
        let (width, height) = dims;
        let c = format.channel_count();
        proof {
            assert((width as int) * (height as int) * (c as int) < u128::MAX) by (nonlinear_arith)
                requires
                    width <= u32::MAX,
                    height <= u32::MAX,
                    c <= u8::MAX,
            {
            }
        }
        let wanted: u128 = (width as u128) * (height as u128) * (c as u128);
        if (buffer.len() as u128) == wanted {
            Ok(Frame { buffer, width, height, format })
        } else {
            Err(Error::SizeMismatch)
        }
    }

    /// Builds a frame from parts that already satisfy the layout
    /// invariant; internal, so that no caller can skip the length check
    /// of [`Frame::from_vec`].
    pub(crate) fn from_parts(buffer: Vec<u8>, width: u32, height: u32, format: PixelFormat) -> (f:
        Frame)
        requires
            buffer@.len() == width * height * format.spec_channel_count(),
        ensures
            f@ == (FrameView {
                bytes: buffer@,
                width: width as nat,
                height: height as nat,
                format,
            }),
            f.wf(),
    {
        Frame { buffer, width, height, format }
    }

    pub fn width(&self) -> (w: u32)
        ensures
            w as nat == self@.width,
    {
        self.width
    }

    pub fn height(&self) -> (h: u32)
        ensures
            h as nat == self@.height,
    {
        self.height
    }

    pub fn format(&self) -> (f: PixelFormat)
        ensures
            f == self@.format,
    {
        self.format
    }

    /// Borrows the raw buffer.
    pub fn as_raw(&self) -> (r: &Vec<u8>)
        ensures
            r@ == self@.bytes,
    {
        &self.buffer
    }

    /// Gives the raw buffer back, consuming the frame.
    pub fn into_raw(self) -> (r: Vec<u8>)
        ensures
            r@ == self@.bytes,
    {
        self.buffer
    }

    /// How many pixels the frame holds.
    pub fn pixel_count(&self) -> (n: usize)
        requires
            self.wf(),
        ensures
            n == self@.width * self@.height,
    {
        proof {
            lemma_pixel_count_bound(
                (self@.width * self@.height) as int,
                self@.channels() as int,
            );
        }
        let c = self.format.channel_count() as usize;
        self.buffer.len() / c
    }

    /// Copies the channel values of the pixel at flat (row-major) index `k`.
    pub fn pixel_at_flat(&self, k: usize) -> (r: Vec<u8>)
        requires
            self.wf(),
            k < self@.width * self@.height,
        ensures
            r@ == self@.pixel_at(k as int),
    {
        let n = self.buffer.len();
        proof {
            lemma_flat_index_bound(
                k as int,
                (self@.width * self@.height) as int,
                self@.channels() as int,
            );
        }
        let c = self.format.channel_count() as usize;
        let base: usize = k * c;
        let mut px: Vec<u8> = Vec::new();
        let mut m: usize = 0;
        while m < c
            invariant
                m <= c,
                c == self@.channels(),
                base == k * c,
                n == self@.bytes.len(),
                base + c <= n,
                px@ =~= self@.bytes.subrange(base as int, base + m),
            decreases c - m,
        {
            px.push(self.buffer[base + m]);
            m += 1;
        }
        proof {
            assert(px@ =~= self@.pixel_at(k as int));
        }
        px
    }

    /// A pass over the frame's pixels, front to back.
    pub fn pixels(&self) -> (p: crate::pixel::Pixels<'_>)
        requires
            self.wf(),
        ensures
            p.wf(),
            p.frame_view() == self@,
            p.at() == 0,
    {
        crate::pixel::Pixels::new(self)
    }

    /// A mutating pass over the frame's pixels; consumes the frame,
    /// which [`crate::pixel::PixelsMut::finish`] hands back.
    pub fn pixels_mut(self) -> (p: crate::pixel::PixelsMut)
        requires
            self.wf(),
        ensures
            p.wf(),
            p.frame_view() == self@,
            p.at() == 0,
    {
        crate::pixel::PixelsMut::new(self)
    }

    /// Applies a per-pixel function to every pixel in place: same
    /// format, same dimensions, each pixel replaced by what the
    /// function made of it, and hands the frame back.
    ///
    /// The function must take every pixel; what it may return is the
    /// caller's contract with it, and each output pixel is one of the
    /// function's possible answers for the input pixel that stood
    /// there.
    pub fn transform<F: Fn(crate::pixel::Rgb) -> crate::pixel::Rgb>(self, f: F) -> (r: Frame)
        requires
            self.wf(),
            self@.format == PixelFormat::Rgb24,
            forall|p: crate::pixel::Rgb| #[trigger] call_requires(f, (p,)),
        ensures
            r.wf(),
            r@.width == self@.width,
            r@.height == self@.height,
            r@.format == self@.format,
            forall|k: int|
                0 <= k < self@.width * self@.height ==> call_ensures(
                    f,
                    (crate::pixel::rgb_of(self@.pixel_at(k)),),
                    crate::pixel::rgb_of(#[trigger] r@.pixel_at(k)),
                ),
    {
        let ghost v0 = self@;
        let count = self.pixel_count();
        let mut pm = self.pixels_mut();
        let mut k: usize = 0;
        while k < count
            invariant
                k <= count,
                count == v0.width * v0.height,
                v0.wf(),
                v0.format == PixelFormat::Rgb24,
                forall|p: crate::pixel::Rgb| #[trigger] call_requires(f, (p,)),
                pm.wf(),
                pm.at() == k,
                pm.frame_view().width == v0.width,
                pm.frame_view().height == v0.height,
                pm.frame_view().format == v0.format,
                pm.frame_view().bytes.len() == v0.bytes.len(),
                forall|i: int|
                    k <= i < count ==> #[trigger] pm.frame_view().pixel_at(i) == v0.pixel_at(i),
                forall|i: int|
                    0 <= i < k ==> call_ensures(
                        f,
                        (crate::pixel::rgb_of(v0.pixel_at(i)),),
                        crate::pixel::rgb_of(#[trigger] pm.frame_view().pixel_at(i)),
                    ),
            decreases count - k,
        {
            let px = match pm.peek() {
                Some(px) => px,
                None => {
                    proof {
                        assert(false);
                    }
                    continue ;
                },
            };
            proof {
                lemma_flat_index_bound(k as int, count as int, v0.channels() as int);
                assert(px@ == v0.pixel_at(k as int));
                assert(px@.len() == 3);
            }
            let p = crate::pixel::Rgb::from_slice(px.as_slice());
            proof {
                assert(p.0 =~= crate::pixel::rgb_of(v0.pixel_at(k as int)).0);
                assert(p == crate::pixel::rgb_of(v0.pixel_at(k as int)));
            }
            let q = f(p);
            let qv = q.to_vec();
            let ghost before = pm.frame_view();
            let replaced = pm.replace_next(&qv);
            proof {
                assert(replaced is Some);
                lemma_with_pixel_at(before, k as int, qv@);
                assert(crate::pixel::rgb_of(pm.frame_view().pixel_at(k as int)).0 =~= q.0);
                assert(crate::pixel::rgb_of(pm.frame_view().pixel_at(k as int)) == q);
                assert forall|i: int| k + 1 <= i < count implies #[trigger] pm.frame_view().pixel_at(
                    i,
                ) == v0.pixel_at(i) by {
                    assert(pm.frame_view().pixel_at(i) == before.pixel_at(i));
                }
                assert forall|i: int| 0 <= i < k + 1 implies call_ensures(
                    f,
                    (crate::pixel::rgb_of(v0.pixel_at(i)),),
                    crate::pixel::rgb_of(#[trigger] pm.frame_view().pixel_at(i)),
                ) by {
                    if i < k {
                        assert(pm.frame_view().pixel_at(i) == before.pixel_at(i));
                    } else {
                        assert(pm.frame_view().pixel_at(i) == qv@);
                    }
                }
            }
            k += 1;
        }
        let out = pm.finish();
        out
    }

    /// Hands the whole frame to the given function and returns what it
    /// makes of it; this is how a caller splices a frame-to-frame
    /// function, format changes included, into a chain of calls.
    pub fn map<F: Fn(Frame) -> Frame>(self, f: F) -> (r: Frame)
        requires
            call_requires(f, (self,)),
        ensures
            call_ensures(f, (self,), r),
    {
        f(self)
    }

    /// Copies the channel values of the pixel in column `i` of row `j`.
    pub fn pixel(&self, i: u32, j: u32) -> (r: Vec<u8>)
        requires
            self.wf(),
            i < self@.width,
            j < self@.height,
        ensures
            r@ == self@.pixel(i as int, j as int),
    {
        let n = self.buffer.len();
        proof {
            lemma_pixel_index_bound(
                i as int,
                j as int,
                self@.width as int,
                self@.height as int,
                self@.channels() as int,
            );
            assert(j * self@.width + i <= n);
        }
        let k: usize = j as usize * self.width as usize + i as usize;
        self.pixel_at_flat(k)
    }
}

/// Replacing one pixel leaves the frame's shape and every other pixel
/// in place.
pub proof fn lemma_with_pixel_at(v: FrameView, k: int, px: Seq<u8>)
    requires
        v.wf(),
        0 <= k < v.width * v.height,
        px.len() == v.channels(),
    ensures
        v.with_pixel_at(k, px).wf(),
        v.with_pixel_at(k, px).bytes.len() == v.bytes.len(),
        v.with_pixel_at(k, px).pixel_at(k) == px,
        forall|i: int|
            0 <= i < v.width * v.height && i != k ==> v.with_pixel_at(k, px).pixel_at(i)
                == v.pixel_at(i),
{
    let c = v.channels() as int;
    let n = (v.width * v.height) as int;
    let w = v.with_pixel_at(k, px);
    lemma_flat_index_bound(k, n, c);
    assert(n * c == v.bytes.len());
    assert(w.bytes.len() == v.bytes.len());
    assert(w.pixel_at(k) =~= px);
    assert forall|i: int| 0 <= i < n && i != k implies w.pixel_at(i) == v.pixel_at(i) by {
        lemma_flat_index_bound(i, n, c);
        if i < k {
            assert((i + 1) * c <= k * c && i * c + c == (i + 1) * c) by (nonlinear_arith)
                requires
                    i + 1 <= k,
                    0 < c,
                    0 <= i,
            {
            }
        } else {
            assert(i * c >= (k + 1) * c && k * c + c == (k + 1) * c) by (nonlinear_arith)
                requires
                    k + 1 <= i,
                    0 < c,
                    0 <= k,
            {
            }
        }
        assert(w.pixel_at(i) =~= v.pixel_at(i));
    }
}

/// The stream of decoded frames over a frame source: each raw chunk
/// the source yields becomes one owned [`Frame`] of the source's
/// dimensions and format.
pub struct IterFrame {
    reader: crate::source::MemoryFrameSource,
    width: u32,
    height: u32,
    nb_frames: usize,
}

impl IterFrame {
    pub closed spec fn spec_reader(&self) -> crate::source::MemoryFrameSource {
        self.reader
    }

    pub closed spec fn spec_nb_frames(&self) -> nat {
        self.nb_frames as nat
    }

    pub closed spec fn spec_width(&self) -> nat {
        self.width as nat
    }

    pub closed spec fn spec_height(&self) -> nat {
        self.height as nat
    }

    pub fn new(reader: crate::source::MemoryFrameSource, dims: (u32, u32), nb_frames: usize) -> (r:
        IterFrame)
        requires
            reader.wf(),
            dims.0 as nat == reader.spec_source().spec_width(),
            dims.1 as nat == reader.spec_source().spec_height(),
        ensures
            r.wf(),
            r.spec_reader() == reader,
            r.spec_nb_frames() == nb_frames,
    {
        let (width, height) = dims;
        IterFrame { reader, width, height, nb_frames }
    }

}

impl FrameStream for IterFrame {
    open spec fn hint(&self) -> nat {
        self.spec_nb_frames()
    }

    fn size_hint(&self) -> (n: usize) {
        self.nb_frames
    }

    open spec fn frames(&self) -> Seq<FrameView> {
        Seq::new(
            self.spec_reader().yields().len(),
            |i: int|
                FrameView {
                    bytes: self.spec_reader().yields()[i],
                    width: self.spec_reader().spec_source().spec_width(),
                    height: self.spec_reader().spec_source().spec_height(),
                    format: self.spec_reader().spec_source().spec_format(),
                },
        )
    }

    open spec fn failure(&self) -> Option<crate::error::ErrorKind> {
        self.spec_reader().failure()
    }

    open spec fn wf(&self) -> bool {
        &&& self.spec_reader().wf()
        &&& self.spec_width() == self.spec_reader().spec_source().spec_width()
        &&& self.spec_height() == self.spec_reader().spec_source().spec_height()
    }

    fn next_frame(&mut self) -> (r: Result<Option<Frame>, Error>) {
        let ghost pre = *self;
        match self.reader.read_frame() {
            Ok(None) => Ok(None),
            Err(e) => Err(e),
            Ok(Some(bytes)) => {
                let format = self.reader.format();
                match Frame::from_vec(bytes, (self.width, self.height), format) {
                    Ok(f) => {
                        proof {
                            assert(f@ == pre.frames()[0]);
                            assert(self.frames() =~= pre.frames().skip(1));
                        }
                        Ok(Some(f))
                    },
                    Err(e) => {
                        proof {
                            assert(false);
                        }
                        Err(e)
                    },
                }
            },
        }
    }
}

/// Concatenating the channel values of all pixels from index `k` on
/// rebuilds the tail of the buffer.
proof fn lemma_pixel_seq_flatten_from(v: FrameView, k: int)
    requires
        v.wf(),
        0 <= k <= v.width * v.height,
    ensures
        v.pixel_seq().skip(k).flatten() =~= v.bytes.skip(k * v.channels()),
    decreases v.width * v.height - k,
{
    let n = (v.width * v.height) as int;
    let c = v.channels() as int;
    assert(k * c + c == (k + 1) * c) by (nonlinear_arith);
    if k == n {
        assert(k * c == v.bytes.len()) by (nonlinear_arith)
            requires
                k == n,
                v.bytes.len() == n * c,
        {
        }
        assert(v.pixel_seq().skip(k).flatten() =~= v.bytes.skip(k * c));
    } else {
        lemma_flat_index_bound(k, n, c);
        assert(n * c == v.bytes.len());
        let s = v.pixel_seq().skip(k);
        assert(s.first() == v.pixel_at(k));
        assert(s.drop_first() =~= v.pixel_seq().skip(k + 1));
        lemma_pixel_seq_flatten_from(v, k + 1);
        assert(v.bytes.skip(k * c) =~= v.pixel_at(k) + v.bytes.skip((k + 1) * c));
    }
}

/// The pixels of a frame, in order, carry the whole buffer: laying their
/// channel values end to end rebuilds the frame's bytes exactly.
pub proof fn lemma_pixels_reconstruct(v: FrameView)
    requires
        v.wf(),
    ensures
        v.pixel_seq().len() == v.width * v.height,
        v.pixel_seq().flatten() == v.bytes,
{
    lemma_pixel_seq_flatten_from(v, 0);
    assert(v.pixel_seq().skip(0) =~= v.pixel_seq());
    assert(v.bytes.skip(0) =~= v.bytes);
    assert(v.pixel_seq().flatten() =~= v.bytes);
}

} // verus!
