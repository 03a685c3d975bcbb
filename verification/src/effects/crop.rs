use vstd::prelude::*;

use crate::error::Error;
use crate::error::ErrorKind;
use crate::frame::Frame;
use crate::frame::FrameView;
use crate::stream::FrameStream;

verus! {

/// Whether the rectangle with corner `(x, y)` and size `w` by `h` lies
/// inside a frame of the given view's dimensions.
pub open spec fn crop_ok(v: FrameView, x: int, y: int, w: int, h: int) -> bool {
    &&& x + w <= v.width
    &&& y + h <= v.height
}

/// The byte of the source frame that byte `i` of the cropped frame
/// copies: channel `i % c` of the source pixel at column `x + col` of
/// row `y + row`, where `col` and `row` place pixel `i / c` inside the
/// rectangle.
pub open spec fn crop_src_index(v: FrameView, x: int, y: int, w: int, i: int) -> int {
    ((y + (i / v.channels() as int) / w) * v.width + x + (i / v.channels() as int) % w)
        * v.channels() + i % v.channels() as int
}

/// The sub-rectangle of a frame with corner `(x, y)` and size `w` by
/// `h`: exactly the source pixels of the rectangle, in the same
/// relative order, same layout.
pub open spec fn crop_view(v: FrameView, x: int, y: int, w: int, h: int) -> FrameView {
    FrameView {
        bytes: Seq::new((w * h * v.channels()) as nat, |i: int| v.bytes[crop_src_index(v, x, y, w, i)]),
        width: w as nat,
        height: h as nat,
        format: v.format,
    }
}

/// Decomposing a flat channel index into its pixel and channel parts.
proof fn lemma_div_mod_decompose(q: int, d: int, c: int)
    requires
        0 <= q,
        0 <= d < c,
    ensures
        (q * c + d) / c == q,
        (q * c + d) % c == d,
{
    assert((q * c + d) / c == q && (q * c + d) % c == d) by (nonlinear_arith)
        requires
            0 <= q,
            0 <= d < c,
    {
    }
}

/// Cropping keeps every pixel of the rectangle: pixel `(i, j)` of the
/// cropped frame is pixel `(x + i, y + j)` of the source, for every
/// `0 <= i < w`, `0 <= j < h`.
pub proof fn lemma_crop_pixel(v: FrameView, x: int, y: int, w: int, h: int, i: int, j: int)
    requires
        v.wf(),
        0 <= x && 0 <= y && 0 < w && 0 < h,
        crop_ok(v, x, y, w, h),
        0 <= i < w,
        0 <= j < h,
    ensures
        crop_view(v, x, y, w, h).pixel(i, j) == v.pixel(x + i, y + j),
{
    let c = v.channels() as int;
    let cv = crop_view(v, x, y, w, h);
    let p = j * w + i;
    let sp = (y + j) * v.width + (x + i);
    assert(0 <= p < w * h && 0 <= sp < v.width * v.height) by (nonlinear_arith)
        requires
            0 <= i < w,
            0 <= j < h,
            0 < w,
            0 < h,
            0 <= x,
            0 <= y,
            x + w <= v.width,
            y + h <= v.height,
            p == j * w + i,
            sp == (y + j) * v.width + (x + i),
    {
    }
    crate::frame::lemma_flat_index_bound(p, w * h, c);
    crate::frame::lemma_flat_index_bound(sp, (v.width * v.height) as int, c);
    assert((w * h) * c == w * h * c) by (nonlinear_arith);
    assert((v.width * v.height) * c == v.bytes.len());
    assert forall|d: int| 0 <= d < c implies #[trigger] (cv.pixel(i, j)[d]) == v.pixel(
        x + i,
        y + j,
    )[d] by {
        assert(cv.pixel(i, j)[d] == cv.bytes[p * c + d]);
        assert(v.pixel(x + i, y + j)[d] == v.bytes[sp * c + d]);
        lemma_div_mod_decompose(p, d, c);
        assert((p * c + d) / c == p && (p * c + d) % c == d);
        assert(p / w == j && p % w == i) by (nonlinear_arith)
            requires
                p == j * w + i,
                0 <= i < w,
                0 <= j,
        {
        }
        assert(crop_src_index(v, x, y, w, p * c + d) == sp * c + d) by (nonlinear_arith)
            requires
                (p * c + d) / c == p,
                (p * c + d) % c == d,
                p / w == j,
                p % w == i,
                sp == (y + j) * v.width + (x + i),
                crop_src_index(v, x, y, w, p * c + d) == ((y + (p * c + d) / c / w) * v.width + x
                    + ((p * c + d) / c) % w) * c + (p * c + d) % c,
        {
        }
    }
    assert(cv.pixel(i, j) =~= v.pixel(x + i, y + j));
}

/// Copies the sub-rectangle with corner `(x, y)` and size `w` by `h`
/// out of a frame.
///
/// Succeeds exactly when the rectangle lies inside the frame; a
/// rectangle that sticks out is a `SizeMismatch`, never clamped.
pub fn crop_frame(frame: &Frame, x: u32, y: u32, w: u32, h: u32) -> (r: Result<Frame, Error>)
    requires
        frame.wf(),
    ensures
        r is Ok <==> crop_ok(frame@, x as int, y as int, w as int, h as int),
        match r {
            Ok(f) => f@ == crop_view(frame@, x as int, y as int, w as int, h as int) && f.wf(),
            Err(e) => e is SizeMismatch,
        },
{
    let fw = frame.width();
    let fh = frame.height();
    if !(x as u64 + w as u64 <= fw as u64 && y as u64 + h as u64 <= fh as u64) {
        return Err(Error::SizeMismatch);
    }
    let ghost v = frame@;
    let ghost cv = crop_view(v, x as int, y as int, w as int, h as int);
    let c = frame.format().channel_count() as usize;
    proof {
        assert(w * h * v.channels() <= v.width * v.height * v.channels()) by (nonlinear_arith)
            requires
                x + w <= v.width,
                y + h <= v.height,
                0 <= x && 0 <= y,
                v.channels() > 0,
        {
        }
        assert(cv.bytes.len() == w * h * v.channels());
    }
    let n = frame.as_raw().len();
    proof {
        crate::frame::lemma_pixel_count_bound((w * h) as int, c as int);
        assert(w * h <= n);
    }
    let mut out: Vec<u8> = Vec::new();
    let mut p: usize = 0;
    while p < w as usize * h as usize
        invariant
            frame.wf(),
            v == frame@,
            cv == crop_view(v, x as int, y as int, w as int, h as int),
            c == v.channels(),
            fw == v.width,
            fh == v.height,
            x + w <= v.width,
            y + h <= v.height,
            w * h <= n,
            p <= w * h,
            cv.bytes.len() == w * h * c,
            cv.bytes.len() <= v.bytes.len(),
            out@ =~= cv.bytes.take(p * c),
        decreases w * h - p,
    {
        proof {
            crate::frame::lemma_flat_index_bound(p as int, (w * h) as int, c as int);
        }
        let iu: usize = p % (w as usize);
        let ju: usize = p / (w as usize);
        proof {
            assert(iu < w && ju < h && p == ju * w + iu) by (nonlinear_arith)
                requires
                    0 <= p < w * h,
                    iu == (p as int) % (w as int),
                    ju == (p as int) / (w as int),
                    0 < w,
            {
            }
        }
        let i: u32 = iu as u32;
        let j: u32 = ju as u32;
        let px = frame.pixel(x + i, y + j);
        let mut d: usize = 0;
        proof {
            assert(px@.len() == c) by {
                crate::frame::lemma_pixel_index_bound(
                    x + i,
                    y + j,
                    v.width as int,
                    v.height as int,
                    c as int,
                );
            }
        }
        while d < c
            invariant
                d <= c,
                px@.len() == c,
                out@ =~= cv.bytes.take(p * c).add(px@.take(d as int)),
                px@ == v.pixel(x + i, y + j),
                cv == crop_view(v, x as int, y as int, w as int, h as int),
                v.wf(),
                c == v.channels(),
                x + w <= v.width,
                y + h <= v.height,
                0 <= i < w,
                0 <= j < h,
                p == j * w + i,
                p < w * h,
                cv.bytes.len() == w * h * c,
            decreases c - d,
        {
            out.push(px[d]);
            proof {
                lemma_crop_pixel(v, x as int, y as int, w as int, h as int, i as int, j as int);
                assert(cv.bytes[p * c + d] == px@[d as int]) by {
                    crate::frame::lemma_flat_index_bound(p as int, (w * h) as int, c as int);
                    assert(cv.pixel(i as int, j as int) == cv.pixel_at(p as int));
                    assert(cv.pixel_at(p as int)[d as int] == cv.bytes[p * c + d]);
                }
                assert(out@ =~= cv.bytes.take(p * c).add(px@.take(d + 1)));
            }
            d += 1;
        }
        proof {
            lemma_crop_pixel(v, x as int, y as int, w as int, h as int, i as int, j as int);
            crate::frame::lemma_flat_index_bound(p as int, (w * h) as int, c as int);
            assert(cv.pixel(i as int, j as int) == cv.pixel_at(p as int));
            assert(px@.take(c as int) == px@);
            assert(out@ =~= cv.bytes.take(p * c + c));
            assert(p * c + c == (p + 1) * c) by (nonlinear_arith);
        }
        p += 1;
    }
    proof {
        assert((w * h) * c == cv.bytes.len()) by (nonlinear_arith)
            requires
                cv.bytes.len() == w * h * c,
        {
        }
        assert(out@ =~= cv.bytes);
    }
    let f = Frame::from_parts(out, w, h, frame.format());
    proof {
        assert(f@ == cv);
    }
    Ok(f)
}

/// What a stream yields once every frame passes through the crop: the
/// cut-out rectangles, up to the first frame the rectangle does not
/// fit.
pub open spec fn crop_stream(s: Seq<FrameView>, x: int, y: int, w: int, h: int) -> Seq<FrameView>
    decreases s.len(),
{
    if s.len() == 0 {
        Seq::empty()
    } else if crop_ok(s[0], x, y, w, h) {
        seq![crop_view(s[0], x, y, w, h)] + crop_stream(s.skip(1), x, y, w, h)
    } else {
        Seq::empty()
    }
}

/// What ends the cropped stream: the upstream's own end, unless a
/// frame the rectangle does not fit comes first.
pub open spec fn crop_failure(
    s: Seq<FrameView>,
    x: int,
    y: int,
    w: int,
    h: int,
    up: Option<ErrorKind>,
) -> Option<ErrorKind>
    decreases s.len(),
{
    if s.len() == 0 {
        up
    } else if crop_ok(s[0], x, y, w, h) {
        crop_failure(s.skip(1), x, y, w, h, up)
    } else {
        Some(ErrorKind::SizeMismatch)
    }
}

/// Cropping changes no frame count: a stream of frames the rectangle
/// fits comes out frame for frame, each cut down to the rectangle and
/// nothing else.
pub proof fn lemma_crop_stream_keeps_count(s: Seq<FrameView>, x: int, y: int, w: int, h: int)
    requires
        forall|i: int| 0 <= i < s.len() ==> crop_ok(#[trigger] s[i], x, y, w, h),
    ensures
        crop_stream(s, x, y, w, h).len() == s.len(),
        forall|i: int|
            0 <= i < s.len() ==> crop_stream(s, x, y, w, h)[i] == crop_view(
                #[trigger] s[i],
                x,
                y,
                w,
                h,
            ),
    decreases s.len(),
{
    if s.len() > 0 {
        lemma_crop_stream_keeps_count(s.skip(1), x, y, w, h);
        assert forall|i: int| 0 <= i < s.len() implies crop_stream(s, x, y, w, h)[i] == crop_view(
            #[trigger] s[i],
            x,
            y,
            w,
            h,
        ) by {
            if i > 0 {
                assert(crop_stream(s, x, y, w, h)[i] == crop_stream(s.skip(1), x, y, w, h)[i - 1]);
                assert(s.skip(1)[i - 1] == s[i]);
            }
        }
    }
}

/// The crop stage: yields its upstream's frames cut down to the fixed
/// rectangle, one frame per pull and none buffered.
pub struct Crop<I> {
    iter: I,
    x: u32,
    y: u32,
    width: u32,
    height: u32,
}

impl<I> Crop<I> {
    /// The stream this stage pulls from.
    pub closed spec fn upstream(&self) -> I {
        self.iter
    }

    pub closed spec fn spec_x(&self) -> int {
        self.x as int
    }

    pub closed spec fn spec_y(&self) -> int {
        self.y as int
    }

    pub closed spec fn spec_width(&self) -> int {
        self.width as int
    }

    pub closed spec fn spec_height(&self) -> int {
        self.height as int
    }

    pub fn new(iter: I, x: u32, y: u32, width: u32, height: u32) -> (r: Crop<I>)
        ensures
            r.upstream() == iter,
            r.spec_x() == x,
            r.spec_y() == y,
            r.spec_width() == width,
            r.spec_height() == height,
    {
        Crop { iter, x, y, width, height }
    }
}

impl<I: FrameStream> FrameStream for Crop<I> {
    open spec fn hint(&self) -> nat {
        self.upstream().hint()
    }

    fn size_hint(&self) -> (n: usize) {
        self.iter.size_hint()
    }

    open spec fn frames(&self) -> Seq<FrameView> {
        crop_stream(
            self.upstream().frames(),
            self.spec_x(),
            self.spec_y(),
            self.spec_width(),
            self.spec_height(),
        )
    }

    open spec fn failure(&self) -> Option<ErrorKind> {
        crop_failure(
            self.upstream().frames(),
            self.spec_x(),
            self.spec_y(),
            self.spec_width(),
            self.spec_height(),
            self.upstream().failure(),
        )
    }

    open spec fn wf(&self) -> bool {
        self.upstream().wf()
    }

    fn next_frame(&mut self) -> (r: Result<Option<Frame>, Error>) {
        let ghost pre = *self;
        match self.iter.next_frame() {
            Ok(None) => Ok(None),
            Err(e) => Err(e),
            Ok(Some(f)) => {
                let ghost fv = f@;
                match crop_frame(&f, self.x, self.y, self.width, self.height) {
                    Ok(g) => {
                        proof {
                            assert(pre.frames()[0] == crop_view(
                                fv,
                                pre.spec_x(),
                                pre.spec_y(),
                                pre.spec_width(),
                                pre.spec_height(),
                            ));
                            assert(self.frames() =~= pre.frames().skip(1)) by {
                                assert(pre.upstream().frames().skip(1) == self.upstream().frames());
                            }
                        }
                        Ok(Some(g))
                    },
                    Err(e) => Err(e),
                }
            },
        }
    }
}

} // verus!
