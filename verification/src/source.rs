use vstd::prelude::*;

use crate::error::Error;
use crate::error::ErrorKind;
use crate::pixel::PixelFormat;

verus! {

/// The reader-side protocol state of the raw-frame stream: the frame
/// shape and the cap on how many frames will ever be emitted.
///
/// The decode process writes unframed pixel data with no delimiters, so
/// the reader alone decides where frames end (`width * height *
/// channel_count` bytes each) and when the stream is over (after
/// `frame_cap` frames, whatever else the process still has to say).
/// The holder of the process's output pipe drives the protocol:
/// [`FrameSource::demand`] says whether and how many bytes to read,
/// [`FrameSource::supply`] judges what the read produced.
#[derive(Debug)]
pub struct FrameSource {
    width: u32,
    height: u32,
    format: PixelFormat,
    frames_emitted: u32,
    frame_cap: u32,
}

impl FrameSource {
    pub closed spec fn spec_width(&self) -> nat {
        self.width as nat
    }

    pub closed spec fn spec_height(&self) -> nat {
        self.height as nat
    }

    pub closed spec fn spec_format(&self) -> PixelFormat {
        self.format
    }

    pub closed spec fn spec_emitted(&self) -> int {
        self.frames_emitted as int
    }

    pub closed spec fn spec_cap(&self) -> int {
        self.frame_cap as int
    }

    /// How many bytes one frame occupies.
    pub open spec fn spec_frame_len(&self) -> int {
        (self.spec_width() * self.spec_height() * self.spec_format().spec_channel_count()) as int
    }

    pub open spec fn wf(&self) -> bool {
        &&& self.spec_emitted() <= self.spec_cap()
        &&& 1 <= self.spec_frame_len() <= usize::MAX
    }

    /// Fixes the frame shape and the cap.
    ///
    /// Succeeds exactly when a frame has at least one byte and fits in
    /// one allocation; a zero-sized or oversized frame shape is a
    /// `SizeMismatch`.
    pub fn open(width: u32, height: u32, format: PixelFormat, frame_cap: u32) -> (r: Result<
        FrameSource,
        Error,
    >)
        ensures
            r is Ok <==> 1 <= width * height * format.spec_channel_count() <= usize::MAX,
            match r {
                Ok(s) => {
                    &&& s.wf()
                    &&& s.spec_width() == width
                    &&& s.spec_height() == height
                    &&& s.spec_format() == format
                    &&& s.spec_emitted() == 0
                    &&& s.spec_cap() == frame_cap
                },
                Err(e) => e is SizeMismatch,
            },
    {
        let c = format.channel_count();
        proof {
            assert((width as int) * (height as int) * (c as int) < u128::MAX) by (nonlinear_arith)
                requires
                    width <= u32::MAX,
                    height <= u32::MAX,
                    c <= u8::MAX,
            {
            }
        }
        let wanted: u128 = (width as u128) * (height as u128) * (c as u128);
        if 1 <= wanted && wanted <= usize::MAX as u128 {
            Ok(FrameSource { width, height, format, frames_emitted: 0, frame_cap })
        } else {
            Err(Error::SizeMismatch)
        }
    }

    pub fn width(&self) -> (w: u32)
        ensures
            w as nat == self.spec_width(),
    {
        self.width
    }

    pub fn height(&self) -> (h: u32)
        ensures
            h as nat == self.spec_height(),
    {
        self.height
    }

    pub fn format(&self) -> (f: PixelFormat)
        ensures
            f == self.spec_format(),
    {
        self.format
    }

    pub fn frames_emitted(&self) -> (n: u32)
        ensures
            n as int == self.spec_emitted(),
    {
        self.frames_emitted
    }

    pub fn frame_cap(&self) -> (n: u32)
        ensures
            n as int == self.spec_cap(),
    {
        self.frame_cap
    }

    /// Whether the cap has been reached, after which no byte of the
    /// stream is touched again.
    pub fn exhausted(&self) -> (b: bool)
        requires
            self.wf(),
        ensures
            b <==> self.spec_emitted() == self.spec_cap(),
    {
        self.frames_emitted >= self.frame_cap
    }

    /// What to do next: read exactly this many bytes, or nothing,
    /// because the cap has been reached and the stream has ended.
    pub fn demand(&self) -> (r: Option<usize>)
        requires
            self.wf(),
        ensures
            match r {
                Some(n) => self.spec_emitted() < self.spec_cap() && n == self.spec_frame_len(),
                None => self.spec_emitted() == self.spec_cap(),
            },
    {
        if self.frames_emitted >= self.frame_cap {
            return None;
        }
        let c = self.format.channel_count();
        proof {
            assert((self.width as int) * (self.height as int) < u128::MAX && (self.width as int)
                * (self.height as int) * (c as int) < u128::MAX) by (nonlinear_arith)
                requires
                    self.width <= u32::MAX,
                    self.height <= u32::MAX,
                    c <= u8::MAX,
            {
            }
        }
        let n: u128 = (self.width as u128) * (self.height as u128) * (c as u128);
        Some(n as usize)
    }

    /// Judges one read of [`FrameSource::demand`]'s byte count: a whole
    /// frame's bytes pass through and count against the cap, a short
    /// read (the stream closed first) is a `TruncatedStream`, never a
    /// padded or partial frame.
    pub fn supply(&mut self, chunk: Option<Vec<u8>>) -> (r: Result<Vec<u8>, Error>)
        requires
            old(self).wf(),
            old(self).spec_emitted() < old(self).spec_cap(),
            chunk matches Some(v) ==> v@.len() == old(self).spec_frame_len(),
        ensures
            final(self).wf(),
            final(self).spec_width() == old(self).spec_width(),
            final(self).spec_height() == old(self).spec_height(),
            final(self).spec_format() == old(self).spec_format(),
            final(self).spec_cap() == old(self).spec_cap(),
            match chunk {
                Some(v) => r == Ok::<Vec<u8>, Error>(v) && final(self).spec_emitted() == old(
                    self,
                ).spec_emitted() + 1,
                None => (r matches Err(e) && e is TruncatedStream) && *final(self) == *old(self),
            },
    {
        match chunk {
            Some(v) => {
                self.frames_emitted += 1;
                Ok(v)
            },
            None => Err(Error::TruncatedStream),
        }
    }
}

/// A frame source over bytes already in memory: the whole decode-side
/// read protocol, run against an owned byte stream instead of a
/// process's pipe.
#[derive(Debug)]
pub struct MemoryFrameSource {
    data: Vec<u8>,
    pos: usize,
    source: FrameSource,
}

impl MemoryFrameSource {
    pub closed spec fn spec_data(&self) -> Seq<u8> {
        self.data@
    }

    pub closed spec fn spec_pos(&self) -> int {
        self.pos as int
    }

    pub closed spec fn spec_source(&self) -> FrameSource {
        self.source
    }

    /// How many bytes of the stream are still unread.
    pub open spec fn bytes_left(&self) -> int {
        self.spec_data().len() - self.spec_pos()
    }

    /// How many whole frames the unread bytes still hold.
    pub open spec fn avail(&self) -> int {
        self.bytes_left() / self.spec_source().spec_frame_len()
    }

    /// How many frames the cap still allows.
    pub open spec fn cap_left(&self) -> int {
        self.spec_source().spec_cap() - self.spec_source().spec_emitted()
    }

    /// How many frames this source will still yield.
    pub open spec fn n_yields(&self) -> int {
        if self.cap_left() <= self.avail() {
            self.cap_left()
        } else {
            self.avail()
        }
    }

    /// The frames this source will still yield, in order.
    pub open spec fn yields(&self) -> Seq<Seq<u8>> {
        Seq::new(
            self.n_yields() as nat,
            |i: int|
                self.spec_data().subrange(
                    self.spec_pos() + i * self.spec_source().spec_frame_len(),
                    self.spec_pos() + i * self.spec_source().spec_frame_len()
                        + self.spec_source().spec_frame_len(),
                ),
        )
    }

    /// Whether the stream runs dry before the cap: reading past the
    /// yielded frames then fails instead of ending cleanly.
    pub open spec fn truncated(&self) -> bool {
        self.avail() < self.cap_left()
    }

    /// What ends the stream after the yielded frames: nothing when the
    /// cap is reached, a truncation failure when the bytes run out
    /// first.
    pub open spec fn failure(&self) -> Option<ErrorKind> {
        if self.truncated() {
            Some(ErrorKind::TruncatedStream)
        } else {
            None
        }
    }

    pub open spec fn wf(&self) -> bool {
        &&& self.spec_source().wf()
        &&& 0 <= self.spec_pos() <= self.spec_data().len()
    }

    /// Takes ownership of a byte stream and fixes the frame shape and
    /// the cap, as [`FrameSource::open`] does.
    pub fn new(data: Vec<u8>, width: u32, height: u32, format: PixelFormat, frame_cap: u32) -> (r:
        Result<MemoryFrameSource, Error>)
        ensures
            r is Ok <==> 1 <= width * height * format.spec_channel_count() <= usize::MAX,
            match r {
                Ok(s) => {
                    &&& s.wf()
                    &&& s.spec_data() == data@
                    &&& s.spec_pos() == 0
                    &&& s.spec_source().spec_width() == width
                    &&& s.spec_source().spec_height() == height
                    &&& s.spec_source().spec_format() == format
                    &&& s.spec_source().spec_emitted() == 0
                    &&& s.spec_source().spec_cap() == frame_cap
                },
                Err(e) => e is SizeMismatch,
            },
    {
        match FrameSource::open(width, height, format, frame_cap) {
            Ok(source) => Ok(MemoryFrameSource { data, pos: 0, source }),
            Err(e) => Err(e),
        }
    }

    /// One frame's raw bytes; or the end of the stream, once the cap is
    /// reached; or `TruncatedStream`, when the bytes run out before a
    /// whole frame — never a padded or partial frame.
    pub fn read_frame(&mut self) -> (r: Result<Option<Vec<u8>>, Error>)
        requires
            old(self).wf(),
        ensures
            final(self).wf(),
            final(self).spec_data() == old(self).spec_data(),
            final(self).spec_source().spec_width() == old(self).spec_source().spec_width(),
            final(self).spec_source().spec_height() == old(self).spec_source().spec_height(),
            final(self).spec_source().spec_format() == old(self).spec_source().spec_format(),
            final(self).spec_source().spec_cap() == old(self).spec_source().spec_cap(),
            match r {
                Ok(Some(v)) => {
                    &&& old(self).cap_left() > 0
                    &&& old(self).avail() > 0
                    &&& old(self).yields().len() > 0
                    &&& v@ == old(self).yields()[0]
                    &&& v@.len() == old(self).spec_source().spec_frame_len()
                    &&& final(self).spec_pos() == old(self).spec_pos() + old(
                        self,
                    ).spec_source().spec_frame_len()
                    &&& final(self).spec_source().spec_emitted() == old(
                        self,
                    ).spec_source().spec_emitted() + 1
                    &&& final(self).yields() == old(self).yields().skip(1)
                    &&& final(self).failure() == old(self).failure()
                },
                Ok(None) => {
                    &&& old(self).cap_left() == 0
                    &&& old(self).yields().len() == 0
                    &&& old(self).failure() is None
                    &&& *final(self) == *old(self)
                },
                Err(e) => {
                    &&& e is TruncatedStream
                    &&& old(self).cap_left() > 0
                    &&& old(self).avail() == 0
                    &&& old(self).yields().len() == 0
                    &&& old(self).failure() == Some(ErrorKind::TruncatedStream)
                    &&& *final(self) == *old(self)
                },
            },
    {
        proof {
            assert(self.avail() >= 0) by (nonlinear_arith)
                requires
                    self.avail() == self.bytes_left() / self.spec_source().spec_frame_len(),
                    self.bytes_left() >= 0,
                    self.spec_source().spec_frame_len() >= 1,
            {
            }
        }
        let flen = match self.source.demand() {
            None => {
                return Ok(None);
            },
            Some(flen) => flen,
        };
        let n = self.data.len();
        if n - self.pos < flen {
            proof {
                assert(self.avail() == 0) by (nonlinear_arith)
                    requires
                        self.avail() == self.bytes_left() / flen as int,
                        0 <= self.bytes_left() < flen,
                        flen >= 1,
                {
                }
            }
            match self.source.supply(None) {
                Err(e) => {
                    return Err(e);
                },
                Ok(_) => {
                    proof {
                        assert(false);
                    }
                    return Ok(None);
                },
            }
        }
        proof {
            assert(self.avail() >= 1) by (nonlinear_arith)
                requires
                    self.avail() == self.bytes_left() / flen as int,
                    self.bytes_left() >= flen,
                    flen >= 1,
            {
            }
        }
        let mut chunk: Vec<u8> = Vec::new();
        let mut m: usize = 0;
        while m < flen
            invariant
                m <= flen,
                self.pos + flen <= n,
                n == self.data@.len(),
                chunk@ =~= self.data@.subrange(self.pos as int, self.pos + m),
                *self == *old(self),
            decreases flen - m,
        {
            chunk.push(self.data[self.pos + m]);
            m += 1;
        }
        let ghost pre = *self;
        let v = match self.source.supply(Some(chunk)) {
            Ok(v) => v,
            Err(e) => {
                proof {
                    assert(false);
                }
                return Err(e);
            },
        };
        self.pos += flen;
        proof {
            lemma_yields_step(pre, *self);
        }
        Ok(Some(v))
    }

    pub fn frames_emitted(&self) -> (r: u32)
        ensures
            r as int == self.spec_source().spec_emitted(),
    {
        self.source.frames_emitted()
    }

    pub fn width(&self) -> (w: u32)
        ensures
            w as nat == self.spec_source().spec_width(),
    {
        self.source.width()
    }

    pub fn height(&self) -> (h: u32)
        ensures
            h as nat == self.spec_source().spec_height(),
    {
        self.source.height()
    }

    pub fn format(&self) -> (f: PixelFormat)
        ensures
            f == self.spec_source().spec_format(),
    {
        self.source.format()
    }
}

/// The cap alone ends a stream that holds enough bytes: a source whose
/// unread bytes hold at least as many whole frames as the cap still
/// allows yields exactly that many frames and then ends cleanly,
/// whatever else the stream holds.
pub proof fn lemma_cap_bounds_yields(s: MemoryFrameSource)
    requires
        s.wf(),
        s.avail() >= s.cap_left(),
    ensures
        s.yields().len() == s.cap_left(),
        s.failure() is None,
{
}

/// A stream that runs dry before the cap yields exactly the whole
/// frames it holds, then fails with `TruncatedStream` — a trailing
/// partial frame is never padded or handed out.
pub proof fn lemma_short_stream_truncates(s: MemoryFrameSource, k: int, r: int)
    requires
        s.wf(),
        s.bytes_left() == k * s.spec_source().spec_frame_len() + r,
        0 <= r < s.spec_source().spec_frame_len(),
        0 <= k < s.cap_left(),
    ensures
        s.yields().len() == k,
        s.failure() == Some(ErrorKind::TruncatedStream),
{
    let fl = s.spec_source().spec_frame_len();
    assert(s.avail() == k) by (nonlinear_arith)
        requires
            s.avail() == s.bytes_left() / fl,
            s.bytes_left() == k * fl + r,
            0 <= r < fl,
            0 <= k,
    {
    }
}

/// After one whole frame is consumed, what remains to be yielded is
/// exactly the tail of what was to be yielded before.
proof fn lemma_yields_step(pre: MemoryFrameSource, post: MemoryFrameSource)
    requires
        pre.wf(),
        pre.cap_left() > 0,
        pre.avail() > 0,
        post.spec_data() == pre.spec_data(),
        post.spec_source().spec_frame_len() == pre.spec_source().spec_frame_len(),
        post.spec_source().spec_cap() == pre.spec_source().spec_cap(),
        post.spec_source().spec_emitted() == pre.spec_source().spec_emitted() + 1,
        post.spec_pos() == pre.spec_pos() + pre.spec_source().spec_frame_len(),
        post.spec_pos() <= post.spec_data().len(),
    ensures
        post.avail() == pre.avail() - 1,
        post.yields() =~= pre.yields().skip(1),
        post.truncated() == pre.truncated(),
{
    let fl = pre.spec_source().spec_frame_len();
    assert(fl >= 1);
    assert(post.bytes_left() == pre.bytes_left() - fl);
    vstd::arithmetic::div_mod::lemma_div_minus_one(pre.bytes_left(), fl);
    assert(post.avail() == pre.avail() - 1);
    assert(post.n_yields() == pre.n_yields() - 1);
    assert forall|i: int| 0 <= i < post.n_yields() implies #[trigger] post.yields()[i]
        == pre.yields()[i + 1] by {
        assert(post.spec_pos() + i * fl == pre.spec_pos() + (i + 1) * fl) by (nonlinear_arith)
            requires
                post.spec_pos() == pre.spec_pos() + fl,
        {
        }
    }
}

} // verus!
