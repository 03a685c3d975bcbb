use vstd::prelude::*;

use crate::error::Error;
use crate::pixel::PixelFormat;

verus! {

/// The writer-side protocol state of the raw-frame stream: the frame
/// shape and rate the encode process was started with.
///
/// The encode process reads unframed pixel data, so the writer alone
/// guarantees that only whole frames of the agreed shape enter the
/// pipe: [`FrameSink::check_frame`] judges each buffer before the
/// holder of the process's input pipe writes it.
#[derive(Debug)]
pub struct FrameSink {
    width: u32,
    height: u32,
    format: PixelFormat,
    fps_milli: u64,
}

impl FrameSink {
    pub closed spec fn spec_width(&self) -> nat {
        self.width as nat
    }

    pub closed spec fn spec_height(&self) -> nat {
        self.height as nat
    }

    pub closed spec fn spec_format(&self) -> PixelFormat {
        self.format
    }

    pub closed spec fn spec_fps_milli(&self) -> u64 {
        self.fps_milli
    }

    /// How many bytes one frame occupies.
    pub open spec fn spec_frame_len(&self) -> int {
        (self.spec_width() * self.spec_height() * self.spec_format().spec_channel_count()) as int
    }

    pub open spec fn wf(&self) -> bool {
        1 <= self.spec_frame_len() <= usize::MAX
    }

    /// Fixes the frame shape and the rate.
    ///
    /// Succeeds exactly when a frame has at least one byte and fits in
    /// one allocation; a zero-sized or oversized frame shape is a
    /// `SizeMismatch`.
    pub fn open(width: u32, height: u32, fps_milli: u64, format: PixelFormat) -> (r: Result<
        FrameSink,
        Error,
    >)
        ensures
            r is Ok <==> 1 <= width * height * format.spec_channel_count() <= usize::MAX,
            match r {
                Ok(s) => {
                    &&& s.wf()
                    &&& s.spec_width() == width
                    &&& s.spec_height() == height
                    &&& s.spec_format() == format
                    &&& s.spec_fps_milli() == fps_milli
                },
                Err(e) => e is SizeMismatch,
            },
    {
        let c = format.channel_count();
        proof {
            assert((width as int) * (height as int) < u128::MAX && (width as int) * (height as int)
                * (c as int) < u128::MAX) by (nonlinear_arith)
                requires
                    width <= u32::MAX,
                    height <= u32::MAX,
                    c <= u8::MAX,
            {
            }
        }
        let wanted: u128 = (width as u128) * (height as u128) * (c as u128);
        if 1 <= wanted && wanted <= usize::MAX as u128 {
            Ok(FrameSink { width, height, format, fps_milli })
        } else {
            Err(Error::SizeMismatch)
        }
    }

    pub fn width(&self) -> (w: u32)
        ensures
            w as nat == self.spec_width(),
    {
        self.width
    }

    pub fn height(&self) -> (h: u32)
        ensures
            h as nat == self.spec_height(),
    {
        self.height
    }

    pub fn format(&self) -> (f: PixelFormat)
        ensures
            f == self.spec_format(),
    {
        self.format
    }

    pub fn fps_milli(&self) -> (f: u64)
        ensures
            f == self.spec_fps_milli(),
    {
        self.fps_milli
    }

    /// Judges one buffer before it is written: exactly one frame's
    /// bytes pass, anything else is a `SizeMismatch` and must not
    /// reach the pipe.
    pub fn check_frame(&self, buffer: &Vec<u8>) -> (r: Result<(), Error>)
        requires
            self.wf(),
        ensures
            r is Ok <==> buffer@.len() == self.spec_frame_len(),
            r matches Err(e) ==> e is SizeMismatch,
    {
        let c = self.format.channel_count();
        proof {
            assert((self.width as int) * (self.height as int) < u128::MAX && (self.width as int)
                * (self.height as int) * (c as int) < u128::MAX) by (nonlinear_arith)
                requires
                    self.width <= u32::MAX,
                    self.height <= u32::MAX,
                    c <= u8::MAX,
            {
            }
        }
        let wanted: u128 = (self.width as u128) * (self.height as u128) * (c as u128);
        if buffer.len() as u128 == wanted {
            Ok(())
        } else {
            Err(Error::SizeMismatch)
        }
    }
}

/// The error a failed write surfaces: the write failure and the
/// drained diagnostic text together, never the failure alone — the
/// diagnostics say why the encoder refused.
pub fn write_failure(detail: String, diagnostics: String) -> (e: Error)
    ensures
        e matches Error::WriteFailure { detail: d, diagnostics: g } && d@ == detail@ && g@
            == diagnostics@,
{
    Error::WriteFailure { detail, diagnostics }
}

/// A frame sink writing into memory: the whole encode-side write
/// protocol, run against an owned buffer instead of a process's pipe.
#[derive(Debug)]
pub struct MemoryFrameSink {
    sink: FrameSink,
    data: Vec<u8>,
}

impl MemoryFrameSink {
    pub closed spec fn spec_sink(&self) -> FrameSink {
        self.sink
    }

    /// Every byte written so far, frames end to end in write order.
    pub closed spec fn spec_data(&self) -> Seq<u8> {
        self.data@
    }

    pub open spec fn wf(&self) -> bool {
        self.spec_sink().wf()
    }

    /// Fixes the frame shape and rate, with nothing written yet.
    pub fn new(width: u32, height: u32, fps_milli: u64, format: PixelFormat) -> (r: Result<
        MemoryFrameSink,
        Error,
    >)
        ensures
            r is Ok <==> 1 <= width * height * format.spec_channel_count() <= usize::MAX,
            match r {
                Ok(s) => {
                    &&& s.wf()
                    &&& s.spec_data() == Seq::<u8>::empty()
                    &&& s.spec_sink().spec_width() == width
                    &&& s.spec_sink().spec_height() == height
                    &&& s.spec_sink().spec_format() == format
                    &&& s.spec_sink().spec_fps_milli() == fps_milli
                },
                Err(e) => e is SizeMismatch,
            },
    {
        match FrameSink::open(width, height, fps_milli, format) {
            Ok(sink) => {
                let s = MemoryFrameSink { sink, data: Vec::new() };
                proof {
                    assert(s.spec_data() =~= Seq::<u8>::empty());
                }
                Ok(s)
            },
            Err(e) => Err(e),
        }
    }

    /// Writes one whole frame, blocking the caller's view until every
    /// byte is kept: afterwards the written bytes end with exactly
    /// this frame. A buffer of any other length is a `SizeMismatch`
    /// and nothing is written.
    pub fn write_frame(&mut self, buffer: &Vec<u8>) -> (r: Result<(), Error>)
        requires
            old(self).wf(),
            old(self).spec_data().len() + buffer@.len() <= usize::MAX,
        ensures
            final(self).wf(),
            final(self).spec_sink() == old(self).spec_sink(),
            r is Ok <==> buffer@.len() == old(self).spec_sink().spec_frame_len(),
            match r {
                Ok(()) => final(self).spec_data() == old(self).spec_data() + buffer@,
                Err(e) => e is SizeMismatch && *final(self) == *old(self),
            },
    {
        match self.sink.check_frame(buffer) {
            Ok(()) => {
                let mut m: usize = 0;
                let len = buffer.len();
                while m < len
                    invariant
                        m <= len,
                        len == buffer@.len(),
                        self.sink == old(self).spec_sink(),
                        old(self).spec_data().len() + len <= usize::MAX,
                        self.data@ =~= old(self).spec_data() + buffer@.take(m as int),
                    decreases len - m,
                {
                    self.data.push(buffer[m]);
                    m += 1;
                }
                proof {
                    assert(self.data@ =~= old(self).spec_data() + buffer@);
                }
                Ok(())
            },
            Err(e) => Err(e),
        }
    }

    /// Hands the written stream over, consuming the sink: dropping the
    /// pipe end is what tells an encode process to finalize.
    pub fn finish(self) -> (r: Vec<u8>)
        ensures
            r@ == self.spec_data(),
    {
        self.data
    }
}

} // verus!
