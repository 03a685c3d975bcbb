use vstd::prelude::*;

use crate::error::Error;
use crate::pixel::PixelFormat;
use crate::text;

verus! {

/// A point or span on a clip's timeline, in whole hours, minutes and
/// seconds.
#[derive(Clone, Copy, PartialEq, Eq, Structural, Debug)]
pub struct TimeDuration {
    pub hour: u32,
    pub min: u32,
    pub sec: u32,
}

impl TimeDuration {
    pub fn new(hour: u32, min: u32, sec: u32) -> (t: TimeDuration)
        ensures
            t.hour == hour,
            t.min == min,
            t.sec == sec,
    {
        TimeDuration { hour, min, sec }
    }

    pub open spec fn spec_total_seconds(&self) -> int {
        self.hour * 3600 + self.min * 60 + self.sec
    }

    pub fn total_seconds(&self) -> (s: u64)
        ensures
            s == self.spec_total_seconds(),
    {
        self.hour as u64 * 3600 + self.min as u64 * 60 + self.sec as u64
    }

    /// The timecode the decode process is seeked with: hours, minutes
    /// and seconds, each in decimal and at least two places wide,
    /// separated by colons.
    pub open spec fn spec_timecode(&self) -> Seq<char> {
        text::spec_padded2(self.hour as int) + seq![':'] + text::spec_padded2(self.min as int)
            + seq![':'] + text::spec_padded2(self.sec as int)
    }

    pub fn timecode(&self) -> (s: String)
        ensures
            s@ == self.spec_timecode(),
    {
        proof {
            reveal_strlit(":");
        }
        let mut s = text::u32_padded2(self.hour);
        s.append(":");
        s.append(text::u32_padded2(self.min).as_str());
        s.append(":");
        s.append(text::u32_padded2(self.sec).as_str());
        proof {
            assert(s@ =~= self.spec_timecode());
        }
        s
    }
}

impl Default for TimeDuration {
    /// The start of the timeline.
    fn default() -> (t: TimeDuration)
        ensures
            t.hour == 0,
            t.min == 0,
            t.sec == 0,
    {
        TimeDuration { hour: 0, min: 0, sec: 0 }
    }
}

/// What the metadata collaborator reports of a video file. The core
/// consumes this structured result; it never parses the collaborator's
/// wire format itself.
#[derive(Clone, Copy, PartialEq, Eq, Structural, Debug)]
pub struct VideoMetadata {
    pub width: u32,
    pub height: u32,
    /// The whole video's duration, in milliseconds.
    pub duration_ms: u64,
    /// The total frame count of the video stream.
    pub nb_frames: u32,
    pub pix_fmt: PixelFormat,
}

/// The frame rate in thousandths of a frame per second, derived from
/// the frame count and the duration.
pub open spec fn spec_fps_milli(nb_frames: int, duration_ms: int) -> int {
    nb_frames * 1_000_000 / duration_ms
}

/// Derives the frame rate, in thousandths of a frame per second, from
/// the frame count and the duration; a zero duration has no rate.
pub fn derive_fps_milli(nb_frames: u32, duration_ms: u64) -> (r: Option<u64>)
    ensures
        r is None <==> duration_ms == 0,
        match r {
            Some(f) => f == spec_fps_milli(nb_frames as int, duration_ms as int),
            None => true,
        },
{
    if duration_ms == 0 {
        return None;
    }
    Some(nb_frames as u64 * 1_000_000 / duration_ms)
}

/// How many frames a span of so many seconds holds at the given rate,
/// truncated to whole frames and saturated at the widest cap a source
/// takes.
pub open spec fn spec_frame_cap(secs: int, fps_milli: int) -> int {
    if secs * fps_milli / 1000 > u32::MAX {
        u32::MAX as int
    } else {
        secs * fps_milli / 1000
    }
}

/// The frame cap for a time span at the given rate.
pub fn frame_cap_from(span: &TimeDuration, fps_milli: u64) -> (r: u32)
    ensures
        r == spec_frame_cap(span.spec_total_seconds(), fps_milli as int),
{
    let secs = span.total_seconds();
    proof {
        assert((secs as int) * (fps_milli as int) < u128::MAX) by (nonlinear_arith)
            requires
                0 <= secs < 0x100000000000u64,
                fps_milli <= u64::MAX,
        {
        }
    }
    let prod: u128 = (secs as u128) * (fps_milli as u128);
    let cap: u128 = prod / 1000;
    if cap > u32::MAX as u128 {
        u32::MAX
    } else {
        cap as u32
    }
}

/// A video file bound to the parameters derived for it: its
/// dimensions, pixel format, frame rate, frame-count cap and seek
/// offset, everything a frame source is opened with.
#[derive(Clone, Debug)]
pub struct Clip {
    path: String,
    width: u32,
    height: u32,
    fps_milli: u64,
    pixel_format: PixelFormat,
    nb_frames: u32,
    duration_ms: u64,
    start: TimeDuration,
    max_nb_frames: u32,
}

/// Everything a decode process is started with: the file, the frame
/// shape, the layout tag, the seek timecode and the frame cap that the
/// reader enforces regardless of the process.
pub struct SourceParams {
    pub path: String,
    pub width: u32,
    pub height: u32,
    pub pix_fmt: PixelFormat,
    pub seek: String,
    pub frame_cap: u32,
}

impl Clip {
    pub closed spec fn spec_path(&self) -> Seq<char> {
        self.path@
    }

    pub closed spec fn spec_width(&self) -> u32 {
        self.width
    }

    pub closed spec fn spec_height(&self) -> u32 {
        self.height
    }

    pub closed spec fn spec_fps_milli(&self) -> u64 {
        self.fps_milli
    }

    pub closed spec fn spec_pixel_format(&self) -> PixelFormat {
        self.pixel_format
    }

    pub closed spec fn spec_nb_frames(&self) -> u32 {
        self.nb_frames
    }

    pub closed spec fn spec_duration_ms(&self) -> u64 {
        self.duration_ms
    }

    pub closed spec fn spec_start(&self) -> TimeDuration {
        self.start
    }

    pub closed spec fn spec_max_nb_frames(&self) -> u32 {
        self.max_nb_frames
    }

    /// Binds a file to the parameters derived from its metadata and an
    /// optional time window: the frame rate from frame count over
    /// duration; the cap from the window's length at that rate, or the
    /// whole frame count without a window; the seek offset from the
    /// window's start, or the start of the timeline.
    ///
    /// Metadata without a duration supports no rate: that is
    /// `MetadataUnavailable`.
    pub fn new(
        path: String,
        meta: VideoMetadata,
        start: Option<TimeDuration>,
        end: Option<TimeDuration>,
    ) -> (r: Result<Clip, Error>)
        ensures
            r is Ok <==> meta.duration_ms != 0,
            match r {
                Ok(c) => {
                    &&& c.spec_path() == path@
                    &&& c.spec_width() == meta.width
                    &&& c.spec_height() == meta.height
                    &&& c.spec_pixel_format() == meta.pix_fmt
                    &&& c.spec_nb_frames() == meta.nb_frames
                    &&& c.spec_duration_ms() == meta.duration_ms
                    &&& c.spec_fps_milli() == spec_fps_milli(
                        meta.nb_frames as int,
                        meta.duration_ms as int,
                    )
                    &&& c.spec_start() == (match start {
                        Some(s) => s,
                        None => TimeDuration { hour: 0, min: 0, sec: 0 },
                    })
                    &&& c.spec_max_nb_frames() == (match end {
                        Some(e) => spec_frame_cap(
                            e.spec_total_seconds(),
                            c.spec_fps_milli() as int,
                        ),
                        None => meta.nb_frames as int,
                    })
                },
                Err(e) => e is MetadataUnavailable,
            },
    {
        let fps_milli = match derive_fps_milli(meta.nb_frames, meta.duration_ms) {
            Some(f) => f,
            None => {
                return Err(Error::MetadataUnavailable);
            },
        };
        let start = match start {
            Some(s) => s,
            None => TimeDuration::new(0, 0, 0),
        };
        let max_nb_frames = match end {
            Some(e) => frame_cap_from(&e, fps_milli),
            None => meta.nb_frames,
        };
        Ok(
            Clip {
                path,
                width: meta.width,
                height: meta.height,
                fps_milli,
                pixel_format: meta.pix_fmt,
                nb_frames: meta.nb_frames,
                duration_ms: meta.duration_ms,
                start,
                max_nb_frames,
            },
        )
    }

    /// A clip of the same file over a new time window: seeked to
    /// `start`, capped to the frames `during` holds at the clip's
    /// rate. The derivation is fresh; nothing of the running state is
    /// reused.
    pub fn subclip(&self, start: TimeDuration, during: TimeDuration) -> (c: Clip)
        ensures
            c.spec_path() == self.spec_path(),
            c.spec_width() == self.spec_width(),
            c.spec_height() == self.spec_height(),
            c.spec_pixel_format() == self.spec_pixel_format(),
            c.spec_nb_frames() == self.spec_nb_frames(),
            c.spec_duration_ms() == self.spec_duration_ms(),
            c.spec_fps_milli() == self.spec_fps_milli(),
            c.spec_start() == start,
            c.spec_max_nb_frames() == spec_frame_cap(
                during.spec_total_seconds(),
                self.spec_fps_milli() as int,
            ),
    {
        let max_nb_frames = frame_cap_from(&during, self.fps_milli);
        Clip {
            path: self.path.clone(),
            width: self.width,
            height: self.height,
            fps_milli: self.fps_milli,
            pixel_format: self.pixel_format,
            nb_frames: self.nb_frames,
            duration_ms: self.duration_ms,
            start,
            max_nb_frames,
        }
    }

    /// Everything the decode process for this clip is started with.
    pub fn source_params(&self) -> (p: SourceParams)
        ensures
            p.path@ == self.spec_path(),
            p.width == self.spec_width(),
            p.height == self.spec_height(),
            p.pix_fmt == self.spec_pixel_format(),
            p.seek@ == self.spec_start().spec_timecode(),
            p.frame_cap == self.spec_max_nb_frames(),
    {
        SourceParams {
            path: self.path.clone(),
            width: self.width,
            height: self.height,
            pix_fmt: self.pixel_format,
            seek: self.start.timecode(),
            frame_cap: self.max_nb_frames,
        }
    }

    pub fn width(&self) -> (w: u32)
        ensures
            w == self.spec_width(),
    {
        self.width
    }

    pub fn height(&self) -> (h: u32)
        ensures
            h == self.spec_height(),
    {
        self.height
    }

    pub fn fps_milli(&self) -> (f: u64)
        ensures
            f == self.spec_fps_milli(),
    {
        self.fps_milli
    }

    pub fn pixel_format(&self) -> (f: PixelFormat)
        ensures
            f == self.spec_pixel_format(),
    {
        self.pixel_format
    }

    pub fn nb_frames(&self) -> (n: u32)
        ensures
            n == self.spec_nb_frames(),
    {
        self.nb_frames
    }

    pub fn max_nb_frames(&self) -> (n: u32)
        ensures
            n == self.spec_max_nb_frames(),
    {
        self.max_nb_frames
    }
}

} // verus!
