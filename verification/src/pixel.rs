use vstd::prelude::*;

use crate::frame::Frame;
use crate::frame::FrameView;
use crate::frame::lemma_flat_index_bound;

verus! {

/// The semantic meaning of one channel of a pixel.
#[derive(Clone, Copy, PartialEq, Eq, Structural, Debug)]
pub enum ChannelKind {
    Red,
    Green,
    Blue,
    Alpha,
    Luma,
    ChromaBlue,
    ChromaRed,
}

/// The channel layout used to interpret a frame's raw bytes as pixels.
///
/// The set of layouts is closed: the raw-frame protocol spoken with the
/// decode and encode processes supports only a fixed, small set of layouts,
/// so an enumeration keeps every format check exhaustive.
#[derive(Clone, Copy, PartialEq, Eq, Structural, Debug)]
pub enum PixelFormat {
    /// Three 8-bit channels: red, green, blue.
    Rgb24,
    /// Three 8-bit channels: luma and two chroma channels.
    Yuv420p,
    /// Four 8-bit channels: red, green, blue, alpha.
    Rgba,
}

impl PixelFormat {
    /// How many 8-bit channels one pixel of this format occupies.
    pub open spec fn spec_channel_count(self) -> nat {
        match self {
            PixelFormat::Rgb24 => 3,
            PixelFormat::Yuv420p => 3,
            PixelFormat::Rgba => 4,
        }
    }

    /// The meaning of each channel, in buffer order.
    pub open spec fn spec_channel_semantics(self) -> Seq<ChannelKind> {
        match self {
            PixelFormat::Rgb24 => seq![
                ChannelKind::Red,
                ChannelKind::Green,
                ChannelKind::Blue,
            ],
            PixelFormat::Yuv420p => seq![
                ChannelKind::Luma,
                ChannelKind::ChromaBlue,
                ChannelKind::ChromaRed,
            ],
            PixelFormat::Rgba => seq![
                ChannelKind::Red,
                ChannelKind::Green,
                ChannelKind::Blue,
                ChannelKind::Alpha,
            ],
        }
    }

    /// The canonical name of the layout, as the decode and encode
    /// processes expect it on their command line.
    pub open spec fn spec_name(self) -> Seq<char> {
        match self {
            PixelFormat::Rgb24 => "rgb24"@,
            PixelFormat::Yuv420p => "yuv420p"@,
            PixelFormat::Rgba => "rgba"@,
        }
    }

    pub fn channel_count(self) -> (c: u8)
        ensures
            c as nat == self.spec_channel_count(),
            0 < c,
    {
        match self {
            PixelFormat::Rgb24 => 3,
            PixelFormat::Yuv420p => 3,
            PixelFormat::Rgba => 4,
        }
    }

    pub fn channel_semantics(self) -> (s: Vec<ChannelKind>)
        ensures
            s@ == self.spec_channel_semantics(),
            s@.len() == self.spec_channel_count(),
    {
        let mut s: Vec<ChannelKind> = Vec::new();
        match self {
            PixelFormat::Rgb24 => {
                s.push(ChannelKind::Red);
                s.push(ChannelKind::Green);
                s.push(ChannelKind::Blue);
            },
            PixelFormat::Yuv420p => {
                s.push(ChannelKind::Luma);
                s.push(ChannelKind::ChromaBlue);
                s.push(ChannelKind::ChromaRed);
            },
            PixelFormat::Rgba => {
                s.push(ChannelKind::Red);
                s.push(ChannelKind::Green);
                s.push(ChannelKind::Blue);
                s.push(ChannelKind::Alpha);
            },
        }
        proof {
            assert(s@ =~= self.spec_channel_semantics());
        }
        s
    }

    pub fn name(self) -> (n: &'static str)
        ensures
            n@ == self.spec_name(),
    {
        match self {
            PixelFormat::Rgb24 => "rgb24",
            PixelFormat::Yuv420p => "yuv420p",
            PixelFormat::Rgba => "rgba",
        }
    }

    /// The layout whose canonical name is `tag`, if there is one.
    pub fn from_tag(tag: &str) -> (r: Option<PixelFormat>)
        ensures
            match r {
                Some(f) => tag@ == f.spec_name(),
                None => {
                    &&& tag@ != PixelFormat::Rgb24.spec_name()
                    &&& tag@ != PixelFormat::Yuv420p.spec_name()
                    &&& tag@ != PixelFormat::Rgba.spec_name()
                },
            },
    {
        if crate::text::str_eq(tag, "rgb24") {
            Some(PixelFormat::Rgb24)
        } else if crate::text::str_eq(tag, "yuv420p") {
            Some(PixelFormat::Yuv420p)
        } else if crate::text::str_eq(tag, "rgba") {
            Some(PixelFormat::Rgba)
        } else {
            None
        }
    }
}

/// Every layout keeps the documented shape: as many channel meanings as
/// channels, and at least one channel.
pub proof fn lemma_format_well_formed(f: PixelFormat)
    ensures
        f.spec_channel_semantics().len() == f.spec_channel_count(),
        f.spec_channel_count() > 0,
{
}

/// One typed pixel: a fixed number of 8-bit channel values belonging to
/// one of the closed set of layouts.
pub trait Pixel: Sized {
    /// How many channels a pixel of this type has.
    spec fn spec_channel_count() -> nat;

    /// The layout this pixel type realizes.
    spec fn spec_format() -> PixelFormat;

    /// The channel values, in buffer order.
    spec fn channel_seq(&self) -> Seq<u8>;

    fn channel_count() -> (c: u8)
        ensures
            c as nat == Self::spec_channel_count(),
            Self::spec_format().spec_channel_count() == Self::spec_channel_count(),
            0 < c,
    ;

    fn format() -> (f: PixelFormat)
        ensures
            f == Self::spec_format(),
    ;

    /// The canonical layout name, as handed to the decode and encode
    /// processes.
    fn name() -> (n: &'static str)
        ensures
            n@ == Self::spec_format().spec_name(),
    ;

    /// Reads one pixel out of a buffer window of exactly one pixel's
    /// channel values.
    fn from_slice(s: &[u8]) -> (p: Self)
        requires
            s@.len() == Self::spec_channel_count(),
        ensures
            p.channel_seq() == s@,
    ;

    /// The channel values as an owned buffer.
    fn to_vec(&self) -> (v: Vec<u8>)
        ensures
            v@ == self.channel_seq(),
    ;
}

/// The typed red, green, blue pixel a three-byte window holds.
pub open spec fn rgb_of(s: Seq<u8>) -> Rgb {
    Rgb([s[0], s[1], s[2]])
}

/// A red, green, blue pixel with 8-bit channels.
pub struct Rgb(pub [u8; 3]);

impl Pixel for Rgb {
    open spec fn spec_channel_count() -> nat {
        3
    }

    open spec fn spec_format() -> PixelFormat {
        PixelFormat::Rgb24
    }

    open spec fn channel_seq(&self) -> Seq<u8> {
        self.0@
    }

    fn channel_count() -> u8 {
        3
    }

    fn format() -> PixelFormat {
        PixelFormat::Rgb24
    }

    fn name() -> &'static str {
        "rgb24"
    }

    fn from_slice(s: &[u8]) -> (p: Self)
    {
        let p = Rgb([s[0], s[1], s[2]]);
        proof {
            assert(p.0@ =~= s@);
        }
        p
    }

    fn to_vec(&self) -> (v: Vec<u8>)
    {
        let mut v: Vec<u8> = Vec::new();
        v.push(self.0[0]);
        v.push(self.0[1]);
        v.push(self.0[2]);
        proof {
            assert(v@ =~= self.0@);
        }
        v
    }
}

/// A luma plus two chroma channels pixel with 8-bit channels.
pub struct Yuv420p(pub [u8; 3]);

impl Pixel for Yuv420p {
    open spec fn spec_channel_count() -> nat {
        3
    }

    open spec fn spec_format() -> PixelFormat {
        PixelFormat::Yuv420p
    }

    open spec fn channel_seq(&self) -> Seq<u8> {
        self.0@
    }

    fn channel_count() -> u8 {
        3
    }

    fn format() -> PixelFormat {
        PixelFormat::Yuv420p
    }

    fn name() -> &'static str {
        "yuv420p"
    }

    fn from_slice(s: &[u8]) -> (p: Self)
    {
        let p = Yuv420p([s[0], s[1], s[2]]);
        proof {
            assert(p.0@ =~= s@);
        }
        p
    }

    fn to_vec(&self) -> (v: Vec<u8>)
    {
        let mut v: Vec<u8> = Vec::new();
        v.push(self.0[0]);
        v.push(self.0[1]);
        v.push(self.0[2]);
        proof {
            assert(v@ =~= self.0@);
        }
        v
    }
}

/// A pass over the pixels of a borrowed frame, front to back.
///
/// Each step hands out one pixel's channel values; after
/// `width * height` steps the pass is over.
pub struct Pixels<'a> {
    frame: &'a Frame,
    idx: usize,
}

impl<'a> Pixels<'a> {
    /// The frame being walked.
    pub closed spec fn frame_view(&self) -> FrameView {
        self.frame@
    }

    /// How many pixels have been handed out so far.
    pub closed spec fn at(&self) -> nat {
        self.idx as nat
    }

    pub open spec fn wf(&self) -> bool {
        &&& self.frame_view().wf()
        &&& self.at() <= self.frame_view().width * self.frame_view().height
    }

    pub fn new(frame: &'a Frame) -> (p: Pixels<'a>)
        requires
            frame.wf(),
        ensures
            p.wf(),
            p.frame_view() == frame@,
            p.at() == 0,
    {
        Pixels { frame, idx: 0 }
    }

    /// The next pixel's channel values, or `None` once every pixel has
    /// been handed out.
    pub fn next(&mut self) -> (r: Option<Vec<u8>>)
        requires
            old(self).wf(),
        ensures
            final(self).wf(),
            final(self).frame_view() == old(self).frame_view(),
            match r {
                Some(px) => {
                    &&& old(self).at() < old(self).frame_view().width * old(
                        self,
                    ).frame_view().height
                    &&& px@ == old(self).frame_view().pixel_at(old(self).at() as int)
                    &&& final(self).at() == old(self).at() + 1
                },
                None => {
                    &&& old(self).at() == old(self).frame_view().width * old(
                        self,
                    ).frame_view().height
                    &&& final(self).at() == old(self).at()
                },
            },
    {
        let count = self.frame.pixel_count();
        if self.idx < count {
            let px = self.frame.pixel_at_flat(self.idx);
            self.idx += 1;
            Some(px)
        } else {
            None
        }
    }

    /// How many pixels are still to come.
    pub fn size_hint(&self) -> (n: usize)
        requires
            self.wf(),
        ensures
            n == self.frame_view().width * self.frame_view().height - self.at(),
    {
        self.frame.pixel_count() - self.idx
    }
}

/// A mutating pass over the pixels of a frame, front to back.
///
/// The pass owns the frame's buffer while it runs; [`PixelsMut::finish`]
/// hands the frame back, with every write kept.
pub struct PixelsMut {
    buffer: Vec<u8>,
    width: u32,
    height: u32,
    format: PixelFormat,
    idx: usize,
}

impl PixelsMut {
    /// The frame as it stands now, writes so far included.
    pub closed spec fn frame_view(&self) -> FrameView {
        FrameView {
            bytes: self.buffer@,
            width: self.width as nat,
            height: self.height as nat,
            format: self.format,
        }
    }

    /// How many pixels have been passed so far.
    pub closed spec fn at(&self) -> nat {
        self.idx as nat
    }

    pub open spec fn wf(&self) -> bool {
        &&& self.frame_view().wf()
        &&& self.at() <= self.frame_view().width * self.frame_view().height
    }

    pub fn new(frame: Frame) -> (p: PixelsMut)
        requires
            frame.wf(),
        ensures
            p.wf(),
            p.frame_view() == frame@,
            p.at() == 0,
    {
        let format = frame.format();
        let width = frame.width();
        let height = frame.height();
        let buffer = frame.into_raw();
        PixelsMut { buffer, width, height, format, idx: 0 }
    }

    /// The next pixel's channel values, or `None` once every pixel has
    /// been passed; the pixel is left as it is.
    pub fn next(&mut self) -> (r: Option<Vec<u8>>)
        requires
            old(self).wf(),
        ensures
            final(self).wf(),
            final(self).frame_view() == old(self).frame_view(),
            match r {
                Some(px) => {
                    &&& old(self).at() < old(self).frame_view().width * old(
                        self,
                    ).frame_view().height
                    &&& px@ == old(self).frame_view().pixel_at(old(self).at() as int)
                    &&& final(self).at() == old(self).at() + 1
                },
                None => {
                    &&& old(self).at() == old(self).frame_view().width * old(
                        self,
                    ).frame_view().height
                    &&& final(self).at() == old(self).at()
                },
            },
    {
        self.replace_mode(None)
    }

    /// The channel values of the pixel under the cursor, without
    /// advancing, or `None` once every pixel has been passed.
    pub fn peek(&self) -> (r: Option<Vec<u8>>)
        requires
            self.wf(),
        ensures
            match r {
                Some(px) => {
                    &&& self.at() < self.frame_view().width * self.frame_view().height
                    &&& px@ == self.frame_view().pixel_at(self.at() as int)
                },
                None => self.at() == self.frame_view().width * self.frame_view().height,
            },
    {
        proof {
            crate::frame::lemma_pixel_count_bound(
                (self.frame_view().width * self.frame_view().height) as int,
                self.frame_view().channels() as int,
            );
        }
        let c = self.format.channel_count() as usize;
        let n = self.buffer.len();
        let count = n / c;
        if self.idx >= count {
            return None;
        }
        proof {
            lemma_flat_index_bound(self.idx as int, count as int, c as int);
        }
        let base: usize = self.idx * c;
        let mut px: Vec<u8> = Vec::new();
        let mut m: usize = 0;
        while m < c
            invariant
                m <= c,
                n == self.buffer@.len(),
                base + c <= n,
                px@ =~= self.frame_view().bytes.subrange(base as int, base + m),
                base == self.at() * c,
                c == self.frame_view().channels(),
            decreases c - m,
        {
            px.push(self.buffer[base + m]);
            m += 1;
        }
        proof {
            assert(px@ =~= self.frame_view().pixel_at(self.at() as int));
        }
        Some(px)
    }

    /// Writes `px` over the next pixel and hands back what stood there,
    /// or `None` once every pixel has been passed.
    ///
    /// The write lands in the frame's buffer: it is seen by every later
    /// read and survives into [`PixelsMut::finish`].
    pub fn replace_next(&mut self, px: &Vec<u8>) -> (r: Option<Vec<u8>>)
        requires
            old(self).wf(),
            px@.len() == old(self).frame_view().channels(),
        ensures
            final(self).wf(),
            match r {
                Some(prev) => {
                    &&& old(self).at() < old(self).frame_view().width * old(
                        self,
                    ).frame_view().height
                    &&& prev@ == old(self).frame_view().pixel_at(old(self).at() as int)
                    &&& final(self).frame_view() == old(self).frame_view().with_pixel_at(
                        old(self).at() as int,
                        px@,
                    )
                    &&& final(self).at() == old(self).at() + 1
                },
                None => {
                    &&& old(self).at() == old(self).frame_view().width * old(
                        self,
                    ).frame_view().height
                    &&& *final(self) == *old(self)
                },
            },
    {
        self.replace_mode(Some(px))
    }

    /// How many pixels are still to come.
    pub fn size_hint(&self) -> (n: usize)
        requires
            self.wf(),
        ensures
            n == self.frame_view().width * self.frame_view().height - self.at(),
    {
        proof {
            crate::frame::lemma_pixel_count_bound(
                (self.frame_view().width * self.frame_view().height) as int,
                self.frame_view().channels() as int,
            );
        }
        let c = self.format.channel_count() as usize;
        self.buffer.len() / c - self.idx
    }

    /// Ends the pass and hands the frame back, all writes kept.
    pub fn finish(self) -> (f: Frame)
        requires
            self.wf(),
        ensures
            f@ == self.frame_view(),
            f.wf(),
    {
        Frame::from_parts(self.buffer, self.width, self.height, self.format)
    }

    /// One step of the pass: reads the pixel under the cursor, writes
    /// `px` over it if one is given, and advances.
    fn replace_mode(&mut self, px: Option<&Vec<u8>>) -> (r: Option<Vec<u8>>)
        requires
            old(self).wf(),
            px matches Some(p) ==> p@.len() == old(self).frame_view().channels(),
        ensures
            final(self).wf(),
            match r {
                Some(prev) => {
                    &&& old(self).at() < old(self).frame_view().width * old(
                        self,
                    ).frame_view().height
                    &&& prev@ == old(self).frame_view().pixel_at(old(self).at() as int)
                    &&& final(self).at() == old(self).at() + 1
                    &&& match px {
                        Some(p) => final(self).frame_view() == old(self).frame_view().with_pixel_at(
                            old(self).at() as int,
                            p@,
                        ),
                        None => final(self).frame_view() == old(self).frame_view(),
                    }
                },
                None => {
                    &&& old(self).at() == old(self).frame_view().width * old(
                        self,
                    ).frame_view().height
                    &&& *final(self) == *old(self)
                },
            },
    {
        proof {
            crate::frame::lemma_pixel_count_bound(
                (self.frame_view().width * self.frame_view().height) as int,
                self.frame_view().channels() as int,
            );
        }
        let c = self.format.channel_count() as usize;
        let n = self.buffer.len();
        let count = n / c;
        if self.idx >= count {
            return None;
        }
        proof {
            lemma_flat_index_bound(self.idx as int, count as int, c as int);
        }
        let base: usize = self.idx * c;
        let ghost v0 = self.frame_view();
        let ghost k = self.idx as int;
        let mut prev: Vec<u8> = Vec::new();
        let mut m: usize = 0;
        while m < c
            invariant
                m <= c,
                n == self.buffer@.len(),
                base + c <= n,
                prev@ =~= v0.bytes.subrange(base as int, base + m),
                self.frame_view() == v0,
                base == k * c,
            decreases c - m,
        {
            prev.push(self.buffer[base + m]);
            m += 1;
        }
        if let Some(p) = px {
            let mut m: usize = 0;
            while m < c
                invariant
                    m <= c,
                    n == self.buffer@.len(),
                    base + c <= n,
                    p@.len() == c,
                    self.buffer@ =~= v0.bytes.take(base as int).add(p@.take(m as int)).add(
                        v0.bytes.skip(base + m),
                    ),
                    self.width == v0.width,
                    self.height == v0.height,
                    self.format == v0.format,
                    self.buffer@.len() == v0.bytes.len(),
                    self.idx == k,
                    base == k * c,
                decreases c - m,
            {
                self.buffer[base + m] = p[m];
                proof {
                    assert(self.buffer@ =~= v0.bytes.take(base as int).add(
                        p@.take(m + 1),
                    ).add(v0.bytes.skip(base + m + 1)));
                }
                m += 1;
            }
            proof {
                assert(self.frame_view() == v0.with_pixel_at(k, p@)) by {
                    assert(self.buffer@ =~= v0.with_pixel_at(k, p@).bytes);
                }
            }
        }
        self.idx += 1;
        proof {
            assert(prev@ =~= v0.pixel_at(k));
        }
        Some(prev)
    }
}

} // verus!
