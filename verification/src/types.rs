//! Media discriminants and timing values carried by every frame.
use vstd::prelude::*;

verus! {

/// A presentation or decode time, counted in ticks of a [`Timebase`].
/// The value `i64::MIN` stands for "no timestamp".
#[derive(Debug, Clone, Copy, PartialEq, Eq, Structural)]
pub struct Timestamp {
    ticks: i64,
}

impl Timestamp {
    /// The ticks this timestamp holds.
    pub closed spec fn ticks_spec(self) -> i64 {
        self.ticks
    }

    /// The timestamp of `ticks` ticks.
    pub closed spec fn of_ticks(ticks: i64) -> Timestamp {
        Timestamp { ticks }
    }

    /// The absent timestamp.
    pub open spec fn none_spec() -> Timestamp {
        Timestamp::of_ticks(i64::MIN)
    }

    /// A timestamp of `ticks` ticks.
    pub fn new(ticks: i64) -> (r: Timestamp)
        ensures
            r == Timestamp::of_ticks(ticks),
            r.ticks_spec() == ticks,
    {
        Timestamp { ticks }
    }

    /// The absent timestamp.
    pub fn none() -> (r: Timestamp)
        ensures
            r == Timestamp::none_spec(),
            r.ticks_spec() == i64::MIN,
    {
        Timestamp { ticks: i64::MIN }
    }

    /// The ticks this timestamp holds.
    pub fn ticks(&self) -> (r: i64)
        ensures
            r == self.ticks_spec(),
    {
        self.ticks
    }

    /// Whether this is the absent timestamp.
    pub fn is_none(&self) -> (r: bool)
        ensures
            r == (self.ticks_spec() == i64::MIN),
    {
        self.ticks == i64::MIN
    }
}

/// The length of one tick, as the fraction `num / den` of a second.
#[derive(Debug, Clone, Copy, PartialEq, Eq, Structural)]
pub struct Timebase {
    num: u32,
    den: u32,
}

impl Timebase {
    /// The numerator of the tick length.
    pub closed spec fn num_spec(self) -> u32 {
        self.num
    }

    /// The denominator of the tick length.
    pub closed spec fn den_spec(self) -> u32 {
        self.den
    }

    /// The timebase `num / den`.
    pub closed spec fn of_ratio(num: u32, den: u32) -> Timebase {
        Timebase { num, den }
    }

    /// The 90 kHz clock of video streams.
    pub open spec fn video_90k_spec() -> Timebase {
        Timebase::of_ratio(1, 90000)
    }

    /// The timebase `num / den`.
    pub fn new(num: u32, den: u32) -> (r: Timebase)
        ensures
            r == Timebase::of_ratio(num, den),
            r.num_spec() == num,
            r.den_spec() == den,
    {
        Timebase { num, den }
    }

    /// The 90 kHz clock of video streams: `1 / 90000`.
    pub fn video_90k() -> (r: Timebase)
        ensures
            r == Timebase::video_90k_spec(),
            r.num_spec() == 1,
            r.den_spec() == 90000,
    {
        Timebase { num: 1, den: 90000 }
    }

    /// The numerator of the tick length.
    pub fn num(&self) -> (r: u32)
        ensures
            r == self.num_spec(),
    {
        self.num
    }

    /// The denominator of the tick length.
    pub fn den(&self) -> (r: u32)
        ensures
            r == self.den_spec(),
    {
        self.den
    }
}

/// The kind of media a frame carries.
#[derive(Debug, Clone, Copy, PartialEq, Eq, Structural)]
pub enum MediaType {
    Video,
    Audio,
    Subtitle,
    Data,
}

/// The codec a frame's data is coded with.
#[derive(Debug, Clone, Copy, PartialEq, Eq, Structural)]
pub enum CodecId {
    Unknown,
    H264,
    H265,
    Vp9,
    Av1,
    Aac,
    Opus,
    Flac,
    Pcm,
}

/// The layout of decoded video samples.
#[derive(Debug, Clone, Copy, PartialEq, Eq, Structural)]
pub enum PixelFormat {
    Yuv420p,
    Yuv422p,
    Yuv444p,
    Nv12,
    Rgb24,
    Rgba,
}

/// The layout of decoded audio samples.
#[derive(Debug, Clone, Copy, PartialEq, Eq, Structural)]
pub enum SampleFormat {
    U8,
    S16,
    S32,
    S16Planar,
    S32Planar,
}

} // verus!
