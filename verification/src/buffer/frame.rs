//! Frames: immutable media buffers with metadata, their builder, and the
//! growable buffer a decoder writes into.
use vstd::prelude::*;
use bytes::{Bytes, BytesMut};
use std::sync::Arc;
use crate::buffer::flags::FrameFlags;
use crate::buffer::shared::{acquire_from_shared, recycle_into_shared, SharedPool};
use crate::bytes_ext::{
    bm_capacity, bm_clear, bm_contents, bm_extend_from_slice, bm_freeze, bm_len, bm_to_vec,
    bm_with_capacity, bytes_as_slice, bytes_clone, bytes_contents, bytes_from_vec, bytes_len, bytes_slice,
};
use crate::error::BufferError;
use crate::types::{CodecId, MediaType, PixelFormat, SampleFormat, Timebase, Timestamp};

verus! {

/// The most bytes a frame may hold: 256 MiB.
pub const MAX_BUFFER_SIZE: usize = 256 * 1024 * 1024;

/// Geometry and layout of a video frame.
#[derive(Debug, Clone, PartialEq, Eq, Structural)]
pub struct VideoMeta {
    pub width: u32,
    pub height: u32,
    pub pixel_format: PixelFormat,
    pub dar_num: u32,
    pub dar_den: u32,
}

/// Rate and layout of an audio frame.
#[derive(Debug, Clone, PartialEq, Eq, Structural)]
pub struct AudioMeta {
    pub sample_rate: u32,
    pub channels: u8,
    pub sample_format: SampleFormat,
    pub nb_samples: u32,
}

/// Metadata specific to the kind of frame.
#[derive(Debug, Clone)]
pub enum FrameMeta {
    Video(VideoMeta),
    Audio(AudioMeta),
    Empty,
}

/// What a frame is: its bytes and its metadata.
pub struct FrameView {
    pub data: Seq<u8>,
    pub pts: Timestamp,
    pub dts: Timestamp,
    pub duration: Timestamp,
    pub timebase: Timebase,
    pub media_type: MediaType,
    pub codec_id: CodecId,
    pub flags: FrameFlags,
    pub stream_index: u32,
    pub meta: FrameMeta,
}

/// A frame of `media_type` holding `data`, with every other field at its
/// default: no timestamps, the 90 kHz timebase, unknown codec, no flags,
/// stream 0 and no metadata.
pub open spec fn default_frame(media_type: MediaType, data: Seq<u8>) -> FrameView {
    FrameView {
        data,
        pts: Timestamp::none_spec(),
        dts: Timestamp::none_spec(),
        duration: Timestamp::none_spec(),
        timebase: Timebase::video_90k_spec(),
        media_type,
        codec_id: CodecId::Unknown,
        flags: FrameFlags::from_bits_spec(0),
        stream_index: 0,
        meta: FrameMeta::Empty,
    }
}

/// The fundamental data unit of a pipeline: a frame's bytes and metadata.
/// Cloning is zero-copy: the bytes are shared, only a reference count grows.
#[derive(Debug)]
pub struct MediaBuffer {
    data: Bytes,
    pts: Timestamp,
    dts: Timestamp,
    duration: Timestamp,
    timebase: Timebase,
    media_type: MediaType,
    codec_id: CodecId,
    flags: FrameFlags,
    stream_index: u32,
    meta: Arc<FrameMeta>,
}

impl View for MediaBuffer {
    type V = FrameView;

    closed spec fn view(&self) -> FrameView {
        FrameView {
            data: bytes_contents(self.data),
            pts: self.pts,
            dts: self.dts,
            duration: self.duration,
            timebase: self.timebase,
            media_type: self.media_type,
            codec_id: self.codec_id,
            flags: self.flags,
            stream_index: self.stream_index,
            meta: *self.meta,
        }
    }
}

impl Clone for MediaBuffer {
    /// A second handle on the same frame: the bytes are shared, not copied.
    fn clone(&self) -> (r: MediaBuffer)
        ensures
            r@ == self@,
    {
        MediaBuffer {
            data: bytes_clone(&self.data),
            pts: self.pts,
            dts: self.dts,
            duration: self.duration,
            timebase: self.timebase,
            media_type: self.media_type,
            codec_id: self.codec_id,
            flags: self.flags,
            stream_index: self.stream_index,
            meta: self.meta.clone(),
        }
    }
}

/// A `Result` of a frame, seen through the frame's view.
pub open spec fn result_view(r: Result<MediaBuffer, BufferError>) -> Result<FrameView, BufferError> {
    match r {
        Ok(b) => Ok(b@),
        Err(e) => Err(e),
    }
}

impl MediaBuffer {
    /// Start building a frame of `media_type`.
    pub fn builder(media_type: MediaType) -> (r: MediaBufferBuilder)
        ensures
            r@ == fresh_builder(media_type),
            r@.media_type == media_type,
            r@.data is None,
    {
        MediaBufferBuilder::new(media_type)
    }

    /// An empty frame of `media_type` flagged as the end of its stream, with
    /// every other field at its default.
    pub fn end_of_stream(media_type: MediaType) -> (r: MediaBuffer)
        ensures
            r@ == (FrameView {
                flags: FrameFlags::from_bits_spec(8),
                ..default_frame(media_type, Seq::<u8>::empty())
            }),
            r@.flags.contains_spec(FrameFlags::from_bits_spec(8)),
            r@.data.len() == 0,
            r@.media_type == media_type,
    {
        let mut buf = Self::builder(media_type).build().unwrap();
        proof {
            crate::buffer::flags::lemma_from_bits(0);
        }
        buf.flags.insert(FrameFlags::end_of_stream());
        proof {
            assert(0u32 | 8u32 == 8u32) by (bit_vector);
            assert(8u32 & 8u32 == 8u32) by (bit_vector);
            crate::buffer::flags::lemma_from_bits(8);
        }
        buf
    }

    /// The frame's bytes.
    pub fn data(&self) -> (r: &[u8])
        ensures
            r@ == self@.data,
    {
        bytes_as_slice(&self.data)
    }

    /// Number of bytes in the frame.
    pub fn len(&self) -> (r: usize)
        ensures
            r == self@.data.len(),
    {
        bytes_len(&self.data)
    }

    /// Whether the frame holds no bytes.
    pub fn is_empty(&self) -> (r: bool)
        ensures
            r == (self@.data.len() == 0),
    {
        bytes_len(&self.data) == 0
    }

    /// Presentation time.
    pub fn pts(&self) -> (r: Timestamp)
        ensures
            r == self@.pts,
    {
        self.pts
    }

    /// Decode time.
    pub fn dts(&self) -> (r: Timestamp)
        ensures
            r == self@.dts,
    {
        self.dts
    }

    /// How long the frame lasts.
    pub fn duration(&self) -> (r: Timestamp)
        ensures
            r == self@.duration,
    {
        self.duration
    }

    /// The timebase the timestamps count in.
    pub fn timebase(&self) -> (r: Timebase)
        ensures
            r == self@.timebase,
    {
        self.timebase
    }

    /// The kind of media.
    pub fn media_type(&self) -> (r: MediaType)
        ensures
            r == self@.media_type,
    {
        self.media_type
    }

    /// The codec.
    pub fn codec_id(&self) -> (r: CodecId)
        ensures
            r == self@.codec_id,
    {
        self.codec_id
    }

    /// The frame's flags.
    pub fn flags(&self) -> (r: FrameFlags)
        ensures
            r == self@.flags,
    {
        self.flags
    }

    /// The index of the stream the frame belongs to.
    pub fn stream_index(&self) -> (r: u32)
        ensures
            r == self@.stream_index,
    {
        self.stream_index
    }

    /// The kind-specific metadata.
    pub fn meta(&self) -> (r: &FrameMeta)
        ensures
            *r == self@.meta,
    {
        &*self.meta
    }

    /// Whether the frame is flagged as a keyframe.
    pub fn is_keyframe(&self) -> (r: bool)
        ensures
            r == self@.flags.contains_spec(FrameFlags::from_bits_spec(1)),
    {
        proof {
            crate::buffer::flags::lemma_from_bits(1);
        }
        self.flags.contains(FrameFlags::keyframe())
    }

    /// Whether the frame is flagged as the end of its stream.
    pub fn is_eos(&self) -> (r: bool)
        ensures
            r == self@.flags.contains_spec(FrameFlags::from_bits_spec(8)),
    {
        proof {
            crate::buffer::flags::lemma_from_bits(8);
        }
        self.flags.contains(FrameFlags::end_of_stream())
    }

    /// Whether the frame is flagged as holding decoded samples.
    pub fn is_decoded(&self) -> (r: bool)
        ensures
            r == self@.flags.contains_spec(FrameFlags::from_bits_spec(16)),
    {
        proof {
            crate::buffer::flags::lemma_from_bits(16);
        }
        self.flags.contains(FrameFlags::decoded())
    }

    /// The same frame with presentation time `pts`.
    pub fn with_pts(self, pts: Timestamp) -> (r: MediaBuffer)
        ensures
            r@ == (FrameView { pts, ..self@ }),
    {
        let mut buf = self;
        buf.pts = pts;
        buf
    }

    /// The same frame with flags `flags`.
    pub fn with_flags(self, flags: FrameFlags) -> (r: MediaBuffer)
        ensures
            r@ == (FrameView { flags, ..self@ }),
    {
        let mut buf = self;
        buf.flags = flags;
        buf
    }

    /// Zero-copy slice: the frame with only its bytes `start..end`, sharing
    /// them with this frame. Refused when `start..end` is not within the bytes.
    pub fn slice(&self, start: usize, end: usize) -> (r: Result<MediaBuffer, BufferError>)
        ensures
            r is Err <==> (end > self@.data.len() || start > end),
            r matches Err(e) ==> e == (BufferError::OutOfBounds {
                start,
                end,
                len: self@.data.len() as usize,
            }),
            r matches Ok(b) ==> b@ == (FrameView {
                data: self@.data.subrange(start as int, end as int),
                ..self@
            }),
    {
        let len = bytes_len(&self.data);
        if end > len || start > end {
            return Err(BufferError::OutOfBounds { start, end, len });
        }
        Ok(MediaBuffer {
            data: bytes_slice(&self.data, start, end),
            pts: self.pts,
            dts: self.dts,
            duration: self.duration,
            timebase: self.timebase,
            media_type: self.media_type,
            codec_id: self.codec_id,
            flags: self.flags,
            stream_index: self.stream_index,
            meta: self.meta.clone(),
        })
    }
}

/// What a builder holds: every field a frame will get, the bytes only when
/// given.
pub struct BuilderView {
    pub media_type: MediaType,
    pub data: Option<Seq<u8>>,
    pub pts: Timestamp,
    pub dts: Timestamp,
    pub duration: Timestamp,
    pub timebase: Timebase,
    pub codec_id: CodecId,
    pub flags: FrameFlags,
    pub stream_index: u32,
    pub meta: FrameMeta,
}

/// A builder for a frame of `media_type` with nothing set yet.
pub open spec fn fresh_builder(media_type: MediaType) -> BuilderView {
    let d = default_frame(media_type, Seq::<u8>::empty());
    BuilderView {
        media_type,
        data: None,
        pts: d.pts,
        dts: d.dts,
        duration: d.duration,
        timebase: d.timebase,
        codec_id: d.codec_id,
        flags: d.flags,
        stream_index: d.stream_index,
        meta: d.meta,
    }
}

/// The frame a builder describes: its fields, and its bytes or none.
pub open spec fn built_frame(b: BuilderView) -> FrameView {
    FrameView {
        data: match b.data {
            Some(d) => d,
            None => Seq::<u8>::empty(),
        },
        pts: b.pts,
        dts: b.dts,
        duration: b.duration,
        timebase: b.timebase,
        media_type: b.media_type,
        codec_id: b.codec_id,
        flags: b.flags,
        stream_index: b.stream_index,
        meta: b.meta,
    }
}

/// What `build` gives for a builder: the frame it describes, or
/// `CapacityExceeded` when its bytes are more than `MAX_BUFFER_SIZE`.
pub open spec fn build_outcome(b: BuilderView) -> Result<FrameView, BufferError> {
    let f = built_frame(b);
    if f.data.len() > MAX_BUFFER_SIZE {
        Err(BufferError::CapacityExceeded { requested: f.data.len() as usize, maximum: MAX_BUFFER_SIZE })
    } else {
        Ok(f)
    }
}

/// Collects the fields of a frame before it is built.
pub struct MediaBufferBuilder {
    media_type: MediaType,
    data: Option<Vec<u8>>,
    pts: Timestamp,
    dts: Timestamp,
    duration: Timestamp,
    timebase: Timebase,
    codec_id: CodecId,
    flags: FrameFlags,
    stream_index: u32,
    meta: FrameMeta,
}

impl View for MediaBufferBuilder {
    type V = BuilderView;

    closed spec fn view(&self) -> BuilderView {
        BuilderView {
            media_type: self.media_type,
            data: match self.data {
                Some(v) => Some(v@),
                None => None,
            },
            pts: self.pts,
            dts: self.dts,
            duration: self.duration,
            timebase: self.timebase,
            codec_id: self.codec_id,
            flags: self.flags,
            stream_index: self.stream_index,
            meta: self.meta,
        }
    }
}

impl MediaBufferBuilder {
    /// A builder for a frame of `media_type` with nothing set yet.
    pub fn new(media_type: MediaType) -> (r: MediaBufferBuilder)
        ensures
            r@ == fresh_builder(media_type),
            r@.media_type == media_type,
            r@.data is None,
    {
        MediaBufferBuilder {
            media_type,
            data: None,
            pts: Timestamp::none(),
            dts: Timestamp::none(),
            duration: Timestamp::none(),
            timebase: Timebase::video_90k(),
            codec_id: CodecId::Unknown,
            flags: FrameFlags::empty(),
            stream_index: 0,
            meta: FrameMeta::Empty,
        }
    }

    /// Set the frame's bytes.
    pub fn data(self, data: Vec<u8>) -> (r: MediaBufferBuilder)
        ensures
            r@ == (BuilderView { data: Some(data@), ..self@ }),
    {
        let mut b = self;
        b.data = Some(data);
        b
    }

    /// Set the presentation time.
    pub fn pts(self, pts: Timestamp) -> (r: MediaBufferBuilder)
        ensures
            r@ == (BuilderView { pts, ..self@ }),
    {
        let mut b = self;
        b.pts = pts;
        b
    }

    /// Set the decode time.
    pub fn dts(self, dts: Timestamp) -> (r: MediaBufferBuilder)
        ensures
            r@ == (BuilderView { dts, ..self@ }),
    {
        let mut b = self;
        b.dts = dts;
        b
    }

    /// Set the duration.
    pub fn duration(self, d: Timestamp) -> (r: MediaBufferBuilder)
        ensures
            r@ == (BuilderView { duration: d, ..self@ }),
    {
        let mut b = self;
        b.duration = d;
        b
    }

    /// Set the timebase.
    pub fn timebase(self, tb: Timebase) -> (r: MediaBufferBuilder)
        ensures
            r@ == (BuilderView { timebase: tb, ..self@ }),
    {
        let mut b = self;
        b.timebase = tb;
        b
    }

    /// Set the codec.
    pub fn codec(self, c: CodecId) -> (r: MediaBufferBuilder)
        ensures
            r@ == (BuilderView { codec_id: c, ..self@ }),
    {
        let mut b = self;
        b.codec_id = c;
        b
    }

    /// Set the flags.
    pub fn flags(self, f: FrameFlags) -> (r: MediaBufferBuilder)
        ensures
            r@ == (BuilderView { flags: f, ..self@ }),
    {
        let mut b = self;
        b.flags = f;
        b
    }

    /// Set the stream index.
    pub fn stream_index(self, i: u32) -> (r: MediaBufferBuilder)
        ensures
            r@ == (BuilderView { stream_index: i, ..self@ }),
    {
        let mut b = self;
        b.stream_index = i;
        b
    }

    /// Attach video metadata.
    pub fn video_meta(self, m: VideoMeta) -> (r: MediaBufferBuilder)
        ensures
            r@ == (BuilderView { meta: FrameMeta::Video(m), ..self@ }),
    {
        let mut b = self;
        b.meta = FrameMeta::Video(m);
        b
    }

    /// Attach audio metadata.
    pub fn audio_meta(self, m: AudioMeta) -> (r: MediaBufferBuilder)
        ensures
            r@ == (BuilderView { meta: FrameMeta::Audio(m), ..self@ }),
    {
        let mut b = self;
        b.meta = FrameMeta::Audio(m);
        b
    }

    /// Build the frame; refused with `CapacityExceeded` when its bytes are more
    /// than `MAX_BUFFER_SIZE`.
    pub fn build(self) -> (r: Result<MediaBuffer, BufferError>)
        ensures
            result_view(r) == build_outcome(self@),
            r matches Ok(b) ==> b@.media_type == self@.media_type,
    {
        let data = match self.data {
            Some(d) => d,
            None => Vec::new(),
        };
        if data.len() > MAX_BUFFER_SIZE {
            return Err(BufferError::CapacityExceeded { requested: data.len(), maximum: MAX_BUFFER_SIZE });
        }
        Ok(MediaBuffer {
            data: bytes_from_vec(data),
            pts: self.pts,
            dts: self.dts,
            duration: self.duration,
            timebase: self.timebase,
            media_type: self.media_type,
            codec_id: self.codec_id,
            flags: self.flags,
            stream_index: self.stream_index,
            meta: Arc::new(self.meta),
        })
    }
}

/// What freezing a growable buffer of `media_type` holding `data` gives: a
/// frame of those bytes with default metadata, or `CapacityExceeded` when
/// they are more than `MAX_BUFFER_SIZE`.
pub open spec fn freeze_outcome(data: Seq<u8>, media_type: MediaType) -> Result<FrameView, BufferError> {
    if data.len() > MAX_BUFFER_SIZE {
        Err(BufferError::CapacityExceeded { requested: data.len() as usize, maximum: MAX_BUFFER_SIZE })
    } else {
        Ok(default_frame(media_type, data))
    }
}

/// Growable buffer for writing a frame's bytes incrementally (e.g. inside a
/// decoder).
///
/// It can draw its scratch allocation from a pool and return it there when
/// frozen (see [`MediaBufferMut::with_pool`]). [`freeze`](Self::freeze) copies
/// the bytes out and recycles the scratch; [`freeze_zero_copy`](Self::freeze_zero_copy)
/// hands the scratch itself to the frame, so nothing returns to the pool.
pub struct MediaBufferMut {
    inner: BytesMut,
    media_type: MediaType,
    /// The pool the scratch came from; `freeze` returns the buffer here.
    pool: Option<SharedPool>,
}

impl MediaBufferMut {
    /// The bytes written so far.
    pub closed spec fn contents(self) -> Seq<u8> {
        bm_contents(self.inner)
    }

    /// How many bytes the scratch can hold without reallocating.
    pub closed spec fn capacity_spec(self) -> nat {
        bm_capacity(self.inner)
    }

    /// The kind of media being written.
    pub closed spec fn media_type_spec(self) -> MediaType {
        self.media_type
    }

    /// The pool the scratch returns to on `freeze`, if any.
    pub closed spec fn pool_spec(self) -> Option<SharedPool> {
        self.pool
    }

    /// A standalone growable buffer, with no pool.
    pub fn with_capacity(media_type: MediaType, capacity: usize) -> (r: MediaBufferMut)
        requires
            capacity <= isize::MAX,
        ensures
            r.contents() == Seq::<u8>::empty(),
            r.capacity_spec() >= capacity,
            r.media_type_spec() == media_type,
            r.pool_spec() is None,
    {
        MediaBufferMut { inner: bm_with_capacity(capacity), media_type, pool: None }
    }

    /// A growable buffer whose scratch is acquired from `pool`, and returned
    /// there by `freeze`.
    pub fn with_pool(pool: &SharedPool, media_type: MediaType, capacity: usize) -> (r: MediaBufferMut)
        requires
            capacity <= isize::MAX,
        ensures
            r.contents() == Seq::<u8>::empty(),
            r.capacity_spec() >= capacity,
            r.media_type_spec() == media_type,
            r.pool_spec() == Some(*pool),
    {
        let (inner, _states) = acquire_from_shared(pool, capacity);
        MediaBufferMut { inner, media_type, pool: Some(pool.clone()) }
    }

    /// Append `data` to the bytes written.
    pub fn extend(&mut self, data: &[u8])
        requires
            old(self).contents().len() + data@.len() <= isize::MAX,
        ensures
            final(self).contents() == old(self).contents() + data@,
            final(self).media_type_spec() == old(self).media_type_spec(),
            final(self).pool_spec() == old(self).pool_spec(),
    {
        bm_extend_from_slice(&mut self.inner, data);
    }

    /// Number of bytes written.
    pub fn len(&self) -> (r: usize)
        ensures
            r == self.contents().len(),
    {
        bm_len(&self.inner)
    }

    /// Whether nothing has been written.
    pub fn is_empty(&self) -> (r: bool)
        ensures
            r == (self.contents().len() == 0),
    {
        bm_len(&self.inner) == 0
    }

    /// Freeze into a frame by copying the bytes into a fresh allocation, then
    /// clear the scratch and recycle it into the pool it came from, if any.
    pub fn freeze(self) -> (r: Result<MediaBuffer, BufferError>)
        ensures
            result_view(r) == freeze_outcome(self.contents(), self.media_type_spec()),
            r matches Ok(b) ==> b@.media_type == self.media_type_spec() && b@.data == self.contents(),
    {
        let mut inner = self.inner;
        let media_type = self.media_type;
        let pool = self.pool;
        let out = MediaBuffer::builder(media_type).data(bm_to_vec(&inner)).build();
        if let Some(pool) = pool {
            bm_clear(&mut inner);
            let _states = recycle_into_shared(&pool, inner);
        }
        out
    }

    /// Freeze into a frame with no copy: the scratch allocation becomes the
    /// frame's bytes, and nothing returns to the pool.
    pub fn freeze_zero_copy(self) -> (r: Result<MediaBuffer, BufferError>)
        ensures
            result_view(r) == freeze_outcome(self.contents(), self.media_type_spec()),
            r matches Ok(b) ==> b@.media_type == self.media_type_spec() && b@.data == self.contents(),
    {
        let len = bm_len(&self.inner);
        if len > MAX_BUFFER_SIZE {
            return Err(BufferError::CapacityExceeded { requested: len, maximum: MAX_BUFFER_SIZE });
        }
        Ok(MediaBuffer {
            data: bm_freeze(self.inner),
            pts: Timestamp::none(),
            dts: Timestamp::none(),
            duration: Timestamp::none(),
            timebase: Timebase::video_90k(),
            media_type: self.media_type,
            codec_id: CodecId::Unknown,
            flags: FrameFlags::empty(),
            stream_index: 0,
            meta: Arc::new(FrameMeta::Empty),
        })
    }
}

/// Both freeze routes give the frame that building one of the same media type
/// from the same bytes gives: `freeze_outcome` is `build_outcome` of a fresh
/// builder with those bytes set.
pub proof fn lemma_freeze_is_build(data: Seq<u8>, media_type: MediaType)
    ensures
        freeze_outcome(data, media_type) == build_outcome(
            BuilderView { data: Some(data), ..fresh_builder(media_type) },
        ),
{
}

/// A frame is of the media type it was asked for and holds the bytes it was
/// given: a fresh builder for `t`, a default frame for `t`, what building from
/// a fresh builder for `t` with bytes `d` gives, and what freezing a growable
/// buffer of type `t` holding `d` gives are all of type `t` and hold `d`.
pub proof fn lemma_frames_keep_their_media_type(t: MediaType, d: Seq<u8>)
    ensures
        fresh_builder(t).media_type == t,
        default_frame(t, d).media_type == t,
        default_frame(t, d).data == d,
        build_outcome(BuilderView { data: Some(d), ..fresh_builder(t) }) matches Ok(f) ==> f.media_type
            == t && f.data == d,
        freeze_outcome(d, t) matches Ok(f) ==> f.media_type == t && f.data == d,
{
}

} // verus!
