use kc_core::buffer::{
    acquire_guard, shared_pool, FrameFlags, FrameMeta, MediaBuffer, MediaBufferMut, VideoMeta,
    MAX_BUFFER_SIZE,
};
use kc_core::error::BufferError;
use kc_core::types::{CodecId, MediaType, PixelFormat, Timebase, Timestamp};

#[test]
fn builder_roundtrip() {
    let buf = MediaBuffer::builder(MediaType::Video)
        .codec(CodecId::H264)
        .pts(Timestamp::new(90_000))
        .flags(FrameFlags::keyframe())
        .data(vec![0xAB; 512])
        .build()
        .unwrap();

    assert!(buf.is_keyframe());
    assert_eq!(buf.pts(), Timestamp::new(90_000));
    assert_eq!(buf.len(), 512);
}

#[test]
fn clone_is_zero_copy() {
    let buf = MediaBuffer::builder(MediaType::Video)
        .data(vec![0u8; 4096])
        .build()
        .unwrap();
    let clone = buf.clone();
    assert_eq!(buf.data().as_ptr(), clone.data().as_ptr());
}

#[test]
fn eos_sentinel() {
    let eos = MediaBuffer::end_of_stream(MediaType::Video);
    assert!(eos.is_eos() && eos.is_empty());
}

#[test]
fn pooled_freeze_recycles_scratch() {
    let pool = shared_pool();
    let mut buf = MediaBufferMut::with_pool(&pool, MediaType::Audio, 64 * 1024);
    buf.extend(&[1, 2, 3, 4]);
    let frame = buf.freeze().unwrap();
    assert_eq!(frame.data(), &[1, 2, 3, 4]);
    assert_eq!(pool.borrow().pooled_count(), 1);

    let buf2 = MediaBufferMut::with_pool(&pool, MediaType::Audio, 64 * 1024);
    assert_eq!(pool.borrow().stats().hits, 1);
    drop(buf2);
}

#[test]
fn zero_copy_freeze_does_not_recycle() {
    let pool = shared_pool();
    let mut buf = MediaBufferMut::with_pool(&pool, MediaType::Audio, 64 * 1024);
    buf.extend(&[9, 8, 7]);
    let frame = buf.freeze_zero_copy().unwrap();
    assert_eq!(frame.data(), &[9, 8, 7]);
    assert_eq!(pool.borrow().pooled_count(), 0);
}

#[test]
fn with_capacity_still_works_without_a_pool() {
    let mut buf = MediaBufferMut::with_capacity(MediaType::Video, 128);
    buf.extend(&[0xAB; 10]);
    let frame = buf.freeze().unwrap();
    assert_eq!(frame.len(), 10);
}

#[test]
fn pool_guard_recycles_on_drop() {
    let pool = shared_pool();
    {
        let mut buf = acquire_guard(&pool, 64 * 1024);
        buf.extend_from_slice(b"scratch");
        assert_eq!(buf.len(), 7);
    }
    assert_eq!(pool.borrow().pooled_count(), 1);
    assert_eq!(pool.borrow().stats().recycled, 1);
}

#[test]
fn pool_guard_into_inner_does_not_recycle() {
    let pool = shared_pool();
    let buf = acquire_guard(&pool, 64 * 1024);
    let owned = buf.into_inner();
    assert_eq!(pool.borrow().pooled_count(), 0);
    drop(owned);
    assert_eq!(pool.borrow().pooled_count(), 0);
}

#[test]
fn pool_guard_reuse_across_scopes() {
    let pool = shared_pool();
    {
        let _b = acquire_guard(&pool, 4 * 1024);
    }
    {
        let _b = acquire_guard(&pool, 4 * 1024);
    }
    assert_eq!(pool.borrow().stats().hits, 1);
}

// ── Further cases ───────────────────────────────────────────────────────────

#[test]
fn builder_sets_every_field() {
    let meta = VideoMeta { width: 1920, height: 1080, pixel_format: PixelFormat::Nv12, dar_num: 16, dar_den: 9 };
    let buf = MediaBuffer::builder(MediaType::Video)
        .data(vec![1, 2, 3])
        .pts(Timestamp::new(10))
        .dts(Timestamp::new(7))
        .duration(Timestamp::new(3))
        .timebase(Timebase::new(1, 1000))
        .codec(CodecId::Av1)
        .flags(FrameFlags::decoded())
        .stream_index(2)
        .video_meta(meta.clone())
        .build()
        .unwrap();
    assert_eq!(buf.data(), &[1, 2, 3]);
    assert_eq!(buf.pts(), Timestamp::new(10));
    assert_eq!(buf.dts(), Timestamp::new(7));
    assert_eq!(buf.duration(), Timestamp::new(3));
    assert_eq!(buf.timebase(), Timebase::new(1, 1000));
    assert_eq!(buf.media_type(), MediaType::Video);
    assert_eq!(buf.codec_id(), CodecId::Av1);
    assert!(buf.is_decoded());
    assert!(!buf.is_keyframe());
    assert_eq!(buf.stream_index(), 2);
    match buf.meta() {
        FrameMeta::Video(m) => assert_eq!(*m, meta),
        _ => panic!("video metadata expected"),
    }
}

#[test]
fn builder_defaults() {
    let buf = MediaBuffer::builder(MediaType::Audio).build().unwrap();
    assert!(buf.is_empty());
    assert!(buf.pts().is_none());
    assert!(buf.dts().is_none());
    assert!(buf.duration().is_none());
    assert_eq!(buf.timebase(), Timebase::video_90k());
    assert_eq!(buf.codec_id(), CodecId::Unknown);
    assert!(buf.flags().is_empty());
    assert_eq!(buf.stream_index(), 0);
    assert!(matches!(buf.meta(), FrameMeta::Empty));
}

#[test]
fn build_refuses_oversized_data() {
    let r = MediaBuffer::builder(MediaType::Video).data(vec![0u8; MAX_BUFFER_SIZE + 1]).build();
    assert_eq!(
        r.unwrap_err(),
        BufferError::CapacityExceeded { requested: MAX_BUFFER_SIZE + 1, maximum: MAX_BUFFER_SIZE }
    );
}

#[test]
fn slice_takes_the_requested_bytes_and_shares_them() {
    let buf = MediaBuffer::builder(MediaType::Video)
        .data(vec![10, 11, 12, 13, 14])
        .pts(Timestamp::new(5))
        .build()
        .unwrap();
    let part = buf.slice(1, 4).unwrap();
    assert_eq!(part.data(), &[11, 12, 13]);
    assert_eq!(part.pts(), Timestamp::new(5));
    assert_eq!(part.data().as_ptr(), buf.data()[1..].as_ptr());
    assert!(buf.slice(2, 2).unwrap().is_empty());
}

#[test]
fn slice_out_of_bounds_is_refused() {
    let buf = MediaBuffer::builder(MediaType::Video).data(vec![1, 2, 3]).build().unwrap();
    assert_eq!(buf.slice(1, 4).unwrap_err(), BufferError::OutOfBounds { start: 1, end: 4, len: 3 });
    assert_eq!(buf.slice(3, 2).unwrap_err(), BufferError::OutOfBounds { start: 3, end: 2, len: 3 });
}

#[test]
fn with_pts_and_with_flags_change_only_that_field() {
    let buf = MediaBuffer::builder(MediaType::Video).data(vec![4, 5]).build().unwrap();
    let buf = buf.with_pts(Timestamp::new(42)).with_flags(FrameFlags::keyframe());
    assert_eq!(buf.pts(), Timestamp::new(42));
    assert!(buf.is_keyframe());
    assert_eq!(buf.data(), &[4, 5]);
}

#[test]
fn both_freeze_routes_give_the_same_frame() {
    let mut a = MediaBufferMut::with_capacity(MediaType::Audio, 16);
    let mut b = MediaBufferMut::with_capacity(MediaType::Audio, 16);
    a.extend(&[1, 2]);
    a.extend(&[3]);
    b.extend(&[1, 2, 3]);
    assert_eq!(a.len(), 3);
    assert!(!b.is_empty());
    let fa = a.freeze().unwrap();
    let fb = b.freeze_zero_copy().unwrap();
    assert_eq!(fa.data(), fb.data());
    assert_eq!(fa.media_type(), fb.media_type());
    assert_eq!(fa.pts(), fb.pts());
    assert_eq!(fa.flags(), fb.flags());
}

#[test]
fn frame_flags_operations() {
    let mut f = FrameFlags::empty();
    assert!(f.is_empty());
    f.insert(FrameFlags::keyframe());
    f.insert(FrameFlags::corrupt());
    assert!(f.contains(FrameFlags::keyframe()));
    assert!(f.contains(FrameFlags::corrupt()));
    assert!(!f.contains(FrameFlags::discard()));
    assert_eq!(f.bits(), 3);
    f.remove(FrameFlags::keyframe());
    assert_eq!(f.bits(), 2);
    assert_eq!(FrameFlags::encoded().union(FrameFlags::end_of_stream()).bits(), 40);
    assert_eq!(FrameFlags::from_bits_truncate(0xFF).bits(), FrameFlags::all().bits());
}

#[test]
fn pool_guard_reports_its_buffer() {
    let pool = shared_pool();
    let mut g = acquire_guard(&pool, 5000);
    assert!(g.is_empty());
    assert!(g.capacity() >= 5000);
    g.extend_from_slice(&[1, 2, 3]);
    let owned = g.into_inner();
    assert_eq!(&owned[..], &[1, 2, 3]);
}

#[test]
fn shared_pool_starts_empty_with_default_cap() {
    let pool = shared_pool();
    assert_eq!(pool.borrow().max_per_bucket(), 32);
    assert_eq!(pool.borrow().pooled_count(), 0);
    assert_eq!(pool.borrow().stats(), kc_core::PoolStats::default());
}

#[test]
fn busy_pool_cell_is_bypassed_without_panic() {
    let pool = shared_pool();
    let held = pool.borrow();
    let mut g = acquire_guard(&pool, 4096);
    assert!(g.capacity() >= 4096);
    g.extend_from_slice(&[1]);
    let mut m = MediaBufferMut::with_pool(&pool, MediaType::Audio, 100);
    m.extend(&[2, 3]);
    let frame = m.freeze().unwrap();
    assert_eq!(frame.data(), &[2, 3]);
    drop(g);
    assert_eq!(held.pooled_count(), 0);
    assert_eq!(held.stats(), kc_core::PoolStats::default());
    drop(held);
    let _g2 = acquire_guard(&pool, 4096);
    assert_eq!(pool.borrow().stats().misses, 1);
}

#[test]
fn pool_guard_gives_access_to_its_buffer() {
    let pool = shared_pool();
    let mut g = acquire_guard(&pool, 4096);
    g.buffer_mut().extend_from_slice(b"abc");
    assert_eq!(&g.buffer()[..], b"abc");
    assert_eq!(g.len(), 3);
    drop(g);
    assert_eq!(pool.borrow().pooled_count(), 1);
}
