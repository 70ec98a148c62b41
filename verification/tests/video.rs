use yolo_rs::decode_video::{is_video_packet, push_decoded};
use yolo_rs::encode_video::{
    after_send, drain_writes, effective_frame_rate, encoded_kind, encoder_bit_rate, frame_duration,
    PacketStep, ReceiveStatus, VideoEncoderError, MAX_DRAIN_ITERATIONS,
};
use yolo_rs::time::{Aligned, Time};
use yolo_rs::video::{
    copy_bytes, status_code, AspectRatio, BitRate, FrameKind, FrameMap, FrameRate, FramesMap,
    Height, MaxBitRate, PixelFormat, Rational, VideoInfo, VideoProcessingPluginError, Width,
};

fn info(width: u32, height: u32, frame_rate: Option<Rational>) -> VideoInfo {
    VideoInfo::new(
        "h264".to_string(),
        PixelFormat(0),
        Width(width),
        Height(height),
        AspectRatio(Rational(1, 1)),
        FrameRate(frame_rate),
        vec![("title".to_string(), "clip".to_string())],
        1,
        BitRate(400_000),
        MaxBitRate(400_000),
    )
}

fn frame(fill: u8, len: usize, timestamp: i64) -> FrameMap {
    FrameMap::new(vec![fill; len], FrameKind::P, Some(timestamp))
}

fn loaded(frames: usize) -> FramesMap {
    let mut store = FramesMap::new();
    let list = (0..frames).map(|k| frame(k as u8, 12, 100 * k as i64)).collect();
    assert_eq!(store.load_video(list, info(2, 2, None)), Ok((2, 2, frames)));
    store
}

#[test]
fn a_new_store_holds_nothing() {
    let store = FramesMap::new();
    assert!(store.frames.is_empty());
    assert!(store.video_info.is_none());
    assert_eq!(store.assemble_output_frames().err(), Some(VideoProcessingPluginError::NoVideoLoaded));
}

#[test]
fn loading_reports_the_dimensions() {
    let store = loaded(3);
    assert_eq!(store.frames.len(), 3);
    assert_eq!(store.video_info.as_ref().map(|i| (i.width(), i.height())), Some((2, 2)));
    assert!(store.frames.iter().all(|f| f.output_frame.is_none()));
}

#[test]
fn a_video_without_frames_is_refused() {
    let mut store = FramesMap::new();
    assert_eq!(
        store.load_video(Vec::new(), info(2, 2, None)),
        Err(VideoProcessingPluginError::NoFrames)
    );
    assert!(store.video_info.is_none());
    assert!(store.frames.is_empty());
}

#[test]
fn a_frame_of_the_wrong_size_is_refused() {
    let mut store = loaded(1);
    let r = store.load_video(vec![frame(1, 12, 0), frame(2, 11, 1)], info(2, 2, None));
    assert_eq!(r, Err(VideoProcessingPluginError::BufferSize));
    // The earlier video is still there.
    assert_eq!(store.frames.len(), 1);
}

#[test]
fn get_frame_copies_the_decoded_pixels() {
    let store = loaded(3);
    let mut dest = vec![0u8; 12];
    assert_eq!(store.get_frame(2, &mut dest), Ok(()));
    assert_eq!(dest, vec![2u8; 12]);
    assert_eq!(store.get_frame(3, &mut dest), Err(VideoProcessingPluginError::FrameIndexOutOfRange));
    assert_eq!(dest, vec![2u8; 12]);
    let mut short = vec![9u8; 5];
    assert_eq!(store.get_frame(0, &mut short), Err(VideoProcessingPluginError::BufferSize));
    assert_eq!(short, vec![9u8; 5]);
}

#[test]
fn write_frame_stores_the_processed_pixels() {
    let mut store = loaded(2);
    assert_eq!(store.write_frame(1, &[7u8; 12]), Ok(()));
    assert_eq!(store.frames[1].output_frame, Some(vec![7u8; 12]));
    assert_eq!(store.frames[1].input_frame, vec![1u8; 12]);
    assert_eq!(store.frames[1].timestamp, Some(100));
    assert!(store.frames[0].output_frame.is_none());
    assert_eq!(store.write_frame(1, &[8u8; 12]), Ok(()));
    assert_eq!(store.frames[1].output_frame, Some(vec![8u8; 12]));
}

#[test]
fn write_frame_refusals() {
    let mut store = loaded(2);
    let out_of_range = store.write_frame(2, &[7u8; 12]);
    assert_eq!(out_of_range, Err(VideoProcessingPluginError::FrameIndexOutOfRange));
    assert_eq!(status_code(&out_of_range), 1);
    assert_eq!(store.write_frame(0, &[7u8; 13]), Err(VideoProcessingPluginError::BufferSize));
    assert!(store.frames.iter().all(|f| f.output_frame.is_none()));
    let mut empty = FramesMap::new();
    assert_eq!(empty.write_frame(0, &[7u8; 12]), Err(VideoProcessingPluginError::NoVideoLoaded));
}

#[test]
fn assembling_fails_while_any_frame_is_unwritten() {
    let mut store = loaded(3);
    assert_eq!(store.missing_frames(), vec![0, 1, 2]);
    assert_eq!(store.assemble_output_frames().err(), Some(VideoProcessingPluginError::MissingFrames));
    store.write_frame(0, &[1u8; 12]).unwrap();
    store.write_frame(2, &[3u8; 12]).unwrap();
    assert_eq!(store.missing_frames(), vec![1]);
    assert_eq!(store.assemble_output_frames().err(), Some(VideoProcessingPluginError::MissingFrames));
}

#[test]
fn assembling_hands_on_every_written_frame_in_order() {
    let mut store = loaded(3);
    for k in 0..3 {
        store.write_frame(k, &[10 + k as u8; 12]).unwrap();
    }
    assert!(store.missing_frames().is_empty());
    let out = store.assemble_output_frames().unwrap();
    assert_eq!(
        out,
        vec![
            (vec![10u8; 12], FrameKind::P, Some(0)),
            (vec![11u8; 12], FrameKind::P, Some(100)),
            (vec![12u8; 12], FrameKind::P, Some(200)),
        ]
    );
}

#[test]
fn status_codes() {
    let ok: Result<(), VideoProcessingPluginError> = Ok(());
    assert_eq!(status_code(&ok), 0);
    assert_eq!(VideoProcessingPluginError::FrameIndexOutOfRange.code(), 1);
    assert_eq!(VideoProcessingPluginError::NoFrames.code(), 2);
    assert_eq!(VideoProcessingPluginError::NoVideoLoaded.code(), 3);
    assert_eq!(VideoProcessingPluginError::BufferSize.code(), 4);
    assert_eq!(VideoProcessingPluginError::MissingFrames.code(), 5);
}

#[test]
fn frame_length_check() {
    let i = info(640, 480, None);
    assert!(i.is_frame_len(640 * 480 * 3));
    assert!(!i.is_frame_len(640 * 480 * 3 + 1));
    assert!(info(0, 480, None).is_frame_len(0));
    assert!(!info(u32::MAX, u32::MAX, None).is_frame_len(usize::MAX));
}

#[test]
fn copy_bytes_copies() {
    assert_eq!(copy_bytes(&[1, 2, 3]), vec![1, 2, 3]);
    assert_eq!(copy_bytes(&[]), Vec::<u8>::new());
}

#[test]
fn decoded_pictures_join_the_list_in_order() {
    let mut frames = vec![frame(0, 3, 0)];
    push_decoded(
        &mut frames,
        vec![(vec![1, 1, 1], FrameKind::I, Some(10)), (vec![2, 2, 2], FrameKind::B, None)],
    );
    assert_eq!(frames.len(), 3);
    assert_eq!(frames[1].input_frame, vec![1, 1, 1]);
    assert_eq!(frames[1].frame_type, FrameKind::I);
    assert_eq!(frames[1].timestamp, Some(10));
    assert_eq!(frames[2].input_frame, vec![2, 2, 2]);
    assert_eq!(frames[2].frame_type, FrameKind::B);
    assert_eq!(frames[2].timestamp, None);
    assert!(frames.iter().all(|f| f.output_frame.is_none()));
    assert!(is_video_packet(2, 2));
    assert!(!is_video_packet(1, 2));
}

#[test]
fn frame_rate_falls_back_to_thirty() {
    assert_eq!(effective_frame_rate(&FrameRate(None)), (Rational(30, 1), true));
    assert_eq!(effective_frame_rate(&FrameRate(Some(Rational(25, 1)))), (Rational(25, 1), false));
}

#[test]
fn bit_rate_is_half_the_uncompressed_rate() {
    // 640 * 480 pixels, 24 bits each, 25 frames a second, halved.
    assert_eq!(
        encoder_bit_rate(&info(640, 480, Some(Rational(25, 1)))),
        Some(640 * 480 * 24 * 25 / 2)
    );
    assert_eq!(encoder_bit_rate(&info(640, 480, None)), Some(640 * 480 * 24 * 30 / 2));
    assert_eq!(
        encoder_bit_rate(&info(1920, 1080, Some(Rational(30000, 1001)))),
        Some(12 * 1920 * 1080 * 30000 / 1001)
    );
    assert_eq!(encoder_bit_rate(&info(640, 480, Some(Rational(0, 1)))), None);
    assert_eq!(encoder_bit_rate(&info(640, 480, Some(Rational(25, 0)))), None);
    assert_eq!(encoder_bit_rate(&info(u32::MAX, u32::MAX, Some(Rational(i32::MAX, 1)))), None);
}

#[test]
fn frame_duration_is_one_over_the_rate() {
    // A thirtieth of a second is 33_333_333 ns, which rounds to 33_333 us.
    assert_eq!(
        frame_duration(Rational(30, 1)),
        Ok(Time { time: Some(33_333), time_base: Rational(1, 1_000_000) })
    );
    assert_eq!(
        frame_duration(Rational(30000, 1001)),
        Ok(Time { time: Some(33_367), time_base: Rational(1, 1_000_000) })
    );
    assert_eq!(frame_duration(Rational(0, 1)), Err(VideoEncoderError::BadFrameRate));
    assert_eq!(frame_duration(Rational(-5, 1)), Err(VideoEncoderError::BadFrameRate));
    assert_eq!(frame_duration(Rational(5, 0)), Err(VideoEncoderError::BadFrameRate));
}

#[test]
fn every_frame_is_encoded_as_a_key_frame() {
    assert_eq!(encoded_kind(FrameKind::P), FrameKind::I);
    assert_eq!(encoded_kind(FrameKind::B), FrameKind::I);
    assert_eq!(encoded_kind(FrameKind::Unspecified), FrameKind::I);
}

#[test]
fn packets_after_a_sent_frame() {
    assert_eq!(after_send(ReceiveStatus::Packet), PacketStep::Write);
    assert_eq!(after_send(ReceiveStatus::Again), PacketStep::Skip);
    assert_eq!(after_send(ReceiveStatus::Failed), PacketStep::Abort);
}

#[test]
fn draining_is_bounded() {
    assert_eq!(MAX_DRAIN_ITERATIONS, 100);
    assert!(drain_writes(0, ReceiveStatus::Packet));
    assert!(drain_writes(99, ReceiveStatus::Packet));
    assert!(!drain_writes(100, ReceiveStatus::Packet));
    assert!(!drain_writes(3, ReceiveStatus::Again));
    assert!(!drain_writes(3, ReceiveStatus::Failed));
}

#[test]
fn time_zero_and_nanos() {
    assert_eq!(Time::zero(), Time { time: Some(0), time_base: Rational(1, 90000) });
    assert_eq!(Time::zero().into_value(), Some(0));
    assert_eq!(Time::from_nanos(1_499).time, Some(1));
    assert_eq!(Time::from_nanos(1_500).time, Some(2));
    assert_eq!(Time::from_nanos(0).time, Some(0));
    assert_eq!(Time::from_nanos(u64::MAX).time, Some(18_446_744_073_709_552));
    assert_eq!(Time::from_nanos(5).time_base, Rational(1, 1_000_000));
}

#[test]
fn aligned_times_add_up() {
    let position = Time::zero();
    let aligned = position.aligned_with(Some(3000));
    assert_eq!(aligned, Aligned { lhs: Some(0), rhs: Some(3000), time_base: Rational(1, 90000) });
    let next = aligned.add();
    assert_eq!(next, Time { time: Some(3000), time_base: Rational(1, 90000) });
    assert_eq!(next.aligned_with(Some(3000)).add().into_value(), Some(6000));
    assert_eq!(next.aligned_with(None).add().into_value(), None);
    let unknown = Time { time: None, time_base: Rational(1, 25) };
    assert_eq!(unknown.aligned_with(Some(1)).add(), Time { time: None, time_base: Rational(1, 25) });
}

#[test]
fn checked_add_refuses_an_overflow() {
    let big = Time { time: Some(i64::MAX), time_base: Rational(1, 90000) };
    assert_eq!(big.aligned_with(Some(1)).checked_add(), None);
    assert_eq!(
        big.aligned_with(Some(-1)).checked_add(),
        Some(Time { time: Some(i64::MAX - 1), time_base: Rational(1, 90000) })
    );
    assert_eq!(
        big.aligned_with(None).checked_add(),
        Some(Time { time: None, time_base: Rational(1, 90000) })
    );
}

#[test]
fn moving_to_another_time_base() {
    let t = Time { time: Some(3000), time_base: Rational(1, 90000) };
    assert_eq!(
        t.aligned_with_rational(Rational(1, 1_000_000), 33_333),
        Time { time: Some(33_333), time_base: Rational(1, 1_000_000) }
    );
    let unknown = Time { time: None, time_base: Rational(1, 90000) };
    assert_eq!(
        unknown.aligned_with_rational(Rational(1, 1_000_000), 33_333),
        Time { time: None, time_base: Rational(1, 1_000_000) }
    );
}
