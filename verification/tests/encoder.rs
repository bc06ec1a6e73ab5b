use domino_recorder::audio::encoder::{
    build_opus_head, build_opus_tags, interleave_stereo, metrics_due, pre_skip_from_lookahead,
    stream_drift, FrameAssembler, FrameStep, PacketEnd, FRAME_SIZE,
};

#[test]
fn test_opus_head_format() {
    let head = build_opus_head(2, 312, 48000);
    assert_eq!(&head[..8], b"OpusHead");
    assert_eq!(head[8], 1); // version
    assert_eq!(head[9], 2); // channels
    assert_eq!(u16::from_le_bytes([head[10], head[11]]), 312);
    assert_eq!(
        u32::from_le_bytes([head[12], head[13], head[14], head[15]]),
        48000
    );
    assert_eq!(head.len(), 19);
}

#[test]
fn test_opus_tags_format() {
    let tags = build_opus_tags();
    assert_eq!(&tags[..8], b"OpusTags");
    let vendor_len = u32::from_le_bytes([tags[8], tags[9], tags[10], tags[11]]) as usize;
    let vendor = &tags[12..12 + vendor_len];
    assert_eq!(vendor, b"domino-codex-recorder");
}

#[test]
fn test_interleave_stereo() {
    let left = [1.0, 2.0, 3.0];
    let right = [-1.0, -2.0, -3.0];
    let mut out = [0.0; 6];
    interleave_stereo(&left, &right, &mut out);
    assert_eq!(out, [1.0, -1.0, 2.0, -2.0, 3.0, -3.0]);
}

#[test]
fn opus_head_tail_fields() {
    let head = build_opus_head(1, 0xBEEF, 0x0102_0304);
    assert_eq!(&head[10..12], &[0xEF, 0xBE]);
    assert_eq!(&head[12..16], &[0x04, 0x03, 0x02, 0x01]);
    // output gain 0 and mapping family 0
    assert_eq!(&head[16..19], &[0, 0, 0]);
}

#[test]
fn opus_tags_has_empty_comment_list() {
    let tags = build_opus_tags();
    assert_eq!(tags.len(), 37);
    assert_eq!(&tags[33..37], &[0, 0, 0, 0]);
}

#[test]
fn pre_skip_falls_back_to_default() {
    assert_eq!(pre_skip_from_lookahead(Some(120)), 120);
    assert_eq!(pre_skip_from_lookahead(None), 312);
    assert_eq!(pre_skip_from_lookahead(Some(0x1_0005)), 5);
}

#[test]
fn full_frames_are_emitted_without_padding() {
    let mut fa = FrameAssembler::new(312);
    assert!(fa.record_mic(FRAME_SIZE));
    assert!(fa.record_sys(FRAME_SIZE));
    assert_eq!(
        fa.next_step(false, 0),
        FrameStep::Emit { pad_mic_from: FRAME_SIZE, pad_sys_from: FRAME_SIZE, warn_stall: false }
    );
    assert_eq!(fa.finish_frame(false, true), PacketEnd::EndPage);
    assert_eq!(fa.granule_pos, 312 + FRAME_SIZE as u64);
    assert_eq!((fa.mic_pos, fa.sys_pos), (0, 0));
}

#[test]
fn partial_frame_waits_until_stall() {
    let mut fa = FrameAssembler::new(0);
    assert!(fa.record_mic(FRAME_SIZE));
    assert!(fa.record_sys(200));
    assert!(!fa.record_sys(0));
    assert_eq!(fa.next_step(false, 500_000_000), FrameStep::Idle);
    assert_eq!(
        fa.next_step(false, 500_000_001),
        FrameStep::Emit { pad_mic_from: FRAME_SIZE, pad_sys_from: 200, warn_stall: true }
    );
}

#[test]
fn shutdown_flushes_partial_frame_then_finishes() {
    let mut fa = FrameAssembler::new(312);
    fa.record_mic(500);
    fa.record_sys(500);
    assert_eq!(
        fa.next_step(true, 0),
        FrameStep::Emit { pad_mic_from: 500, pad_sys_from: 500, warn_stall: false }
    );
    assert_eq!(fa.finish_frame(true, true), PacketEnd::EndStream);
    assert_eq!(fa.next_step(true, 0), FrameStep::Finish);
    assert_eq!(fa.next_step(false, 10_000_000_000), FrameStep::Idle);
}

#[test]
fn shutdown_with_undrained_buffers_keeps_stream_open() {
    let mut fa = FrameAssembler::new(312);
    fa.record_mic(FRAME_SIZE);
    fa.record_sys(FRAME_SIZE);
    assert_eq!(fa.finish_frame(true, false), PacketEnd::EndPage);
}

#[test]
fn missing_system_stream_is_silence() {
    let mut fa = FrameAssembler::new(312);
    fa.record_sys(10);
    assert_eq!(fa.silence_system(), Some(10));
    assert_eq!(fa.sys_pos, FRAME_SIZE);
    assert_eq!(fa.silence_system(), None);
    fa.record_mic(FRAME_SIZE);
    assert_eq!(
        fa.next_step(false, 0),
        FrameStep::Emit { pad_mic_from: FRAME_SIZE, pad_sys_from: FRAME_SIZE, warn_stall: false }
    );
}

#[test]
fn drift_is_reported_in_milliseconds() {
    let r = stream_drift(9_600, 0);
    assert_eq!(r.drift_ms, 200);
    assert!(r.exceeds_warn);
    let r = stream_drift(0, 4_800);
    assert_eq!(r.drift_ms, -100);
    assert!(!r.exceeds_warn);
    let r = stream_drift(100, 147);
    assert_eq!(r.drift_ms, 0);
    let r = stream_drift(0, 4_801);
    assert_eq!(r.drift_ms, -100);
    assert!(r.exceeds_warn);
}

#[test]
fn metrics_interval() {
    assert!(!metrics_due(30_000_000_000));
    assert!(metrics_due(30_000_000_001));
}
