//! The stereo Opus recorder's own logic: the Ogg/Opus header packets, the
//! interleaving of the two channels, and the frame-assembly state machine
//! that decides, tick by tick, when a stereo frame is encoded, padded with
//! silence, or when the stream ends.

use vstd::prelude::*;

verus! {

/// Samples per channel in one Opus frame: 20 ms at 48 kHz.
pub const FRAME_SIZE: usize = 960;
/// The capture and encoding sample rate.
pub const SAMPLE_RATE: u32 = 48_000;
/// Target bitrate of the stereo encoder.
pub const STEREO_BITRATE_BPS: i32 = 64_000;
/// Size of the buffer one encoded packet is written into.
pub const ENCODE_BUF_SIZE: usize = 4000;
/// Pre-skip to announce when the encoder cannot report its lookahead.
pub const DEFAULT_PRE_SKIP: u16 = 312;
/// If one stream has made no progress for this long, the frame is padded
/// with silence so the encoder keeps producing frames at wall-clock rate.
pub const STALL_TIMEOUT_MS: u64 = 500;
/// How often drift and drop metrics are logged.
pub const METRICS_INTERVAL_MS: u64 = 30_000;
/// Largest acceptable difference between the mic and system buffer fill
/// levels before a warning is logged: about 100 ms at 48 kHz.
pub const DRIFT_WARN_SAMPLES: i64 = 4_800;

// ---------------------------------------------------------------------------
// Ogg/Opus header packets (RFC 7845)
// ---------------------------------------------------------------------------

/// Little-endian bytes of a 16-bit value.
pub open spec fn le16(x: u16) -> Seq<u8> {
    seq![(x % 256) as u8, (x / 256) as u8]
}

/// Little-endian bytes of a 32-bit value.
pub open spec fn le32(x: u32) -> Seq<u8> {
    seq![(x % 256) as u8, ((x / 256) % 256) as u8, ((x / 65536) % 256) as u8, (x / 16777216) as u8]
}

/// The ASCII bytes of `OpusHead`.
pub open spec fn opus_head_magic() -> Seq<u8> {
    seq![79u8, 112, 117, 115, 72, 101, 97, 100]
}

/// The ASCII bytes of `OpusTags`.
pub open spec fn opus_tags_magic() -> Seq<u8> {
    seq![79u8, 112, 117, 115, 84, 97, 103, 115]
}

/// The ASCII bytes of the vendor string `domino-codex-recorder`.
pub open spec fn vendor_bytes() -> Seq<u8> {
    seq![
        100u8, 111, 109, 105, 110, 111, 45, 99, 111, 100, 101, 120, 45, 114, 101, 99, 111, 114,
        100, 101, 114,
    ]
}

/// The identification header: magic, version 1, channel count, pre-skip,
/// input sample rate, output gain 0 and channel mapping family 0.
pub open spec fn opus_head_spec(channels: u8, pre_skip: u16, input_sample_rate: u32) -> Seq<u8> {
    opus_head_magic() + seq![1u8, channels] + le16(pre_skip) + le32(input_sample_rate) + le16(0)
        + seq![0u8]
}

/// The comment header: magic, vendor string with its length, and no comments.
pub open spec fn opus_tags_spec() -> Seq<u8> {
    opus_tags_magic() + le32(21) + vendor_bytes() + le32(0)
}

fn push_bytes(out: &mut Vec<u8>, bytes: &[u8])
    ensures
        final(out)@ == old(out)@ + bytes@,
{
    let mut i: usize = 0;
    while i < bytes.len()
        invariant
            i <= bytes@.len(),
            out@ == old(out)@ + bytes@.take(i as int),
        decreases bytes@.len() - i,
    {
        proof {
            assert(bytes@.take(i + 1) =~= bytes@.take(i as int).push(bytes@[i as int]));
        }
        out.push(bytes[i]);
        i += 1;
    }
    proof {
        assert(bytes@.take(bytes@.len() as int) =~= bytes@);
    }
}

fn push_le16(out: &mut Vec<u8>, x: u16)
    ensures
        final(out)@ == old(out)@ + le16(x),
{
    out.push((x % 256) as u8);
    out.push((x / 256) as u8);
    proof {
        assert(final(out)@ =~= old(out)@ + le16(x));
    }
}

fn push_le32(out: &mut Vec<u8>, x: u32)
    ensures
        final(out)@ == old(out)@ + le32(x),
{
    out.push((x % 256) as u8);
    out.push(((x / 256) % 256) as u8);
    out.push(((x / 65536) % 256) as u8);
    out.push((x / 16777216) as u8);
    proof {
        assert(final(out)@ =~= old(out)@ + le32(x));
    }
}

/// Builds the `OpusHead` identification packet (19 bytes). The channel count
/// stands at offset 9, the pre-skip at offsets 10..12 and the input sample
/// rate at offsets 12..16, both little-endian.
pub fn build_opus_head(channels: u8, pre_skip: u16, input_sample_rate: u32) -> (head: Vec<u8>)
    ensures
        head@ == opus_head_spec(channels, pre_skip, input_sample_rate),
        head@.len() == 19,
        head@.take(8) == opus_head_magic(),
        head@[8] == 1,
        head@[9] == channels,
        head@[10] + 256 * head@[11] == pre_skip,
        head@[12] + 256 * head@[13] + 65536 * head@[14] + 16777216 * head@[15] == input_sample_rate,
        head@.take(8) == seq![79u8, 112, 117, 115, 72, 101, 97, 100],
        head@[16] == 0,
        head@[17] == 0,
        head@[18] == 0,
{
    let mut head: Vec<u8> = Vec::with_capacity(19);
    let magic: [u8; 8] = [79, 112, 117, 115, 72, 101, 97, 100];
    proof {
        assert(magic@ =~= opus_head_magic());
    }
    push_bytes(&mut head, &magic);
    head.push(1);
    head.push(channels);
    push_le16(&mut head, pre_skip);
    push_le32(&mut head, input_sample_rate);
    push_le16(&mut head, 0);
    head.push(0);
    proof {
        assert(head@ =~= opus_head_spec(channels, pre_skip, input_sample_rate));
        assert(head@.take(8) =~= opus_head_magic());
        lemma_opus_head_layout(channels, pre_skip, input_sample_rate);
    }
    head
}

/// Builds the `OpusTags` comment packet: the vendor string
/// `domino-codex-recorder` and an empty comment list.
pub fn build_opus_tags() -> (tags: Vec<u8>)
    ensures
        tags@ == opus_tags_spec(),
        tags@.len() == 37,
        tags@.take(8) == opus_tags_magic(),
        tags@[8] + 256 * tags@[9] + 65536 * tags@[10] + 16777216 * tags@[11] == vendor_bytes().len(),
        tags@.subrange(12, 12 + vendor_bytes().len() as int) == vendor_bytes(),
        tags@.take(8) == seq![79u8, 112, 117, 115, 84, 97, 103, 115],
        tags@.subrange(8, 12) == seq![21u8, 0, 0, 0],
        tags@.subrange(33, 37) == seq![0u8, 0, 0, 0],
{
    let mut tags: Vec<u8> = Vec::with_capacity(37);
    let magic: [u8; 8] = [79, 112, 117, 115, 84, 97, 103, 115];
    let vendor: [u8; 21] = [
        100, 111, 109, 105, 110, 111, 45, 99, 111, 100, 101, 120, 45, 114, 101, 99, 111, 114, 100,
        101, 114,
    ];
    proof {
        assert(magic@ =~= opus_tags_magic());
        assert(vendor@ =~= vendor_bytes());
    }
    push_bytes(&mut tags, &magic);
    push_le32(&mut tags, 21);
    push_bytes(&mut tags, &vendor);
    push_le32(&mut tags, 0);
    proof {
        assert(tags@ =~= opus_tags_spec());
        assert(tags@.take(8) =~= opus_tags_magic());
        assert(tags@.subrange(12, 33) =~= vendor_bytes());
        lemma_opus_tags_layout();
    }
    tags
}

// ---------------------------------------------------------------------------
// Channel interleaving
// ---------------------------------------------------------------------------

/// Interleaves a mono left channel and a mono right channel into a stereo
/// buffer with the layout `[L0, R0, L1, R1, ...]`.
pub fn interleave_stereo<T: Copy>(left: &[T], right: &[T], out: &mut [T])
    requires
        left@.len() == right@.len(),
        old(out)@.len() == 2 * left@.len(),
    ensures
        final(out)@.len() == old(out)@.len(),
        forall|i: int|
            0 <= i < left@.len() ==> final(out)@[2 * i] == left@[i] && final(out)@[2 * i + 1]
                == right@[i],
{
    let n = left.len();
    let total = out.len();
    let mut i: usize = 0;
    while i < n
        invariant
            n == left@.len(),
            total == 2 * n,
            left@.len() == right@.len(),
            out@.len() == 2 * n,
            i <= n,
            forall|k: int| 0 <= k < i ==> out@[2 * k] == left@[k] && out@[2 * k + 1] == right@[k],
        decreases n - i,
    {
        out[2 * i] = left[i];
        out[2 * i + 1] = right[i];
        i += 1;
    }
}

// ---------------------------------------------------------------------------
// Frame assembly
// ---------------------------------------------------------------------------

/// How the Ogg page that carries a packet is closed.
#[derive(Debug, Clone, Copy, PartialEq, Eq, Structural)]
pub enum PacketEnd {
    /// Flush the page; more packets follow.
    EndPage,
    /// Last packet of the logical stream.
    EndStream,
}

/// What the encoder thread does on one tick of its loop.
#[derive(Debug, Clone, Copy, PartialEq, Eq, Structural)]
pub enum FrameStep {
    /// Encode one stereo frame now. The mic buffer is zero-filled from
    /// `pad_mic_from` to the frame's end and the system buffer from
    /// `pad_sys_from` (an empty range when that channel is full);
    /// `warn_stall` asks for a log line about the inserted silence.
    Emit { pad_mic_from: usize, pad_sys_from: usize, warn_stall: bool },
    /// Shutting down with nothing buffered: leave the loop.
    Finish,
    /// Nothing to do yet: sleep briefly and poll again.
    Idle,
}

/// Fill levels of the current mic and system frame buffers and the running
/// Ogg granule position.
#[derive(Debug)]
pub struct FrameAssembler {
    pub mic_pos: usize,
    pub sys_pos: usize,
    pub granule_pos: u64,
}

/// The pre-skip to announce: the encoder's lookahead when it can report it,
/// else `DEFAULT_PRE_SKIP` (the value is carried in 16 bits).
pub open spec fn pre_skip_spec(lookahead: Option<u32>) -> u16 {
    match lookahead {
        Some(v) => (v % 65536) as u16,
        None => DEFAULT_PRE_SKIP,
    }
}

/// Has a stream made no progress for longer than the stall timeout?
pub open spec fn stalled_spec(since_progress_ns: u128) -> bool {
    since_progress_ns > STALL_TIMEOUT_MS * 1_000_000
}

impl FrameAssembler {
    /// Both positions lie within one frame.
    pub open spec fn wf(&self) -> bool {
        &&& self.mic_pos <= FRAME_SIZE
        &&& self.sys_pos <= FRAME_SIZE
    }

    /// The step the loop takes given the shutdown flag and the time since the
    /// last progress on either channel.
    pub open spec fn step_spec(&self, shutting_down: bool, since_progress_ns: u128) -> FrameStep {
        let both_ready = self.mic_pos == FRAME_SIZE && self.sys_pos == FRAME_SIZE;
        let stalled = stalled_spec(since_progress_ns);
        let has_partial = self.mic_pos > 0 || self.sys_pos > 0;
        if both_ready || (shutting_down && has_partial) || (stalled && has_partial) {
            FrameStep::Emit {
                pad_mic_from: self.mic_pos,
                pad_sys_from: self.sys_pos,
                warn_stall: !both_ready && stalled && !shutting_down,
            }
        } else if shutting_down {
            FrameStep::Finish
        } else {
            FrameStep::Idle
        }
    }

    /// A fresh assembler: both frames empty, granule position at the pre-skip.
    pub fn new(pre_skip: u16) -> (fa: Self)
        ensures
            fa.wf(),
            fa.mic_pos == 0,
            fa.sys_pos == 0,
            fa.granule_pos == pre_skip,
    {
        FrameAssembler { mic_pos: 0, sys_pos: 0, granule_pos: pre_skip as u64 }
    }

    /// Records that `popped` mic samples were copied into the mic frame.
    /// Returns whether that was progress.
    pub fn record_mic(&mut self, popped: usize) -> (progressed: bool)
        requires
            old(self).wf(),
            popped <= FRAME_SIZE - old(self).mic_pos,
        ensures
            final(self).wf(),
            final(self).mic_pos == old(self).mic_pos + popped,
            final(self).sys_pos == old(self).sys_pos,
            final(self).granule_pos == old(self).granule_pos,
            progressed == (popped > 0),
    {
        self.mic_pos = self.mic_pos + popped;
        popped > 0
    }

    /// Records that `popped` system samples were copied into the system frame.
    /// Returns whether that was progress.
    pub fn record_sys(&mut self, popped: usize) -> (progressed: bool)
        requires
            old(self).wf(),
            popped <= FRAME_SIZE - old(self).sys_pos,
        ensures
            final(self).wf(),
            final(self).sys_pos == old(self).sys_pos + popped,
            final(self).mic_pos == old(self).mic_pos,
            final(self).granule_pos == old(self).granule_pos,
            progressed == (popped > 0),
    {
        self.sys_pos = self.sys_pos + popped;
        popped > 0
    }

    /// Without a system stream the right channel is permanently silent: the
    /// rest of the system frame counts as filled. Returns the index from which
    /// the system buffer must be zeroed, or `None` when it was already full.
    pub fn silence_system(&mut self) -> (fill_from: Option<usize>)
        requires
            old(self).wf(),
        ensures
            final(self).wf(),
            final(self).sys_pos == FRAME_SIZE,
            final(self).mic_pos == old(self).mic_pos,
            final(self).granule_pos == old(self).granule_pos,
            fill_from == (if old(self).sys_pos < FRAME_SIZE {
                Some(old(self).sys_pos)
            } else {
                None
            }),
    {
        if self.sys_pos < FRAME_SIZE {
            let from = self.sys_pos;
            self.sys_pos = FRAME_SIZE;
            Some(from)
        } else {
            None
        }
    }

    /// Decides the loop's next step: a frame is encoded when both channels
    /// are full, or when something is buffered and the recorder is shutting
    /// down or a stream has stalled; otherwise the loop ends on shutdown or
    /// waits.
    pub fn next_step(&self, shutting_down: bool, since_progress_ns: u128) -> (step: FrameStep)
        requires
            self.wf(),
        ensures
            step == self.step_spec(shutting_down, since_progress_ns),
            step matches FrameStep::Emit { pad_mic_from, pad_sys_from, .. } ==> pad_mic_from
                == self.mic_pos && pad_sys_from == self.sys_pos,
            shutting_down && (self.mic_pos > 0 || self.sys_pos > 0) ==> step is Emit,
            shutting_down && self.mic_pos == 0 && self.sys_pos == 0 ==> step == FrameStep::Finish,
            self.mic_pos == FRAME_SIZE && self.sys_pos == FRAME_SIZE ==> step == (FrameStep::Emit {
                pad_mic_from: FRAME_SIZE,
                pad_sys_from: FRAME_SIZE,
                warn_stall: false,
            }),
    {
        let both_ready = self.mic_pos == FRAME_SIZE && self.sys_pos == FRAME_SIZE;
        let stalled = since_progress_ns > (STALL_TIMEOUT_MS as u128) * 1_000_000;
        let has_partial = self.mic_pos > 0 || self.sys_pos > 0;
        if both_ready || (shutting_down && has_partial) || (stalled && has_partial) {
            FrameStep::Emit {
                pad_mic_from: self.mic_pos,
                pad_sys_from: self.sys_pos,
                warn_stall: !both_ready && stalled && !shutting_down,
            }
        } else if shutting_down {
            FrameStep::Finish
        } else {
            FrameStep::Idle
        }
    }

    /// Records that one frame was encoded: the granule position advances by
    /// one frame and both frame buffers start over. The packet ends the
    /// stream exactly when the recorder is shutting down and both ring
    /// buffers are drained.
    pub fn finish_frame(&mut self, shutting_down: bool, drained: bool) -> (end: PacketEnd)
        requires
            old(self).granule_pos + FRAME_SIZE <= u64::MAX,
        ensures
            final(self).wf(),
            final(self).granule_pos == old(self).granule_pos + FRAME_SIZE,
            final(self).mic_pos == 0,
            final(self).sys_pos == 0,
            end == (if shutting_down && drained {
                PacketEnd::EndStream
            } else {
                PacketEnd::EndPage
            }),
    {
        self.granule_pos = self.granule_pos + FRAME_SIZE as u64;
        self.mic_pos = 0;
        self.sys_pos = 0;
        if shutting_down && drained {
            PacketEnd::EndStream
        } else {
            PacketEnd::EndPage
        }
    }
}

/// The pre-skip to write into `OpusHead`: the encoder's lookahead if it could
/// be read, else `DEFAULT_PRE_SKIP`; the lookahead is narrowed to 16 bits.
pub fn pre_skip_from_lookahead(lookahead: Option<u32>) -> (pre_skip: u16)
    ensures
        pre_skip == pre_skip_spec(lookahead),
{
    match lookahead {
        Some(v) => (v % 65536) as u16,
        None => DEFAULT_PRE_SKIP,
    }
}

/// Is it time to log metrics again?
pub fn metrics_due(since_metrics_ns: u128) -> (due: bool)
    ensures
        due == (since_metrics_ns > METRICS_INTERVAL_MS * 1_000_000),
{
    since_metrics_ns > (METRICS_INTERVAL_MS as u128) * 1_000_000
}

// ---------------------------------------------------------------------------
// Drift metrics
// ---------------------------------------------------------------------------

/// The drift between the two ring buffers' fill levels, in milliseconds
/// (rounded toward zero), and whether it exceeds the warning threshold.
#[derive(Debug, Clone, Copy, PartialEq, Eq, Structural)]
pub struct DriftReport {
    pub drift_ms: i64,
    pub exceeds_warn: bool,
}

/// Integer division rounding toward zero.
pub open spec fn div_toward_zero(x: int, d: int) -> int {
    if x >= 0 {
        x / d
    } else {
        -((-x) / d)
    }
}

/// Compares the mic and system ring-buffer fill levels.
pub fn stream_drift(mic_level: usize, sys_level: usize) -> (r: DriftReport)
    requires
        mic_level <= i64::MAX,
        sys_level <= i64::MAX,
        i64::MIN <= (mic_level - sys_level) * 1000 <= i64::MAX,
    ensures
        r.drift_ms == div_toward_zero((mic_level - sys_level) * 1000, SAMPLE_RATE as int),
        r.exceeds_warn == (mic_level - sys_level > DRIFT_WARN_SAMPLES || sys_level - mic_level
            > DRIFT_WARN_SAMPLES),
        mic_level >= sys_level ==> r.drift_ms >= 0 && r.drift_ms * 48 <= mic_level - sys_level
            < (r.drift_ms + 1) * 48,
        mic_level < sys_level ==> r.drift_ms <= 0 && (-r.drift_ms) * 48 <= sys_level - mic_level
            < (-r.drift_ms + 1) * 48,
{
    let drift: i64 = mic_level as i64 - sys_level as i64;
    let magnitude: i64 = if drift >= 0 { drift } else { -drift };
    let ms: i64 = magnitude * 1000 / (SAMPLE_RATE as i64);
    let drift_ms: i64 = if drift >= 0 { ms } else { -ms };
    proof {
        assert(ms == (magnitude * 1000) / 48000);
        assert(ms * 48 <= magnitude < (ms + 1) * 48) by (nonlinear_arith)
            requires
                ms == (magnitude * 1000) / 48000,
                magnitude >= 0,
        ;
    }
    DriftReport { drift_ms, exceeds_warn: magnitude > DRIFT_WARN_SAMPLES }
}

// ---------------------------------------------------------------------------
// Laws of frame assembly
// ---------------------------------------------------------------------------

/// Two full channels are always encoded at once, with no silence inserted
/// and no stall warning.
pub proof fn lemma_full_frame_emitted_unpadded(fa: FrameAssembler, shutting_down: bool, since_progress_ns: u128)
    requires
        fa.mic_pos == FRAME_SIZE,
        fa.sys_pos == FRAME_SIZE,
    ensures
        fa.step_spec(shutting_down, since_progress_ns) == (FrameStep::Emit {
            pad_mic_from: FRAME_SIZE,
            pad_sys_from: FRAME_SIZE,
            warn_stall: false,
        }),
{
}

/// A frame is only ever encoded when at least one channel holds audio, so
/// no frame of pure padding is produced.
pub proof fn lemma_emit_needs_audio(fa: FrameAssembler, shutting_down: bool, since_progress_ns: u128)
    requires
        fa.step_spec(shutting_down, since_progress_ns) is Emit,
    ensures
        fa.mic_pos > 0 || fa.sys_pos > 0,
{
}

/// On shutdown the loop never idles: buffered audio is flushed as a
/// (padded) frame, and once nothing is buffered the loop ends.
pub proof fn lemma_shutdown_flushes_then_finishes(fa: FrameAssembler, since_progress_ns: u128)
    ensures
        (fa.mic_pos > 0 || fa.sys_pos > 0) ==> fa.step_spec(true, since_progress_ns) is Emit,
        (fa.mic_pos == 0 && fa.sys_pos == 0) ==> fa.step_spec(true, since_progress_ns)
            == FrameStep::Finish,
{
}

/// While running and not stalled, a partly filled frame waits for more
/// audio rather than being padded.
pub proof fn lemma_partial_frame_waits(fa: FrameAssembler, since_progress_ns: u128)
    requires
        fa.wf(),
        !(fa.mic_pos == FRAME_SIZE && fa.sys_pos == FRAME_SIZE),
        !stalled_spec(since_progress_ns),
    ensures
        fa.step_spec(false, since_progress_ns) == FrameStep::Idle,
{
}

/// A stalled stream with audio buffered on either side is padded with
/// silence and encoded, with a warning, instead of blocking the encoder.
pub proof fn lemma_stall_pads_lagging_channel(fa: FrameAssembler, since_progress_ns: u128)
    requires
        fa.wf(),
        fa.mic_pos > 0 || fa.sys_pos > 0,
        !(fa.mic_pos == FRAME_SIZE && fa.sys_pos == FRAME_SIZE),
        stalled_spec(since_progress_ns),
    ensures
        fa.step_spec(false, since_progress_ns) == (FrameStep::Emit {
            pad_mic_from: fa.mic_pos,
            pad_sys_from: fa.sys_pos,
            warn_stall: true,
        }),
{
}

/// Whenever a frame is emitted, each channel is zero-filled exactly from its
/// own fill level to the end of the frame: no buffered sample is overwritten
/// and no stale sample of an earlier frame is left in the unfilled part.
pub proof fn lemma_emit_pads_from_fill_levels(fa: FrameAssembler, shutting_down: bool, since_progress_ns: u128)
    ensures
        fa.step_spec(shutting_down, since_progress_ns) matches FrameStep::Emit {
            pad_mic_from,
            pad_sys_from,
            ..
        } ==> pad_mic_from == fa.mic_pos && pad_sys_from == fa.sys_pos,
{
}

/// The identification header of every recording ends with output gain 0
/// and channel mapping family 0, whatever the channel count, pre-skip and rate;
/// it is 19 bytes, starting with `OpusHead` and version 1.
pub proof fn lemma_opus_head_layout(channels: u8, pre_skip: u16, input_sample_rate: u32)
    ensures
        opus_head_spec(channels, pre_skip, input_sample_rate).len() == 19,
        opus_head_spec(channels, pre_skip, input_sample_rate).take(8) == seq![
            79u8,
            112,
            117,
            115,
            72,
            101,
            97,
            100,
        ],
        opus_head_spec(channels, pre_skip, input_sample_rate)[8] == 1,
        opus_head_spec(channels, pre_skip, input_sample_rate)[9] == channels,
        opus_head_spec(channels, pre_skip, input_sample_rate).subrange(16, 19) == seq![0u8, 0, 0],
{
    let h = opus_head_spec(channels, pre_skip, input_sample_rate);
    assert(h.take(8) =~= seq![79u8, 112, 117, 115, 72, 101, 97, 100]);
    assert(h.subrange(16, 19) =~= seq![0u8, 0, 0]);
}

/// The comment header is `OpusTags`, the 21-byte vendor length in
/// little-endian, the vendor string, and a comment count of zero.
pub proof fn lemma_opus_tags_layout()
    ensures
        opus_tags_spec().len() == 37,
        opus_tags_spec().take(8) == seq![79u8, 112, 117, 115, 84, 97, 103, 115],
        opus_tags_spec().subrange(8, 12) == seq![21u8, 0, 0, 0],
        opus_tags_spec().subrange(33, 37) == seq![0u8, 0, 0, 0],
{
    let t = opus_tags_spec();
    assert(t.take(8) =~= seq![79u8, 112, 117, 115, 84, 97, 103, 115]);
    assert(t.subrange(8, 12) =~= seq![21u8, 0, 0, 0]);
    assert(t.subrange(33, 37) =~= seq![0u8, 0, 0, 0]);
}

} // verus!
