//! Transcript segments as produced by the speech recogniser, one per
//! utterance and channel.

use vstd::prelude::*;

verus! {

/// Which recorded channel a segment came from: the local microphone (`You`)
/// or the captured system audio of the remote side (`Meeting`).
#[derive(Debug, Clone, Copy, PartialEq, Eq, Structural)]
pub enum Speaker {
    You,
    Meeting,
}

/// One transcribed utterance.
///
/// Times are held in whole milliseconds from the start of the recording, so
/// that the bleed window is compared exactly: the windows of 0.5 s and 3 s
/// become 500 ms and 3000 ms.
#[derive(Debug)]
pub struct Segment {
    pub start_ms: i64,
    pub end_ms: i64,
    pub speaker: Speaker,
    pub text: String,
}

impl Segment {
    /// Builds a segment from its parts.
    pub fn new(start_ms: i64, end_ms: i64, speaker: Speaker, text: String) -> (seg: Segment)
        ensures
            seg.start_ms == start_ms,
            seg.end_ms == end_ms,
            seg.speaker == speaker,
            seg.text@ == text@,
    {
        Segment { start_ms, end_ms, speaker, text }
    }
}

} // verus!
