//! The offline transcription pipeline's own decisions: which mic-channel
//! segments survive bleed removal, and when that removal looks suspicious.

pub mod dedup;
pub mod properties;
pub mod segment;

use vstd::prelude::*;
use crate::transcription::dedup::{dedup_mic_bleed, dedup_spec, DedupStats};
use crate::transcription::segment::Segment;

verus! {

/// Runs bleed removal over the mic-channel segments when it is enabled, and
/// passes them through untouched (with no-op counters) when it is not.
pub fn apply_dedup(enabled: bool, you: Vec<Segment>, meeting: &[Segment]) -> (res: (Vec<Segment>, DedupStats))
    ensures
        enabled ==> res.0@ == dedup_spec(you@, meeting@),
        !enabled ==> res.0@ == you@,
        res.1.input_count == you@.len(),
        res.1.dropped_count == you@.len() - res.0@.len(),
{
    if enabled {
        dedup_mic_bleed(you, meeting)
    } else {
        let count = you.len();
        (you, DedupStats::noop(count))
    }
}

impl DedupStats {
    /// Did the pass drop more than half of a non-empty input? The pipeline
    /// warns about such a pass, since it usually means the user was echoing
    /// the remote side on purpose.
    pub fn dropped_majority(&self) -> (suspicious: bool)
        ensures
            suspicious == (self.input_count > 0 && self.dropped_count * 2 > self.input_count),
    {
        self.input_count > 0 && (self.dropped_count as u128) * 2 > (self.input_count as u128)
    }
}

} // verus!
