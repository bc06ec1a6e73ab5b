use domino_recorder::transcription::apply_dedup;
use domino_recorder::transcription::dedup::{dedup_enabled_from, DedupStats};
use domino_recorder::transcription::segment::{Segment, Speaker};

fn seg(start_ms: i64, end_ms: i64, speaker: Speaker, text: &str) -> Segment {
    Segment::new(start_ms, end_ms, speaker, text.to_string())
}

#[test]
fn disabled_dedup_passes_everything_through() {
    let you = vec![seg(10_500, 12_500, Speaker::You, "hello world.")];
    let meeting = vec![seg(10_000, 12_000, Speaker::Meeting, "Hello, world!")];
    let (out, stats) = apply_dedup(false, you, &meeting);
    assert_eq!(out.len(), 1);
    assert_eq!(stats, DedupStats::noop(1));
}

#[test]
fn enabled_dedup_drops_bleed() {
    let you = vec![seg(10_500, 12_500, Speaker::You, "hello world.")];
    let meeting = vec![seg(10_000, 12_000, Speaker::Meeting, "Hello, world!")];
    let (out, stats) = apply_dedup(true, you, &meeting);
    assert!(out.is_empty());
    assert_eq!(stats, DedupStats { input_count: 1, dropped_count: 1 });
}

#[test]
fn majority_drop_is_flagged() {
    assert!(!DedupStats::noop(0).dropped_majority());
    assert!(!DedupStats { input_count: 4, dropped_count: 2 }.dropped_majority());
    assert!(DedupStats { input_count: 4, dropped_count: 3 }.dropped_majority());
    assert!(DedupStats { input_count: 1, dropped_count: 1 }.dropped_majority());
}

#[test]
fn dedup_switch_default_on() {
    assert!(dedup_enabled_from(None));
    assert!(!dedup_enabled_from(Some("off")));
    assert!(!dedup_enabled_from(Some("0")));
    assert!(dedup_enabled_from(Some("true")));
}

#[test]
fn dedup_switch_ignores_case_and_whitespace() {
    assert!(!dedup_enabled_from(Some("  OFF\n")));
    assert!(!dedup_enabled_from(Some("False")));
    assert!(!dedup_enabled_from(Some("\u{a0}No\u{3000}")));
    assert!(dedup_enabled_from(Some("o ff")));
    assert!(dedup_enabled_from(Some("")));
    assert!(dedup_enabled_from(Some("yes")));
}
