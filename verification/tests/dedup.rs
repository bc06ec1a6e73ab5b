use domino_recorder::transcription::dedup::{dedup_mic_bleed, overlaps, strip_whisper_meta, tokenize};
use domino_recorder::transcription::segment::{Segment, Speaker};

/// Transcript times are written in seconds here, as the recogniser reports
/// them, and held by the library in whole milliseconds.
fn ms(sec: f64) -> i64 {
    (sec * 1000.0).round() as i64
}

fn you(start: f64, end: f64, text: &str) -> Segment {
    Segment::new(ms(start), ms(end), Speaker::You, text.to_string())
}

fn meeting(start: f64, end: f64, text: &str) -> Segment {
    Segment::new(ms(start), ms(end), Speaker::Meeting, text.to_string())
}

#[test]
fn test_tokenize_basic() {
    assert_eq!(
        tokenize("Hello, world!"),
        vec!["hello".to_string(), "world".to_string()]
    );
}

#[test]
fn test_tokenize_strips_whisper_meta() {
    assert_eq!(
        tokenize("hello [BLANK_AUDIO] world"),
        vec!["hello".to_string(), "world".to_string()]
    );
    assert_eq!(tokenize("[ Pause ]"), Vec::<String>::new());
    assert_eq!(tokenize("[Music]"), Vec::<String>::new());
}

#[test]
fn test_tokenize_apostrophes_stripped() {
    assert_eq!(
        tokenize("it's going"),
        vec!["it".to_string(), "s".to_string(), "going".to_string()]
    );
}

#[test]
fn test_overlaps_within_lag_window() {
    let m = meeting(10.0, 12.0, "x");
    let y = you(13.5, 14.5, "x");
    assert!(overlaps(&y, &m));
}

#[test]
fn test_overlaps_outside_window_rejected() {
    let m = meeting(10.0, 12.0, "x");
    let y = you(16.0, 17.0, "x");
    assert!(!overlaps(&y, &m));
}

#[test]
fn test_overlaps_lead_window_small() {
    let m = meeting(10.0, 12.0, "x");
    let y = you(9.7, 10.5, "x");
    assert!(overlaps(&y, &m));
    let y_too_early = you(9.0, 9.4, "x");
    assert!(!overlaps(&y_too_early, &m));
}

#[test]
fn test_drops_exact_duplicate_in_window() {
    let you_segs = vec![you(10.5, 12.5, "hello world.")];
    let meet_segs = vec![meeting(10.0, 12.0, "Hello, world!")];
    let (out, stats) = dedup_mic_bleed(you_segs, &meet_segs);
    assert!(out.is_empty());
    assert_eq!(stats.input_count, 1);
    assert_eq!(stats.dropped_count, 1);
}

#[test]
fn test_keeps_non_overlapping_duplicate() {
    let you_segs = vec![you(40.0, 42.0, "hello world.")];
    let meet_segs = vec![meeting(5.0, 7.0, "Hello, world!")];
    let (out, stats) = dedup_mic_bleed(you_segs, &meet_segs);
    assert_eq!(out.len(), 1);
    assert_eq!(stats.dropped_count, 0);
}

#[test]
fn test_keeps_distinct_text_in_window() {
    let you_segs = vec![you(10.5, 11.0, "sounds good.")];
    let meet_segs = vec![meeting(10.0, 12.0, "quarterly numbers.")];
    let (out, stats) = dedup_mic_bleed(you_segs, &meet_segs);
    assert_eq!(out.len(), 1);
    assert_eq!(out[0].text, "sounds good.");
    assert_eq!(stats.dropped_count, 0);
}

#[test]
fn test_drops_against_concatenated_meeting_segments() {
    let you_segs = vec![you(
        25.32,
        29.64,
        "Different people were in any given instance. Most of it's just not, it's not going to be",
    )];
    let meet_segs = vec![
        meeting(24.0, 27.04, "Different people were in any given instance,"),
        meeting(
            27.04,
            30.30,
            "most of it's just not, it's not going to be an input.",
        ),
    ];
    let (out, stats) = dedup_mic_bleed(you_segs, &meet_segs);
    assert!(out.is_empty());
    assert_eq!(stats.dropped_count, 1);
}

#[test]
fn test_drops_short_you_covered_by_meeting() {
    let you_segs = vec![you(29.64, 30.64, "an input.")];
    let meet_segs = vec![meeting(
        27.04,
        30.30,
        "most of it's just not, it's not going to be an input.",
    )];
    let (out, stats) = dedup_mic_bleed(you_segs, &meet_segs);
    assert!(out.is_empty());
    assert_eq!(stats.dropped_count, 1);
}

#[test]
fn test_keeps_single_token_you_not_in_meeting() {
    let you_segs = vec![you(10.5, 11.0, "yeah.")];
    let meet_segs = vec![meeting(10.0, 12.0, "quarterly.")];
    let (out, stats) = dedup_mic_bleed(you_segs, &meet_segs);
    assert_eq!(out.len(), 1);
    assert_eq!(stats.dropped_count, 0);
}

#[test]
fn test_single_token_requires_full_coverage() {
    let you_segs = vec![you(10.5, 11.0, "okay.")];
    let meet_segs = vec![meeting(10.0, 12.0, "Okay, let's continue.")];
    let (out, stats) = dedup_mic_bleed(you_segs, &meet_segs);
    assert!(
        out.is_empty(),
        "single token 'okay' should drop when meeting contains it"
    );
    assert_eq!(stats.dropped_count, 1);
}

#[test]
fn test_window_skew_forward() {
    let you_segs = vec![you(28.5, 29.5, "sales pipeline updates")];
    let meet_segs = vec![meeting(25.0, 27.0, "sales pipeline updates.")];
    let (out, stats) = dedup_mic_bleed(you_segs, &meet_segs);
    assert!(out.is_empty());
    assert_eq!(stats.dropped_count, 1);
}

#[test]
fn test_window_skew_rejects_late() {
    let you_segs = vec![you(31.0, 32.0, "sales pipeline updates")];
    let meet_segs = vec![meeting(25.0, 27.0, "sales pipeline updates.")];
    let (out, stats) = dedup_mic_bleed(you_segs, &meet_segs);
    assert_eq!(out.len(), 1);
    assert_eq!(stats.dropped_count, 0);
}

#[test]
fn test_empty_meeting_returns_unchanged() {
    let you_segs = vec![you(0.0, 1.0, "hello"), you(2.0, 3.0, "goodbye")];
    let (out, stats) = dedup_mic_bleed(you_segs, &[]);
    assert_eq!(out.len(), 2);
    assert_eq!(stats.input_count, 2);
    assert_eq!(stats.dropped_count, 0);
}

#[test]
fn test_meeting_meta_only_does_not_dedup_you() {
    let you_segs = vec![you(
        0.0,
        25.32,
        "Testing this out. I really hope this works.",
    )];
    let meet_segs = vec![meeting(0.0, 24.0, "[ Pause ]")];
    let (out, stats) = dedup_mic_bleed(you_segs, &meet_segs);
    assert_eq!(out.len(), 1);
    assert_eq!(stats.dropped_count, 0);
}

#[test]
fn test_mixed_you_segments_partial_drop() {
    let you_segs = vec![
        you(0.0, 5.0, "Testing one two three."),
        you(10.5, 12.0, "quarterly revenue numbers"),
    ];
    let meet_segs = vec![meeting(10.0, 12.0, "Quarterly revenue numbers.")];
    let (out, stats) = dedup_mic_bleed(you_segs, &meet_segs);
    assert_eq!(out.len(), 1);
    assert_eq!(out[0].text, "Testing one two three.");
    assert_eq!(stats.dropped_count, 1);
}

#[test]
fn test_drops_user_transcript_overlap_case() {
    let you_segs = vec![you(
        12.0,
        30.0,
        "How do you think about prolificness versus depth?",
    )];
    let meet_segs = vec![
        meeting(0.0, 26.6, "[ Pause ]"),
        meeting(
            26.6,
            29.64,
            "How do you think about prolificness versus depth?",
        ),
        meeting(
            29.64,
            31.52,
            "Where -- I don't know, maybe Darwin's an example",
        ),
    ];
    let (out, stats) = dedup_mic_bleed(you_segs, &meet_segs);
    assert!(out.is_empty());
    assert_eq!(stats.input_count, 1);
    assert_eq!(stats.dropped_count, 1);
}

#[test]
fn test_stats_counts_match() {
    let you_segs = vec![
        you(0.0, 1.0, "kept one"),
        you(10.5, 12.0, "the bleed"),
        you(20.0, 21.0, "kept two"),
    ];
    let meet_segs = vec![meeting(10.0, 12.0, "the bleed.")];
    let (out, stats) = dedup_mic_bleed(you_segs, &meet_segs);
    assert_eq!(stats.input_count, 3);
    assert_eq!(stats.dropped_count, 1);
    assert_eq!(out.len(), stats.input_count - stats.dropped_count);
}

#[test]
fn tokenize_drops_stray_closing_bracket() {
    assert_eq!(tokenize("a]b"), vec!["ab".to_string()]);
    assert_eq!(tokenize("x [a [b] c] y"), vec!["x".to_string(), "y".to_string()]);
    assert_eq!(tokenize("Caf\u{e9} 42"), vec!["caf".to_string(), "42".to_string()]);
}

#[test]
fn coverage_threshold_four_of_five() {
    let meet_segs = vec![meeting(10.0, 12.0, "one two three four")];
    let (out, _) = dedup_mic_bleed(vec![you(10.5, 11.0, "one two three four five")], &meet_segs);
    assert!(out.is_empty(), "4 of 5 tokens covered is bleed");
    let (out, _) = dedup_mic_bleed(vec![you(10.5, 11.0, "one two three six five")], &meet_segs);
    assert_eq!(out.len(), 1, "3 of 5 tokens covered is not bleed");
}

#[test]
fn wordless_you_segment_kept() {
    let meet_segs = vec![meeting(10.0, 12.0, "[Music] hello")];
    let (out, stats) = dedup_mic_bleed(vec![you(10.5, 11.0, "[Music]")], &meet_segs);
    assert_eq!(out.len(), 1);
    assert_eq!(stats.dropped_count, 0);
}

#[test]
fn dedup_is_idempotent_on_example() {
    let meet_segs = vec![meeting(10.0, 12.0, "the bleed.")];
    let you_segs = vec![you(0.0, 1.0, "kept one"), you(10.5, 12.0, "the bleed")];
    let (out, _) = dedup_mic_bleed(you_segs, &meet_segs);
    let (again, stats) = dedup_mic_bleed(out, &meet_segs);
    assert_eq!(again.len(), 1);
    assert_eq!(stats.dropped_count, 0);
}

#[test]
fn strip_whisper_meta_removes_bracketed_regions() {
    assert_eq!(strip_whisper_meta("hello [BLANK_AUDIO] world"), "hello  world");
    assert_eq!(strip_whisper_meta("[a[b]c]d"), "d");
    assert_eq!(strip_whisper_meta("x]y"), "xy");
    assert_eq!(strip_whisper_meta("open [never closed"), "open ");
}

#[test]
fn wordless_meeting_segment_changes_nothing() {
    let you_segs = || vec![you(10.5, 11.0, "okay."), you(12.0, 13.0, "fine")];
    let base = vec![meeting(10.0, 12.0, "Okay, let's continue.")];
    let mut more = vec![meeting(10.0, 12.0, "Okay, let's continue.")];
    more.push(meeting(10.0, 14.0, "[ Pause ] ... !"));
    let (a, sa) = dedup_mic_bleed(you_segs(), &base);
    let (b, sb) = dedup_mic_bleed(you_segs(), &more);
    assert_eq!(a.len(), b.len());
    assert_eq!(sa, sb);
    assert_eq!(b[0].text, "fine");
}
