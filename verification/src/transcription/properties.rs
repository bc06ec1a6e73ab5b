//! Properties of bleed removal and of the word model it rests on, stated
//! over the specifications that `dedup_mic_bleed` and `tokenize` meet.

use vstd::prelude::*;
use crate::transcription::dedup::{dedup_enabled_spec, is_unicode_whitespace, switch_word, trim_end_spec, trim_start_spec, ascii_lower, is_ascii_alnum, strip_meta_from, strip_meta_spec, tokens_from, count_covered, dedup_spec, in_window_vocab, is_bleed, is_kept, overlaps_spec, tokenize_spec};
use crate::transcription::segment::Segment;

verus! {

broadcast use vstd::seq_lib::group_seq_properties;

// ---------------------------------------------------------------------------
// Helpers about filtering and counting
// ---------------------------------------------------------------------------

proof fn lemma_filter_all<A>(s: Seq<A>, p: spec_fn(A) -> bool)
    requires
        forall|i: int| 0 <= i < s.len() ==> p(#[trigger] s[i]),
    ensures
        s.filter(p) == s,
    decreases s.len(),
{
    if s.len() > 0 {
        let init = s.drop_last();
        lemma_filter_all(init, p);
        assert(init.push(s.last()) =~= s);
        init.lemma_filter_push(s.last(), p);
    } else {
        reveal(Seq::filter);
    }
}

proof fn lemma_filter_ext<A>(s: Seq<A>, p: spec_fn(A) -> bool, q: spec_fn(A) -> bool)
    requires
        forall|i: int| 0 <= i < s.len() ==> p(#[trigger] s[i]) == q(s[i]),
    ensures
        s.filter(p) == s.filter(q),
    decreases s.len(),
{
    if s.len() > 0 {
        let init = s.drop_last();
        lemma_filter_ext(init, p, q);
        assert(init.push(s.last()) =~= s);
        init.lemma_filter_push(s.last(), p);
        init.lemma_filter_push(s.last(), q);
    } else {
        reveal(Seq::filter);
    }
}

proof fn lemma_count_covered_ext(
    toks: Seq<Seq<char>>,
    you: Segment,
    m1: Seq<Segment>,
    m2: Seq<Segment>,
)
    requires
        forall|i: int|
            0 <= i < toks.len() ==> in_window_vocab(you, m1, #[trigger] toks[i])
                == in_window_vocab(you, m2, toks[i]),
    ensures
        count_covered(toks, you, m1) == count_covered(toks, you, m2),
    decreases toks.len(),
{
    if toks.len() > 0 {
        lemma_count_covered_ext(toks.drop_last(), you, m1, m2);
        assert(toks.last() == toks[toks.len() - 1]);
    }
}

proof fn lemma_count_covered_none(toks: Seq<Seq<char>>, you: Segment, meeting: Seq<Segment>)
    requires
        forall|i: int| 0 <= i < toks.len() ==> !in_window_vocab(you, meeting, #[trigger] toks[i]),
    ensures
        count_covered(toks, you, meeting) == 0,
    decreases toks.len(),
{
    if toks.len() > 0 {
        lemma_count_covered_none(toks.drop_last(), you, meeting);
        assert(toks.last() == toks[toks.len() - 1]);
    }
}

// ---------------------------------------------------------------------------
// Laws of bleed removal
// ---------------------------------------------------------------------------

/// A You segment none of whose words is spoken in an overlapping Meeting
/// segment is kept; in particular one that overlaps no Meeting segment at all.
pub proof fn lemma_unmatched_segment_kept(you: Segment, meeting: Seq<Segment>)
    requires
        forall|t: Seq<char>| !in_window_vocab(you, meeting, t),
    ensures
        !is_bleed(you, meeting),
{
    lemma_count_covered_none(tokenize_spec(you.text@), you, meeting);
}

/// A You segment that overlaps the window of no Meeting segment is kept.
pub proof fn lemma_segment_outside_windows_kept(you: Segment, meeting: Seq<Segment>)
    requires
        forall|j: int| 0 <= j < meeting.len() ==> !overlaps_spec(you, #[trigger] meeting[j]),
    ensures
        !is_bleed(you, meeting),
{
    lemma_unmatched_segment_kept(you, meeting);
}

/// A You segment without words (only recogniser markers or punctuation) is
/// never dropped.
pub proof fn lemma_wordless_segment_kept(you: Segment, meeting: Seq<Segment>)
    requires
        tokenize_spec(you.text@).len() == 0,
    ensures
        !is_bleed(you, meeting),
{
}

/// With no Meeting segments, every You segment is kept, unchanged and in
/// order.
pub proof fn lemma_no_meeting_keeps_all(you: Seq<Segment>)
    ensures
        dedup_spec(you, Seq::empty()) == you,
{
    let meeting = Seq::<Segment>::empty();
    assert forall|i: int| 0 <= i < you.len() implies #[trigger] is_kept(meeting)(you[i]) by {
        lemma_segment_outside_windows_kept(you[i], meeting);
    }
    lemma_filter_all(you, is_kept(meeting));
}

/// Adding a Meeting segment that has no words (say `[ Pause ]`) changes
/// nothing: such segments never cause a You segment to be dropped.
pub proof fn lemma_wordless_meeting_segment_irrelevant(
    you: Seq<Segment>,
    meeting: Seq<Segment>,
    extra: Segment,
)
    requires
        tokenize_spec(extra.text@).len() == 0,
    ensures
        dedup_spec(you, meeting.push(extra)) == dedup_spec(you, meeting),
{
    let more = meeting.push(extra);
    assert forall|y: Segment, t: Seq<char>|
        in_window_vocab(y, more, t) == in_window_vocab(y, meeting, t) by {
        if in_window_vocab(y, more, t) {
            let j = choose|j: int|
                0 <= j < more.len() && overlaps_spec(y, more[j])
                    && #[trigger] tokenize_spec(more[j].text@).contains(t);
            if j == meeting.len() {
                assert(tokenize_spec(extra.text@).contains(t));
                assert(false);
            } else {
                assert(more[j] == meeting[j]);
                assert(tokenize_spec(meeting[j].text@).contains(t));
            }
        }
        if in_window_vocab(y, meeting, t) {
            let j = choose|j: int|
                0 <= j < meeting.len() && overlaps_spec(y, meeting[j])
                    && #[trigger] tokenize_spec(meeting[j].text@).contains(t);
            assert(more[j] == meeting[j]);
            assert(tokenize_spec(more[j].text@).contains(t));
        }
    }
    assert forall|i: int| 0 <= i < you.len() implies #[trigger] is_kept(more)(you[i]) == is_kept(
        meeting,
    )(you[i]) by {
        let y = you[i];
        lemma_count_covered_ext(tokenize_spec(y.text@), y, more, meeting);
    }
    lemma_filter_ext(you, is_kept(more), is_kept(meeting));
}

/// Bleed removal is idempotent: running it again over its own output
/// against the same Meeting segments drops nothing more.
pub proof fn lemma_dedup_idempotent(you: Seq<Segment>, meeting: Seq<Segment>)
    ensures
        dedup_spec(dedup_spec(you, meeting), meeting) == dedup_spec(you, meeting),
{
    let kept = dedup_spec(you, meeting);
    assert forall|i: int| 0 <= i < kept.len() implies #[trigger] is_kept(meeting)(kept[i]) by {
        you.lemma_filter_pred(is_kept(meeting), i);
    }
    lemma_filter_all(kept, is_kept(meeting));
}

/// The kept segments are a subsequence of the input: each kept segment is an
/// input segment that is not bleed, and no more segments come out than went in.
pub proof fn lemma_dedup_keeps_only_input(you: Seq<Segment>, meeting: Seq<Segment>)
    ensures
        dedup_spec(you, meeting).len() <= you.len(),
        forall|i: int|
            0 <= i < dedup_spec(you, meeting).len() ==> you.contains(
                #[trigger] dedup_spec(you, meeting)[i],
            ) && !is_bleed(dedup_spec(you, meeting)[i], meeting),
        forall|i: int|
            0 <= i < you.len() && !is_bleed(#[trigger] you[i], meeting) ==> dedup_spec(
                you,
                meeting,
            ).contains(you[i]),
{
    broadcast use vstd::seq_lib::group_filter_ensures;

    you.lemma_filter_len(is_kept(meeting));
    assert forall|i: int| 0 <= i < dedup_spec(you, meeting).len() implies you.contains(
        #[trigger] dedup_spec(you, meeting)[i],
    ) && !is_bleed(dedup_spec(you, meeting)[i], meeting) by {
        let k = dedup_spec(you, meeting);
        you.lemma_filter_pred(is_kept(meeting), i);
        assert(k.contains(k[i]));
        you.lemma_filter_contains_rev(is_kept(meeting), k[i]);
    }
    assert forall|i: int| 0 <= i < you.len() && !is_bleed(#[trigger] you[i], meeting) implies dedup_spec(
        you,
        meeting,
    ).contains(you[i]) by {
        assert(is_kept(meeting)(you[i]));
        you.lemma_filter_contains(is_kept(meeting), i);
    }
}

// ---------------------------------------------------------------------------
// Laws of the word model
// ---------------------------------------------------------------------------

/// Characters a token is made of: ASCII lower-case letters and digits.
pub open spec fn is_token_char(c: char) -> bool {
    ('a' <= c && c <= 'z') || ('0' <= c && c <= '9')
}

/// A well-formed token: non-empty, made of token characters only.
pub open spec fn is_token(t: Seq<char>) -> bool {
    t.len() > 0 && forall|i: int| 0 <= i < t.len() ==> is_token_char(#[trigger] t[i])
}

proof fn lemma_tokens_from_shape(s: Seq<char>, cur: Seq<char>)
    requires
        forall|i: int| 0 <= i < cur.len() ==> is_token_char(#[trigger] cur[i]),
    ensures
        forall|k: int|
            0 <= k < tokens_from(s, cur).len() ==> is_token(#[trigger] tokens_from(s, cur)[k]),
    decreases s.len(),
{
    if s.len() == 0 {
        if cur.len() > 0 {
            assert(seq![cur][0] == cur);
        }
    } else if is_ascii_alnum(s[0]) {
        let next = cur.push(ascii_lower(s[0]));
        assert forall|i: int| 0 <= i < next.len() implies is_token_char(#[trigger] next[i]) by {
            if i < cur.len() {
                assert(next[i] == cur[i]);
            }
        }
        lemma_tokens_from_shape(s.drop_first(), next);
        assert(tokens_from(s, cur) == tokens_from(s.drop_first(), next));
    } else {
        lemma_tokens_from_shape(s.drop_first(), Seq::empty());
        if cur.len() > 0 {
            let rest = tokens_from(s.drop_first(), Seq::empty());
            assert forall|k: int| 0 <= k < (seq![cur] + rest).len() implies is_token(
                #[trigger] (seq![cur] + rest)[k],
            ) by {
                if k > 0 {
                    assert((seq![cur] + rest)[k] == rest[k - 1]);
                } else {
                    assert((seq![cur] + rest)[k] == cur);
                }
            }
            assert(tokens_from(s, cur) == seq![cur] + rest);
        } else {
            assert(tokens_from(s, cur) == tokens_from(s.drop_first(), Seq::empty()));
        }
    }
}

/// Every token is non-empty and consists of ASCII lower-case letters and
/// digits only: tokenizing lower-cases and discards empty strings.
pub proof fn lemma_tokens_are_lowercase_words(text: Seq<char>)
    ensures
        forall|k: int|
            0 <= k < tokenize_spec(text).len() ==> is_token(#[trigger] tokenize_spec(text)[k]),
{
    lemma_tokens_from_shape(strip_meta_spec(text), Seq::empty());
}

proof fn lemma_strip_meta_from_no_brackets(s: Seq<char>, depth: nat)
    ensures
        forall|i: int|
            0 <= i < strip_meta_from(s, depth).len() ==> #[trigger] strip_meta_from(s, depth)[i]
                != '[' && strip_meta_from(s, depth)[i] != ']',
    decreases s.len(),
{
    if s.len() > 0 {
        let c = s[0];
        let rest = s.drop_first();
        if c == '[' {
            lemma_strip_meta_from_no_brackets(rest, depth + 1);
            assert(strip_meta_from(s, depth) == strip_meta_from(rest, depth + 1));
        } else if c == ']' {
            let d: nat = if depth > 0 { (depth - 1) as nat } else { 0 };
            lemma_strip_meta_from_no_brackets(rest, d);
            assert(strip_meta_from(s, depth) == strip_meta_from(rest, d));
        } else if depth > 0 {
            lemma_strip_meta_from_no_brackets(rest, depth);
            assert(strip_meta_from(s, depth) == strip_meta_from(rest, depth));
        } else {
            lemma_strip_meta_from_no_brackets(rest, 0);
            let tail = strip_meta_from(rest, 0);
            assert forall|i: int| 0 <= i < (seq![c] + tail).len() implies #[trigger] (seq![c]
                + tail)[i] != '[' && (seq![c] + tail)[i] != ']' by {
                if i > 0 {
                    assert((seq![c] + tail)[i] == tail[i - 1]);
                }
            }
            assert(strip_meta_from(s, depth) == seq![c] + tail);
        }
    }
}

/// Stripping recogniser markers leaves no bracket behind: bracketed regions
/// go with their brackets, and a stray closing bracket is dropped too.
pub proof fn lemma_stripped_text_has_no_brackets(text: Seq<char>)
    ensures
        forall|i: int|
            0 <= i < strip_meta_spec(text).len() ==> #[trigger] strip_meta_spec(text)[i] != '['
                && strip_meta_spec(text)[i] != ']',
{
    lemma_strip_meta_from_no_brackets(text, 0);
}

/// Text outside brackets survives stripping unchanged: a text without any
/// bracket is its own stripped form.
pub proof fn lemma_bracket_free_text_unchanged(text: Seq<char>)
    requires
        forall|i: int| 0 <= i < text.len() ==> #[trigger] text[i] != '[' && text[i] != ']',
    ensures
        strip_meta_spec(text) == text,
    decreases text.len(),
{
    if text.len() > 0 {
        let rest = text.drop_first();
        assert forall|i: int| 0 <= i < rest.len() implies #[trigger] rest[i] != '[' && rest[i]
            != ']' by {
            assert(rest[i] == text[i + 1]);
        }
        lemma_bracket_free_text_unchanged(rest);
        assert(seq![text[0]] + rest =~= text);
    } else {
        assert(text =~= Seq::<char>::empty());
    }
}

// ---------------------------------------------------------------------------
// Laws of the bleed window
// ---------------------------------------------------------------------------

/// A You segment is in a Meeting segment's bleed window exactly when it ends
/// no more than 500 ms before the Meeting segment starts and starts no more
/// than 3000 ms after the Meeting segment ends.
pub proof fn lemma_overlap_window_bounds(you: Segment, meeting: Segment)
    ensures
        overlaps_spec(you, meeting) <==> (you.end_ms + 500 >= meeting.start_ms && you.start_ms
            <= meeting.end_ms + 3000),
{
}

/// A You segment that starts while a Meeting segment is running (and does
/// not end before it starts) is in its window, however long it lasts.
pub proof fn lemma_start_inside_meeting_overlaps(you: Segment, meeting: Segment)
    requires
        meeting.start_ms <= you.start_ms <= meeting.end_ms,
        you.start_ms <= you.end_ms,
    ensures
        overlaps_spec(you, meeting),
{
}

/// Lengthening a You segment at its end, or moving its start earlier (but
/// not before the Meeting window's lead), never takes it out of a window it
/// was in.
pub proof fn lemma_overlap_survives_widening(you: Segment, wider: Segment, meeting: Segment)
    requires
        overlaps_spec(you, meeting),
        wider.start_ms <= you.start_ms,
        wider.end_ms >= you.end_ms,
    ensures
        overlaps_spec(wider, meeting),
{
}

/// Shifting a You segment and a Meeting segment by the same amount keeps
/// their relation: only their distance matters.
pub proof fn lemma_overlap_shift_invariant(you: Segment, meeting: Segment, you2: Segment, meeting2: Segment, d: int)
    requires
        you2.start_ms == you.start_ms + d,
        you2.end_ms == you.end_ms + d,
        meeting2.start_ms == meeting.start_ms + d,
        meeting2.end_ms == meeting.end_ms + d,
    ensures
        overlaps_spec(you2, meeting2) == overlaps_spec(you, meeting),
{
}

// ---------------------------------------------------------------------------
// Laws of coverage
// ---------------------------------------------------------------------------

/// A word is covered exactly when some Meeting segment whose window the You
/// segment overlaps speaks it; no other Meeting segment has any say.
pub proof fn lemma_covered_iff_spoken_in_overlapping_segment(
    you: Segment,
    meeting: Seq<Segment>,
    tok: Seq<char>,
)
    ensures
        in_window_vocab(you, meeting, tok) <==> exists|j: int|
            0 <= j < meeting.len() && overlaps_spec(you, meeting[j])
                && #[trigger] tokenize_spec(meeting[j].text@).contains(tok),
{
}

/// One overlapping Meeting segment that speaks a word covers it, wherever it
/// stands among the Meeting segments and whatever the others are.
pub proof fn lemma_one_overlapping_segment_covers(
    you: Segment,
    meeting: Seq<Segment>,
    j: int,
    tok: Seq<char>,
)
    requires
        0 <= j < meeting.len(),
        overlaps_spec(you, meeting[j]),
        tokenize_spec(meeting[j].text@).contains(tok),
    ensures
        in_window_vocab(you, meeting, tok),
{
}

proof fn lemma_count_covered_all(toks: Seq<Seq<char>>, you: Segment, meeting: Seq<Segment>)
    requires
        forall|i: int| 0 <= i < toks.len() ==> in_window_vocab(you, meeting, #[trigger] toks[i]),
    ensures
        count_covered(toks, you, meeting) == toks.len(),
    decreases toks.len(),
{
    if toks.len() > 0 {
        lemma_count_covered_all(toks.drop_last(), you, meeting);
        assert(toks.last() == toks[toks.len() - 1]);
    }
}

proof fn lemma_count_covered_bounded(toks: Seq<Seq<char>>, you: Segment, meeting: Seq<Segment>)
    ensures
        count_covered(toks, you, meeting) <= toks.len(),
    decreases toks.len(),
{
    if toks.len() > 0 {
        lemma_count_covered_bounded(toks.drop_last(), you, meeting);
    }
}

proof fn lemma_count_covered_mono(toks: Seq<Seq<char>>, you: Segment, m1: Seq<Segment>, m2: Seq<Segment>)
    requires
        forall|t: Seq<char>| in_window_vocab(you, m1, t) ==> in_window_vocab(you, m2, t),
    ensures
        count_covered(toks, you, m1) <= count_covered(toks, you, m2),
    decreases toks.len(),
{
    if toks.len() > 0 {
        lemma_count_covered_mono(toks.drop_last(), you, m1, m2);
    }
}

/// A You segment with words, every one of which is spoken by a single Meeting
/// segment whose window it overlaps, is bleed: it is dropped whatever the
/// other Meeting segments are and wherever that segment stands.
pub proof fn lemma_fully_spoken_segment_dropped(you: Segment, meeting: Seq<Segment>, j: int)
    requires
        0 <= j < meeting.len(),
        overlaps_spec(you, meeting[j]),
        tokenize_spec(you.text@).len() > 0,
        forall|k: int|
            0 <= k < tokenize_spec(you.text@).len() ==> tokenize_spec(meeting[j].text@).contains(
                #[trigger] tokenize_spec(you.text@)[k],
            ),
    ensures
        is_bleed(you, meeting),
{
    let toks = tokenize_spec(you.text@);
    assert forall|k: int| 0 <= k < toks.len() implies in_window_vocab(you, meeting, #[trigger] toks[k]) by {
        lemma_one_overlapping_segment_covers(you, meeting, j, toks[k]);
    }
    lemma_count_covered_all(toks, you, meeting);
}

/// Inserting, at any position, a Meeting segment whose window a You segment
/// does not overlap leaves that segment's verdict unchanged.
pub proof fn lemma_non_overlapping_meeting_segment_irrelevant(
    you: Segment,
    meeting: Seq<Segment>,
    pos: int,
    extra: Segment,
)
    requires
        0 <= pos <= meeting.len(),
        !overlaps_spec(you, extra),
    ensures
        is_bleed(you, meeting.insert(pos, extra)) == is_bleed(you, meeting),
{
    let more = meeting.insert(pos, extra);
    meeting.insert_ensures(pos, extra);
    assert forall|t: Seq<char>| in_window_vocab(you, more, t) == in_window_vocab(you, meeting, t) by {
        if in_window_vocab(you, more, t) {
            let j = choose|j: int|
                0 <= j < more.len() && overlaps_spec(you, more[j])
                    && #[trigger] tokenize_spec(more[j].text@).contains(t);
            if j < pos {
                assert(more[j] == meeting[j]);
                lemma_one_overlapping_segment_covers(you, meeting, j, t);
            } else if j == pos {
                assert(false);
            } else {
                assert(more[(j - 1) + 1] == meeting[j - 1]);
                lemma_one_overlapping_segment_covers(you, meeting, j - 1, t);
            }
        }
        if in_window_vocab(you, meeting, t) {
            let j = choose|j: int|
                0 <= j < meeting.len() && overlaps_spec(you, meeting[j])
                    && #[trigger] tokenize_spec(meeting[j].text@).contains(t);
            if j < pos {
                assert(more[j] == meeting[j]);
                lemma_one_overlapping_segment_covers(you, more, j, t);
            } else {
                assert(more[j + 1] == meeting[j]);
                lemma_one_overlapping_segment_covers(you, more, j + 1, t);
            }
        }
    }
    lemma_count_covered_ext(tokenize_spec(you.text@), you, more, meeting);
}

/// Inserting, at any position, a Meeting segment whose window no You segment
/// overlaps leaves the result of bleed removal unchanged.
pub proof fn lemma_non_overlapping_meeting_segment_keeps_result(
    you: Seq<Segment>,
    meeting: Seq<Segment>,
    pos: int,
    extra: Segment,
)
    requires
        0 <= pos <= meeting.len(),
        forall|i: int| 0 <= i < you.len() ==> !overlaps_spec(#[trigger] you[i], extra),
    ensures
        dedup_spec(you, meeting.insert(pos, extra)) == dedup_spec(you, meeting),
{
    let more = meeting.insert(pos, extra);
    assert forall|i: int| 0 <= i < you.len() implies #[trigger] is_kept(more)(you[i]) == is_kept(
        meeting,
    )(you[i]) by {
        lemma_non_overlapping_meeting_segment_irrelevant(you[i], meeting, pos, extra);
    }
    lemma_filter_ext(you, is_kept(more), is_kept(meeting));
}

/// More Meeting audio can only drop more: a You segment that is bleed stays
/// bleed when a Meeting segment is added anywhere.
pub proof fn lemma_more_meeting_never_keeps_bleed(
    you: Segment,
    meeting: Seq<Segment>,
    pos: int,
    extra: Segment,
)
    requires
        0 <= pos <= meeting.len(),
        is_bleed(you, meeting),
    ensures
        is_bleed(you, meeting.insert(pos, extra)),
{
    let more = meeting.insert(pos, extra);
    meeting.insert_ensures(pos, extra);
    assert forall|t: Seq<char>| in_window_vocab(you, meeting, t) implies in_window_vocab(you, more, t) by {
        let j = choose|j: int|
            0 <= j < meeting.len() && overlaps_spec(you, meeting[j])
                && #[trigger] tokenize_spec(meeting[j].text@).contains(t);
        if j < pos {
            assert(more[j] == meeting[j]);
            lemma_one_overlapping_segment_covers(you, more, j, t);
        } else {
            assert(more[j + 1] == meeting[j]);
            lemma_one_overlapping_segment_covers(you, more, j + 1, t);
        }
    }
    let toks = tokenize_spec(you.text@);
    lemma_count_covered_mono(toks, you, meeting, more);
    lemma_count_covered_bounded(toks, you, more);
    let a = count_covered(toks, you, meeting);
    let b = count_covered(toks, you, more);
    assert(a * 5 <= b * 5) by (nonlinear_arith)
        requires a <= b;
}

// ---------------------------------------------------------------------------
// Laws of word splitting
// ---------------------------------------------------------------------------

/// ASCII letters and digits, written out.
pub open spec fn is_letter_or_digit(c: char) -> bool {
    ('a' <= c && c <= 'z') || ('A' <= c && c <= 'Z') || ('0' <= c && c <= '9')
}

proof fn lemma_tokens_from_split(a: Seq<char>, c: char, b: Seq<char>, cur: Seq<char>)
    requires
        !is_letter_or_digit(c),
    ensures
        tokens_from(a.push(c) + b, cur) == tokens_from(a, cur) + tokens_from(b, Seq::empty()),
    decreases a.len(),
{
    let s = a.push(c) + b;
    if a.len() == 0 {
        assert(s[0] == c);
        assert(s.drop_first() =~= b);
        if cur.len() > 0 {
            assert(tokens_from(a, cur) == seq![cur]);
        } else {
            assert(tokens_from(a, cur) =~= Seq::<Seq<char>>::empty());
            assert(tokens_from(a, cur) + tokens_from(b, Seq::empty()) =~= tokens_from(
                b,
                Seq::empty(),
            ));
        }
    } else {
        let x = a[0];
        let rest = a.drop_first();
        assert(s[0] == x);
        assert(s.drop_first() =~= rest.push(c) + b);
        if is_ascii_alnum(x) {
            lemma_tokens_from_split(rest, c, b, cur.push(ascii_lower(x)));
        } else if cur.len() > 0 {
            lemma_tokens_from_split(rest, c, b, Seq::empty());
            assert(seq![cur] + (tokens_from(rest, Seq::empty()) + tokens_from(b, Seq::empty()))
                =~= (seq![cur] + tokens_from(rest, Seq::empty())) + tokens_from(b, Seq::empty()));
        } else {
            lemma_tokens_from_split(rest, c, b, Seq::empty());
        }
    }
}

proof fn lemma_tokens_from_run(w: Seq<char>, cur: Seq<char>)
    requires
        forall|i: int| 0 <= i < w.len() ==> is_letter_or_digit(#[trigger] w[i]),
        cur.len() + w.len() > 0,
    ensures
        tokens_from(w, cur) == seq![cur + w.map_values(|c: char| ascii_lower(c))],
    decreases w.len(),
{
    if w.len() == 0 {
        assert(cur + w.map_values(|c: char| ascii_lower(c)) =~= cur);
    } else {
        let rest = w.drop_first();
        assert forall|i: int| 0 <= i < rest.len() implies is_letter_or_digit(#[trigger] rest[i]) by {
            assert(rest[i] == w[i + 1]);
        }
        assert(is_letter_or_digit(w[0]));
        lemma_tokens_from_run(rest, cur.push(ascii_lower(w[0])));
        assert(cur.push(ascii_lower(w[0])) + rest.map_values(|c: char| ascii_lower(c)) =~= cur
            + w.map_values(|c: char| ascii_lower(c)));
    }
}

/// A character that is not an ASCII letter or digit (and not a bracket)
/// separates words: the words of `a`, that character, then `b` are the words
/// of `a` followed by the words of `b`. No word spans such a character.
pub proof fn lemma_separator_splits_words(a: Seq<char>, c: char, b: Seq<char>)
    requires
        !is_letter_or_digit(c),
        c != '[',
        c != ']',
        forall|i: int| 0 <= i < a.len() ==> #[trigger] a[i] != '[' && a[i] != ']',
        forall|i: int| 0 <= i < b.len() ==> #[trigger] b[i] != '[' && b[i] != ']',
    ensures
        tokenize_spec(a.push(c) + b) == tokenize_spec(a) + tokenize_spec(b),
{
    let s = a.push(c) + b;
    assert forall|i: int| 0 <= i < s.len() implies #[trigger] s[i] != '[' && s[i] != ']' by {
        if i < a.len() {
            assert(s[i] == a[i]);
        } else if i == a.len() {
            assert(s[i] == c);
        } else {
            assert(s[i] == b[i - a.len() - 1]);
        }
    }
    lemma_bracket_free_text_unchanged(s);
    lemma_bracket_free_text_unchanged(a);
    lemma_bracket_free_text_unchanged(b);
    lemma_tokens_from_split(a, c, b, Seq::empty());
}

/// A non-empty run of ASCII letters and digits is exactly one word: the run
/// itself, lower-cased.
pub proof fn lemma_letter_run_is_one_word(w: Seq<char>)
    requires
        w.len() > 0,
        forall|i: int| 0 <= i < w.len() ==> is_letter_or_digit(#[trigger] w[i]),
    ensures
        tokenize_spec(w) == seq![w.map_values(|c: char| ascii_lower(c))],
{
    assert forall|i: int| 0 <= i < w.len() implies #[trigger] w[i] != '[' && w[i] != ']' by {
        assert(is_letter_or_digit(w[i]));
    }
    lemma_bracket_free_text_unchanged(w);
    lemma_tokens_from_run(w, Seq::empty());
    assert(Seq::<char>::empty() + w.map_values(|c: char| ascii_lower(c)) =~= w.map_values(
        |c: char| ascii_lower(c),
    ));
}

/// Lower-casing maps `A`..`Z` to `a`..`z` and leaves every other character alone.
pub proof fn lemma_ascii_lower_maps_letters(c: char)
    ensures
        'A' <= c && c <= 'Z' ==> ascii_lower(c) as int == c as int + 32 && 'a' <= ascii_lower(c)
            && ascii_lower(c) <= 'z',
        !('A' <= c && c <= 'Z') ==> ascii_lower(c) == c,
{
}

// ---------------------------------------------------------------------------
// Laws of marker stripping
// ---------------------------------------------------------------------------

/// No bracket in `s`.
pub open spec fn bracket_free(s: Seq<char>) -> bool {
    forall|i: int| 0 <= i < s.len() ==> #[trigger] s[i] != '[' && s[i] != ']'
}

proof fn lemma_strip_from_prefix(a: Seq<char>, t: Seq<char>)
    requires
        bracket_free(a),
    ensures
        strip_meta_from(a + t, 0) == a + strip_meta_from(t, 0),
    decreases a.len(),
{
    if a.len() == 0 {
        assert(a + t =~= t);
        assert(a + strip_meta_from(t, 0) =~= strip_meta_from(t, 0));
    } else {
        let rest = a.drop_first();
        assert(bracket_free(rest)) by {
            assert forall|i: int| 0 <= i < rest.len() implies #[trigger] rest[i] != '[' && rest[i]
                != ']' by {
                assert(rest[i] == a[i + 1]);
            }
        }
        lemma_strip_from_prefix(rest, t);
        assert((a + t)[0] == a[0]);
        assert((a + t).drop_first() =~= rest + t);
        assert(a[0] != '[' && a[0] != ']');
        assert(seq![a[0]] + (rest + strip_meta_from(t, 0)) =~= a + strip_meta_from(t, 0));
    }
}

proof fn lemma_strip_inside(x: Seq<char>, t: Seq<char>, depth: nat)
    requires
        bracket_free(x),
        depth > 0,
    ensures
        strip_meta_from(x + t, depth) == strip_meta_from(t, depth),
    decreases x.len(),
{
    if x.len() == 0 {
        assert(x + t =~= t);
    } else {
        let rest = x.drop_first();
        assert(bracket_free(rest)) by {
            assert forall|i: int| 0 <= i < rest.len() implies #[trigger] rest[i] != '[' && rest[i]
                != ']' by {
                assert(rest[i] == x[i + 1]);
            }
        }
        lemma_strip_inside(rest, t, depth);
        assert((x + t)[0] == x[0]);
        assert((x + t).drop_first() =~= rest + t);
    }
}

proof fn lemma_strip_unclosed(x: Seq<char>, depth: nat)
    requires
        depth > 0,
        forall|i: int| 0 <= i < x.len() ==> #[trigger] x[i] != ']',
    ensures
        strip_meta_from(x, depth) == Seq::<char>::empty(),
    decreases x.len(),
{
    if x.len() > 0 {
        let rest = x.drop_first();
        assert forall|i: int| 0 <= i < rest.len() implies #[trigger] rest[i] != ']' by {
            assert(rest[i] == x[i + 1]);
        }
        if x[0] == '[' {
            lemma_strip_unclosed(rest, depth + 1);
        } else {
            lemma_strip_unclosed(rest, depth);
        }
    }
}

/// A bracketed marker between bracket-free text is removed with its
/// brackets, and nothing else: `a[x]b` strips to `ab`.
pub proof fn lemma_marker_removed(a: Seq<char>, x: Seq<char>, b: Seq<char>)
    requires
        bracket_free(a),
        bracket_free(x),
        bracket_free(b),
    ensures
        strip_meta_spec(a + (seq!['['] + x + seq![']'] + b)) == a + b,
{
    let tail = seq!['['] + x + seq![']'] + b;
    lemma_strip_from_prefix(a, tail);
    assert(tail[0] == '[');
    assert(tail.drop_first() =~= x + (seq![']'] + b));
    lemma_strip_inside(x, seq![']'] + b, 1);
    assert((seq![']'] + b)[0] == ']');
    assert((seq![']'] + b).drop_first() =~= b);
    lemma_bracket_free_text_unchanged(b);
}

/// Markers nest: `a[x[y]z]b` strips to `ab`, the inner closing bracket
/// does not end the outer marker.
pub proof fn lemma_nested_marker_removed(
    a: Seq<char>,
    x: Seq<char>,
    y: Seq<char>,
    z: Seq<char>,
    b: Seq<char>,
)
    requires
        bracket_free(a),
        bracket_free(x),
        bracket_free(y),
        bracket_free(z),
        bracket_free(b),
    ensures
        strip_meta_spec(
            a + (seq!['['] + x + seq!['['] + y + seq![']'] + z + seq![']'] + b),
        ) == a + b,
{
    let tail = seq!['['] + x + seq!['['] + y + seq![']'] + z + seq![']'] + b;
    lemma_strip_from_prefix(a, tail);
    let t1 = seq!['['] + y + seq![']'] + z + seq![']'] + b;
    assert(tail.drop_first() =~= x + t1);
    lemma_strip_inside(x, t1, 1);
    let t2 = y + (seq![']'] + z + seq![']'] + b);
    assert(t1.drop_first() =~= t2);
    lemma_strip_inside(y, seq![']'] + z + seq![']'] + b, 2);
    let t3 = seq![']'] + z + seq![']'] + b;
    assert(t3[0] == ']');
    assert(t3.drop_first() =~= z + (seq![']'] + b));
    lemma_strip_inside(z, seq![']'] + b, 1);
    assert((seq![']'] + b)[0] == ']');
    assert((seq![']'] + b).drop_first() =~= b);
    lemma_bracket_free_text_unchanged(b);
}

/// A marker that is never closed swallows the rest of the text: `a[x` strips
/// to `a` whenever `x` holds no closing bracket.
pub proof fn lemma_unclosed_marker_swallows_rest(a: Seq<char>, x: Seq<char>)
    requires
        bracket_free(a),
        forall|i: int| 0 <= i < x.len() ==> #[trigger] x[i] != ']',
    ensures
        strip_meta_spec(a + (seq!['['] + x)) == a,
{
    lemma_strip_from_prefix(a, seq!['['] + x);
    assert((seq!['['] + x).drop_first() =~= x);
    lemma_strip_unclosed(x, 1);
    assert(a + Seq::<char>::empty() =~= a);
}

// ---------------------------------------------------------------------------
// The bleed verdict in terms of covered words
// ---------------------------------------------------------------------------

proof fn lemma_count_covered_is_filter_len(toks: Seq<Seq<char>>, you: Segment, meeting: Seq<Segment>)
    ensures
        count_covered(toks, you, meeting) == toks.filter(
            |t: Seq<char>| in_window_vocab(you, meeting, t),
        ).len(),
    decreases toks.len(),
{
    reveal(Seq::filter);
    if toks.len() > 0 {
        lemma_count_covered_is_filter_len(toks.drop_last(), you, meeting);
    }
}

/// The verdict counts the covered words (with repetition): a You segment is
/// bleed exactly when it has words and, with `n` words of which `m` are
/// covered, `5m >= 4n` when `n >= 2`, or `m == n` when `n == 1`.
pub proof fn lemma_bleed_verdict_by_covered_words(you: Segment, meeting: Seq<Segment>)
    ensures
        ({
            let toks = tokenize_spec(you.text@);
            let n = toks.len();
            let m = toks.filter(|t: Seq<char>| in_window_vocab(you, meeting, t)).len();
            is_bleed(you, meeting) <==> (n >= 2 && 5 * m >= 4 * n) || (n == 1 && m == 1)
        }),
{
    let toks = tokenize_spec(you.text@);
    lemma_count_covered_is_filter_len(toks, you, meeting);
    lemma_count_covered_bounded(toks, you, meeting);
}

// ---------------------------------------------------------------------------
// Laws of the dedup switch
// ---------------------------------------------------------------------------

/// Every character of `s` is whitespace.
pub open spec fn all_whitespace(s: Seq<char>) -> bool {
    forall|i: int| 0 <= i < s.len() ==> is_unicode_whitespace(#[trigger] s[i])
}

proof fn lemma_all_whitespace_tail(s: Seq<char>)
    requires
        all_whitespace(s),
        s.len() > 0,
    ensures
        all_whitespace(s.drop_first()),
        all_whitespace(s.drop_last()),
{
    assert forall|i: int| 0 <= i < s.drop_first().len() implies is_unicode_whitespace(
        #[trigger] s.drop_first()[i],
    ) by {
        assert(s.drop_first()[i] == s[i + 1]);
    }
    assert forall|i: int| 0 <= i < s.drop_last().len() implies is_unicode_whitespace(
        #[trigger] s.drop_last()[i],
    ) by {
        assert(s.drop_last()[i] == s[i]);
    }
}

proof fn lemma_trim_start_skips_whitespace(p: Seq<char>, t: Seq<char>)
    requires
        all_whitespace(p),
    ensures
        trim_start_spec(p + t) == trim_start_spec(t),
    decreases p.len(),
{
    if p.len() == 0 {
        assert(p + t =~= t);
    } else {
        lemma_all_whitespace_tail(p);
        lemma_trim_start_skips_whitespace(p.drop_first(), t);
        assert((p + t)[0] == p[0]);
        assert((p + t).drop_first() =~= p.drop_first() + t);
    }
}

proof fn lemma_trim_end_skips_whitespace(t: Seq<char>, q: Seq<char>)
    requires
        all_whitespace(q),
    ensures
        trim_end_spec(t + q) == trim_end_spec(t),
    decreases q.len(),
{
    if q.len() == 0 {
        assert(t + q =~= t);
    } else {
        lemma_all_whitespace_tail(q);
        lemma_trim_end_skips_whitespace(t, q.drop_last());
        assert((t + q).last() == q.last());
        assert((t + q).drop_last() =~= t + q.drop_last());
    }
}

proof fn lemma_trim_all_whitespace(q: Seq<char>)
    requires
        all_whitespace(q),
    ensures
        trim_start_spec(q) == Seq::<char>::empty(),
    decreases q.len(),
{
    if q.len() > 0 {
        lemma_all_whitespace_tail(q);
        lemma_trim_all_whitespace(q.drop_first());
    } else {
        assert(q =~= Seq::<char>::empty());
    }
}

proof fn lemma_trim_both_skips_suffix(v: Seq<char>, q: Seq<char>)
    requires
        all_whitespace(q),
    ensures
        trim_end_spec(trim_start_spec(v + q)) == trim_end_spec(trim_start_spec(v)),
    decreases v.len(),
{
    if v.len() == 0 {
        assert(v + q =~= q);
        lemma_trim_all_whitespace(q);
    } else if is_unicode_whitespace(v[0]) {
        lemma_trim_both_skips_suffix(v.drop_first(), q);
        assert((v + q)[0] == v[0]);
        assert((v + q).drop_first() =~= v.drop_first() + q);
    } else {
        assert((v + q)[0] == v[0]);
        lemma_trim_end_skips_whitespace(v, q);
    }
}

/// Whitespace around the switch value does not matter: padding a value with
/// whitespace on either side gives the same verdict.
pub proof fn lemma_switch_ignores_surrounding_whitespace(p: Seq<char>, v: Seq<char>, q: Seq<char>)
    requires
        all_whitespace(p),
        all_whitespace(q),
    ensures
        switch_word(p + v + q) == switch_word(v),
        dedup_enabled_spec(Some(p + v + q)) == dedup_enabled_spec(Some(v)),
{
    assert(p + v + q =~= p + (v + q));
    lemma_trim_start_skips_whitespace(p, v + q);
    lemma_trim_both_skips_suffix(v, q);
}

/// Upper-case ASCII letters in the switch value count as their lower-case
/// forms: the value and its lower-cased form give the same verdict.
pub proof fn lemma_switch_ignores_ascii_case(v: Seq<char>)
    ensures
        switch_word(v.map_values(|c: char| ascii_lower(c))) == switch_word(v),
{
    lemma_trim_lower_commutes(v);
    let t = trim_end_spec(trim_start_spec(v));
    assert(t.map_values(|c: char| ascii_lower(c)).map_values(|c: char| ascii_lower(c)) =~= t.map_values(
        |c: char| ascii_lower(c),
    ));
}

proof fn lemma_trim_lower_commutes(v: Seq<char>)
    ensures
        trim_end_spec(trim_start_spec(v.map_values(|c: char| ascii_lower(c)))) == trim_end_spec(
            trim_start_spec(v),
        ).map_values(|c: char| ascii_lower(c)),
{
    lemma_trim_start_lower(v);
    lemma_trim_end_lower(trim_start_spec(v));
}

proof fn lemma_lower_keeps_whitespace(c: char)
    ensures
        is_unicode_whitespace(ascii_lower(c)) == is_unicode_whitespace(c),
{
}

proof fn lemma_trim_start_lower(v: Seq<char>)
    ensures
        trim_start_spec(v.map_values(|c: char| ascii_lower(c))) == trim_start_spec(v).map_values(
            |c: char| ascii_lower(c),
        ),
    decreases v.len(),
{
    let lv = v.map_values(|c: char| ascii_lower(c));
    if v.len() > 0 {
        lemma_lower_keeps_whitespace(v[0]);
        assert(lv[0] == ascii_lower(v[0]));
        assert(lv.drop_first() =~= v.drop_first().map_values(|c: char| ascii_lower(c)));
        lemma_trim_start_lower(v.drop_first());
    }
}

proof fn lemma_trim_end_lower(v: Seq<char>)
    ensures
        trim_end_spec(v.map_values(|c: char| ascii_lower(c))) == trim_end_spec(v).map_values(
            |c: char| ascii_lower(c),
        ),
    decreases v.len(),
{
    let lv = v.map_values(|c: char| ascii_lower(c));
    if v.len() > 0 {
        lemma_lower_keeps_whitespace(v.last());
        assert(lv.last() == ascii_lower(v.last()));
        assert(lv.drop_last() =~= v.drop_last().map_values(|c: char| ascii_lower(c)));
        lemma_trim_end_lower(v.drop_last());
    }
}

} // verus!
