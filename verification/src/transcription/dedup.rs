//! Drop mic-channel segments that are acoustic bleed from the system-audio
//! channel (e.g. laptop speakers playing the remote side, which the built-in
//! microphone then picks up again).
//!
//! The system-audio channel is canonical and is never touched. Only `You`
//! segments whose words are largely covered by the words of the `Meeting`
//! segments in an overlapping time window are filtered out.

use vstd::prelude::*;
use crate::transcription::segment::Segment;

verus! {

/// How far (in ms) BEFORE a Meeting segment a You segment may end and still
/// be considered potential bleed. Small: clock skew only.
pub const WINDOW_LEAD_MS: i64 = 500;

/// How far (in ms) AFTER a Meeting segment a You segment may start and still
/// be considered potential bleed. Wide: the acoustic path, the encoder buffer
/// and recogniser segmentation delay the echo by one to two seconds.
pub const WINDOW_LAG_MS: i64 = 3000;

/// The fraction of You tokens that must be found in the overlapping Meeting
/// segments to count as bleed, as numerator / denominator (0.8).
pub const COVERAGE_NUM: u64 = 4;
pub const COVERAGE_DEN: u64 = 5;

/// Below this token count an exact (full-coverage) match is required; this
/// keeps short utterances like "okay" or "yeah" from being dropped too eagerly.
pub const MIN_TOKENS_FOR_PARTIAL: usize = 2;

/// `String::push` (std) appends one character: the contract claims the
/// string afterwards holds its old characters followed by `ch`.
pub assume_specification[ String::push ](s: &mut String, ch: char)
    ensures
        final(s)@ == old(s)@.push(ch),
;

// ---------------------------------------------------------------------------
// Text model
// ---------------------------------------------------------------------------

/// ASCII letters and digits.
pub open spec fn is_ascii_alnum(c: char) -> bool {
    ('a' <= c && c <= 'z') || ('A' <= c && c <= 'Z') || ('0' <= c && c <= '9')
}

/// ASCII upper-case letters map to lower case; every other character is kept.
pub open spec fn ascii_lower(c: char) -> char {
    if 'A' <= c && c <= 'Z' {
        ((c as int) + 32) as char
    } else {
        c
    }
}

/// The text that remains of `s` when reading it with `depth` brackets already
/// open: everything inside `[...]` (brackets included, nesting counted) is
/// removed, and a closing bracket with nothing open is dropped as well.
pub open spec fn strip_meta_from(s: Seq<char>, depth: nat) -> Seq<char>
    decreases s.len(),
{
    if s.len() == 0 {
        Seq::empty()
    } else {
        let c = s[0];
        let rest = s.drop_first();
        if c == '[' {
            strip_meta_from(rest, depth + 1)
        } else if c == ']' {
            strip_meta_from(rest, if depth > 0 { (depth - 1) as nat } else { 0 })
        } else if depth > 0 {
            strip_meta_from(rest, depth)
        } else {
            seq![c] + strip_meta_from(rest, 0)
        }
    }
}

/// `s` with every recogniser meta marker (`[BLANK_AUDIO]`, `[ Pause ]`, ...) removed.
pub open spec fn strip_meta_spec(s: Seq<char>) -> Seq<char> {
    strip_meta_from(s, 0)
}

/// The tokens of `s` given that the token `cur` is being built: maximal runs of
/// ASCII letters and digits, lower-cased; every other character separates.
pub open spec fn tokens_from(s: Seq<char>, cur: Seq<char>) -> Seq<Seq<char>>
    decreases s.len(),
{
    if s.len() == 0 {
        if cur.len() > 0 {
            seq![cur]
        } else {
            Seq::empty()
        }
    } else if is_ascii_alnum(s[0]) {
        tokens_from(s.drop_first(), cur.push(ascii_lower(s[0])))
    } else if cur.len() > 0 {
        seq![cur] + tokens_from(s.drop_first(), Seq::empty())
    } else {
        tokens_from(s.drop_first(), Seq::empty())
    }
}

/// The bag of words of a transcript text, in order.
pub open spec fn tokenize_spec(text: Seq<char>) -> Seq<Seq<char>> {
    tokens_from(strip_meta_spec(text), Seq::empty())
}

/// Removes the content of `[...]` regions, brackets included. Nested brackets
/// are handled by depth counting; unmatched closing brackets are dropped.
pub fn strip_whisper_meta(s: &str) -> (out: String)
    ensures
        out@ == strip_meta_spec(s@),
{
    let n = s.unicode_len();
    let mut out = String::new();
    let mut depth: usize = 0;
    proof {
        assert(s@.skip(0) =~= s@);
    }
    for c in it: s.chars()
        invariant
            n == s@.len(),
            it.seq() == s@,
            depth <= it.index(),
            strip_meta_spec(s@) == out@ + strip_meta_from(s@.skip(it.index() as int), depth as nat),
    {
        let ghost i = it.index() as int;
        let ghost before = out@;
        proof {
            assert(s@.skip(i).drop_first() =~= s@.skip(i + 1));
            assert(s@.skip(i)[0] == c);
        }
        if c == '[' {
            depth = depth + 1;
        } else if c == ']' {
            if depth > 0 {
                depth = depth - 1;
            }
        } else if depth == 0 {
            out.push(c);
            proof {
                assert(before + (seq![c] + strip_meta_from(s@.skip(i + 1), 0)) =~= out@
                    + strip_meta_from(s@.skip(i + 1), 0));
            }
        }
    }
    proof {
        assert(s@.skip(s@.len() as int) =~= Seq::<char>::empty());
        assert(out@ + Seq::<char>::empty() =~= out@);
    }
    out
}

/// The ASCII lower-case form of a character (non-letters are unchanged).
fn lower_ascii(c: char) -> (d: char)
    ensures
        d == ascii_lower(c),
{
    if 'A' <= c && c <= 'Z' {
        ((c as u8) + 32) as char
    } else {
        c
    }
}

/// Lower-cases, strips recogniser meta markers (`[BLANK_AUDIO]`, `[ Pause ]`,
/// `[Music]`, ...), and splits on every character that is not an ASCII letter
/// or digit. Returns the bag of tokens in order; empty tokens are discarded.
pub fn tokenize(text: &str) -> (toks: Vec<String>)
    ensures
        toks.deep_view() == tokenize_spec(text@),
{
    let stripped = strip_whisper_meta(text);
    let s = stripped.as_str();
    let mut out: Vec<String> = Vec::new();
    let mut cur = String::new();
    proof {
        assert(s@.skip(0) =~= s@);
    }
    for c in it: s.chars()
        invariant
            it.seq() == s@,
            s@ == strip_meta_spec(text@),
            tokenize_spec(text@) == out.deep_view() + tokens_from(s@.skip(it.index() as int), cur@),
    {
        let ghost i = it.index() as int;
        let ghost before = out.deep_view();
        proof {
            assert(s@.skip(i).drop_first() =~= s@.skip(i + 1));
            assert(s@.skip(i)[0] == c);
        }
        let alnum = ('a' <= c && c <= 'z') || ('A' <= c && c <= 'Z') || ('0' <= c && c <= '9');
        if alnum {
            let d = lower_ascii(c);
            let ghost old_cur = cur@;
            cur.push(d);
            proof {
                assert(is_ascii_alnum(s@.skip(i)[0]));
                assert(tokens_from(s@.skip(i), old_cur) == tokens_from(s@.skip(i + 1), cur@));
            }
        } else if !cur.as_str().is_empty() {
            let ghost token = cur@;
            let done = cur;
            out.push(done);
            cur = String::new();
            proof {
                assert(out.deep_view() =~= before.push(token));
                assert(before + (seq![token] + tokens_from(s@.skip(i + 1), Seq::empty()))
                    =~= before.push(token) + tokens_from(s@.skip(i + 1), Seq::empty()));
            }
        } else {
            proof {
                assert(cur@ =~= Seq::<char>::empty());
            }
        }
    }
    proof {
        assert(s@.skip(s@.len() as int) =~= Seq::<char>::empty());
    }
    if !cur.as_str().is_empty() {
        let ghost before = out.deep_view();
        let ghost token = cur@;
        out.push(cur);
        proof {
            assert(out.deep_view() =~= before.push(token));
            assert(before + seq![token] =~= before.push(token));
        }
    } else {
        proof {
            assert(out.deep_view() + Seq::<Seq<char>>::empty() =~= out.deep_view());
        }
    }
    out
}

// ---------------------------------------------------------------------------
// Bleed detection
// ---------------------------------------------------------------------------

/// Counters reported by one dedup pass over the You segments.
#[derive(Debug, Clone, Copy, PartialEq, Eq, Structural)]
pub struct DedupStats {
    pub input_count: usize,
    pub dropped_count: usize,
}

impl DedupStats {
    /// The counters of a pass that kept all `input_count` segments.
    pub fn noop(input_count: usize) -> (stats: Self)
        ensures
            stats.input_count == input_count,
            stats.dropped_count == 0,
    {
        Self { input_count, dropped_count: 0 }
    }
}

/// Does `you`'s time range intersect the acoustic-bleed window around
/// `meeting`? The window is asymmetric: bleed arrives after the meeting audio,
/// not before.
pub open spec fn overlaps_spec(you: Segment, meeting: Segment) -> bool {
    &&& you.end_ms >= meeting.start_ms - WINDOW_LEAD_MS
    &&& you.start_ms <= meeting.end_ms + WINDOW_LAG_MS
}

/// Is the word `tok` spoken in some Meeting segment whose bleed window `you`
/// overlaps?
pub open spec fn in_window_vocab(you: Segment, meeting: Seq<Segment>, tok: Seq<char>) -> bool {
    exists|j: int|
        0 <= j < meeting.len() && overlaps_spec(you, meeting[j])
            && #[trigger] tokenize_spec(meeting[j].text@).contains(tok)
}

/// How many of the tokens `toks` (counted with repetition) lie in the window
/// vocabulary of `you`.
pub open spec fn count_covered(toks: Seq<Seq<char>>, you: Segment, meeting: Seq<Segment>) -> nat
    decreases toks.len(),
{
    if toks.len() == 0 {
        0
    } else {
        count_covered(toks.drop_last(), you, meeting) + if in_window_vocab(
            you,
            meeting,
            toks.last(),
        ) {
            1nat
        } else {
            0nat
        }
    }
}

/// A You segment is bleed when it has words, and either it has at least
/// `MIN_TOKENS_FOR_PARTIAL` of them and at least 4/5 of them are found in the
/// overlapping Meeting segments, or it has fewer and all of them are found.
/// The 4/5 ratio is compared exactly in integers (`5 * matched >= 4 * n`);
/// for any segment of fewer than ten million words this is the same verdict
/// as comparing the single-precision coverage with `0.8f32`.
pub open spec fn is_bleed(you: Segment, meeting: Seq<Segment>) -> bool {
    let toks = tokenize_spec(you.text@);
    let matched = count_covered(toks, you, meeting);
    &&& toks.len() > 0
    &&& if toks.len() >= MIN_TOKENS_FOR_PARTIAL {
        matched * COVERAGE_DEN >= toks.len() * COVERAGE_NUM
    } else {
        matched >= toks.len()
    }
}

/// The predicate that keeps a You segment against the given Meeting segments.
pub open spec fn is_kept(meeting: Seq<Segment>) -> spec_fn(Segment) -> bool {
    |y: Segment| !is_bleed(y, meeting)
}

/// The You segments that survive deduplication, in their input order.
pub open spec fn dedup_spec(you: Seq<Segment>, meeting: Seq<Segment>) -> Seq<Segment> {
    you.filter(is_kept(meeting))
}

/// The token lists of the Meeting segments, one per segment.
pub open spec fn token_lists_match(lists: Seq<Vec<String>>, meeting: Seq<Segment>) -> bool {
    &&& lists.len() == meeting.len()
    &&& forall|j: int| 0 <= j < meeting.len() ==> #[trigger] lists[j].deep_view()
        == tokenize_spec(meeting[j].text@)
}

/// Does `you`'s time range intersect the acoustic-bleed window around
/// `meeting`? The window is asymmetric: bleed arrives *after* the meeting
/// audio (encoder and recogniser latency), not before.
pub fn overlaps(you: &Segment, meeting: &Segment) -> (r: bool)
    ensures
        r == overlaps_spec(*you, *meeting),
{
    (you.end_ms as i128) >= (meeting.start_ms as i128) - (WINDOW_LEAD_MS as i128)
        && (you.start_ms as i128) <= (meeting.end_ms as i128) + (WINDOW_LAG_MS as i128)
}

fn meeting_token_lists(meeting: &[Segment]) -> (lists: Vec<Vec<String>>)
    ensures
        token_lists_match(lists@, meeting@),
{
    let mut lists: Vec<Vec<String>> = Vec::new();
    let mut j: usize = 0;
    while j < meeting.len()
        invariant
            j <= meeting@.len(),
            lists@.len() == j,
            forall|jj: int| 0 <= jj < j ==> #[trigger] lists@[jj].deep_view()
                == tokenize_spec(meeting@[jj].text@),
        decreases meeting@.len() - j,
    {
        let toks = tokenize(meeting[j].text.as_str());
        lists.push(toks);
        j += 1;
    }
    lists
}

fn window_has_token(you: &Segment, meeting: &[Segment], lists: &Vec<Vec<String>>, tok: &String) -> (r: bool)
    requires
        token_lists_match(lists@, meeting@),
    ensures
        r == in_window_vocab(*you, meeting@, tok@),
{
    let mut j: usize = 0;
    while j < meeting.len()
        invariant
            j <= meeting@.len(),
            token_lists_match(lists@, meeting@),
            forall|jj: int|
                0 <= jj < j ==> !(overlaps_spec(*you, meeting@[jj]) && #[trigger] tokenize_spec(
                    meeting@[jj].text@,
                ).contains(tok@)),
        decreases meeting@.len() - j,
    {
        if overlaps(you, &meeting[j]) {
            let toks = &lists[j];
            let mut k: usize = 0;
            while k < toks.len()
                invariant
                    k <= toks@.len(),
                    j < meeting@.len(),
                    overlaps_spec(*you, meeting@[j as int]),
                    toks.deep_view() == tokenize_spec(meeting@[j as int].text@),
                    forall|kk: int| 0 <= kk < k ==> toks@[kk]@ != tok@,
                decreases toks@.len() - k,
            {
                if toks[k] == *tok {
                    proof {
                        assert(toks.deep_view()[k as int] == tok@);
                        assert(tokenize_spec(meeting@[j as int].text@).contains(tok@));
                    }
                    return true;
                }
                k += 1;
            }
            proof {
                if tokenize_spec(meeting@[j as int].text@).contains(tok@) {
                    let kk = choose|kk: int|
                        0 <= kk < toks.deep_view().len() && toks.deep_view()[kk] == tok@;
                    assert(toks@[kk]@ == tok@);
                }
            }
        }
        j += 1;
    }
    false
}

fn is_bleed_segment(y: &Segment, meeting: &[Segment], lists: &Vec<Vec<String>>) -> (r: bool)
    requires
        token_lists_match(lists@, meeting@),
    ensures
        r == is_bleed(*y, meeting@),
{
    let y_tokens = tokenize(y.text.as_str());
    let n = y_tokens.len();
    if n == 0 {
        return false;
    }
    let ghost toks = y_tokens.deep_view();
    let mut matched: usize = 0;
    let mut i: usize = 0;
    proof {
        assert(toks.take(0) =~= Seq::<Seq<char>>::empty());
    }
    while i < n
        invariant
            n == y_tokens@.len(),
            toks == y_tokens.deep_view(),
            token_lists_match(lists@, meeting@),
            i <= n,
            matched <= i,
            matched == count_covered(toks.take(i as int), *y, meeting@),
        decreases n - i,
    {
        let hit = window_has_token(y, meeting, lists, &y_tokens[i]);
        proof {
            assert(toks.take(i + 1).drop_last() =~= toks.take(i as int));
            assert(toks.take(i + 1).last() == y_tokens@[i as int]@);
        }
        if hit {
            matched += 1;
        }
        i += 1;
    }
    proof {
        assert(toks.take(n as int) =~= toks);
    }
    if n >= MIN_TOKENS_FOR_PARTIAL {
        (matched as u128) * (COVERAGE_DEN as u128) >= (n as u128) * (COVERAGE_NUM as u128)
    } else {
        matched >= n
    }
}

/// Filters `you` segments that are acoustic bleed from `meeting`. Preserves
/// the input order of kept segments. Meeting segments are never mutated.
pub fn dedup_mic_bleed(you: Vec<Segment>, meeting: &[Segment]) -> (res: (Vec<Segment>, DedupStats))
    ensures
        res.0@ == dedup_spec(you@, meeting@),
        res.1.input_count == you@.len(),
        res.1.dropped_count == you@.len() - res.0@.len(),
{
    let input_count = you.len();
    let ghost ys = you@;
    let lists = meeting_token_lists(meeting);
    let mut kept: Vec<Segment> = Vec::new();
    let mut dropped_count: usize = 0;
    proof {
        assert(ys.take(0) =~= Seq::<Segment>::empty());
        reveal(Seq::filter);
    }
    for y in it: you
        invariant
            it.seq() == ys,
            input_count == ys.len(),
            token_lists_match(lists@, meeting@),
            kept@ == ys.take(it.index() as int).filter(is_kept(meeting@)),
            dropped_count + kept@.len() == it.index(),
    {
        let ghost i = it.index() as int;
        let ghost before = kept@;
        proof {
            assert(ys.take(i + 1) =~= ys.take(i).push(y));
            ys.take(i).lemma_filter_push(y, is_kept(meeting@));
        }
        if is_bleed_segment(&y, meeting, &lists) {
            dropped_count += 1;
        } else {
            kept.push(y);
        }
    }
    proof {
        assert(ys.take(ys.len() as int) =~= ys);
    }
    (kept, DedupStats { input_count, dropped_count })
}

// ---------------------------------------------------------------------------
// The on/off switch
// ---------------------------------------------------------------------------

/// Characters with the Unicode `White_Space` property (what `char::is_whitespace`
/// and `str::trim` go by).
pub open spec fn is_unicode_whitespace(c: char) -> bool {
    ||| ('\u{9}' <= c && c <= '\u{d}')
    ||| c == ' '
    ||| c == '\u{85}'
    ||| c == '\u{a0}'
    ||| c == '\u{1680}'
    ||| ('\u{2000}' <= c && c <= '\u{200a}')
    ||| c == '\u{2028}'
    ||| c == '\u{2029}'
    ||| c == '\u{202f}'
    ||| c == '\u{205f}'
    ||| c == '\u{3000}'
}

/// `s` without its leading whitespace.
pub open spec fn trim_start_spec(s: Seq<char>) -> Seq<char>
    decreases s.len(),
{
    if s.len() > 0 && is_unicode_whitespace(s[0]) {
        trim_start_spec(s.drop_first())
    } else {
        s
    }
}

/// `s` without its trailing whitespace.
pub open spec fn trim_end_spec(s: Seq<char>) -> Seq<char>
    decreases s.len(),
{
    if s.len() > 0 && is_unicode_whitespace(s.last()) {
        trim_end_spec(s.drop_last())
    } else {
        s
    }
}

/// The switch value as it is compared: trimmed and ASCII-lower-cased.
pub open spec fn switch_word(v: Seq<char>) -> Seq<char> {
    trim_end_spec(trim_start_spec(v)).map_values(|c: char| ascii_lower(c))
}

/// Dedup is on unless the switch is set to `0`, `false`, `no` or `off`
/// (ignoring surrounding whitespace and ASCII case).
pub open spec fn dedup_enabled_spec(value: Option<Seq<char>>) -> bool {
    match value {
        None => true,
        Some(v) => {
            let w = switch_word(v);
            !(w == seq!['0'] || w == seq!['f', 'a', 'l', 's', 'e'] || w == seq!['n', 'o'] || w
                == seq!['o', 'f', 'f'])
        },
    }
}

fn is_whitespace_char(c: char) -> (r: bool)
    ensures
        r == is_unicode_whitespace(c),
{
    ('\u{9}' <= c && c <= '\u{d}') || c == ' ' || c == '\u{85}' || c == '\u{a0}' || c
        == '\u{1680}' || ('\u{2000}' <= c && c <= '\u{200a}') || c == '\u{2028}' || c
        == '\u{2029}' || c == '\u{202f}' || c == '\u{205f}' || c == '\u{3000}'
}

fn chars_eq(a: &Vec<char>, b: &[char]) -> (r: bool)
    ensures
        r == (a@ == b@),
{
    if a.len() != b.len() {
        return false;
    }
    let mut i: usize = 0;
    while i < a.len()
        invariant
            a@.len() == b@.len(),
            i <= a@.len(),
            forall|k: int| 0 <= k < i ==> a@[k] == b@[k],
        decreases a@.len() - i,
    {
        if a[i] != b[i] {
            return false;
        }
        i += 1;
    }
    proof {
        assert(a@ =~= b@);
    }
    true
}

fn switch_word_of(v: &str) -> (w: Vec<char>)
    ensures
        w@ == switch_word(v@),
{
    let mut cs: Vec<char> = Vec::new();
    for c in it: v.chars()
        invariant
            it.seq() == v@,
            cs@ == v@.take(it.index() as int),
    {
        proof {
            assert(v@.take(it.index() + 1) =~= v@.take(it.index() as int).push(c));
        }
        cs.push(c);
    }
    proof {
        assert(v@.take(v@.len() as int) =~= v@);
    }
    let n = cs.len();
    let mut lo: usize = 0;
    proof {
        assert(cs@.skip(0) =~= cs@);
    }
    while lo < n && is_whitespace_char(cs[lo])
        invariant
            n == cs@.len(),
            cs@ == v@,
            lo <= n,
            trim_start_spec(cs@) == trim_start_spec(cs@.skip(lo as int)),
        decreases n - lo,
    {
        proof {
            assert(cs@.skip(lo as int).drop_first() =~= cs@.skip(lo + 1));
        }
        lo += 1;
    }
    let ghost t = cs@.skip(lo as int);
    let mut hi: usize = n;
    proof {
        assert(t.take(t.len() as int) =~= t);
    }
    while hi > lo && is_whitespace_char(cs[hi - 1])
        invariant
            n == cs@.len(),
            t == cs@.skip(lo as int),
            lo <= hi <= n,
            trim_end_spec(t) == trim_end_spec(t.take(hi - lo)),
        decreases hi - lo,
    {
        proof {
            assert(t.take(hi - lo).drop_last() =~= t.take(hi - lo - 1));
            assert(t.take(hi - lo).last() == cs@[hi - 1]);
        }
        hi -= 1;
    }
    let ghost trimmed = t.take(hi - lo);
    proof {
        assert(trim_start_spec(cs@) == t);
        assert(trim_end_spec(trimmed) == trimmed);
    }
    let mut w: Vec<char> = Vec::new();
    let mut k: usize = lo;
    while k < hi
        invariant
            n == cs@.len(),
            lo <= k <= hi <= n,
            trimmed == cs@.subrange(lo as int, hi as int),
            w@ == trimmed.take(k - lo).map_values(|c: char| ascii_lower(c)),
        decreases hi - k,
    {
        proof {
            assert(trimmed.take(k - lo + 1) =~= trimmed.take(k - lo).push(cs@[k as int]));
            assert(trimmed.take(k - lo + 1).map_values(|c: char| ascii_lower(c)) =~= trimmed.take(
                k - lo,
            ).map_values(|c: char| ascii_lower(c)).push(ascii_lower(cs@[k as int])));
        }
        let d = lower_ascii(cs[k]);
        w.push(d);
        k += 1;
    }
    proof {
        assert(trimmed.take(hi - lo) =~= trimmed);
    }
    w
}

/// Reads the dedup switch: `None` (unset) leaves dedup on; a value of `0`,
/// `false`, `no` or `off`, in any ASCII case and with surrounding whitespace
/// ignored, turns it off; every other value leaves it on.
pub fn dedup_enabled_from(value: Option<&str>) -> (enabled: bool)
    ensures
        enabled == dedup_enabled_spec(
            match value {
                Some(v) => Some(v@),
                None => None,
            },
        ),
{
    match value {
        None => true,
        Some(v) => {
            let w = switch_word_of(v);
            let zero: [char; 1] = ['0'];
            let fals: [char; 5] = ['f', 'a', 'l', 's', 'e'];
            let no: [char; 2] = ['n', 'o'];
            let off: [char; 3] = ['o', 'f', 'f'];
            proof {
                assert(zero@ =~= seq!['0']);
                assert(fals@ =~= seq!['f', 'a', 'l', 's', 'e']);
                assert(no@ =~= seq!['n', 'o']);
                assert(off@ =~= seq!['o', 'f', 'f']);
            }
            !(chars_eq(&w, &zero) || chars_eq(&w, &fals) || chars_eq(&w, &no) || chars_eq(&w, &off))
        },
    }
}

} // verus!
