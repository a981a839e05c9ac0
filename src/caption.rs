//! Caption tracks: choosing one, cleaning its timed-text document, and
//! turning its cues into subtitle entries.
use vstd::prelude::*;
use vstd::string::StringExecFns;
use crate::numbers::{seconds_as_ms, seconds_to_ms};
use crate::text::{chars_of, has_at, has_at_exec};

verus! {

/// What `char::is_whitespace` accepts: the Unicode `White_Space` characters.
pub open spec fn is_space(c: char) -> bool {
    ('\u{9}' <= c && c <= '\u{d}') || c == ' ' || c == '\u{85}' || c == '\u{a0}' || c
        == '\u{1680}' || ('\u{2000}' <= c && c <= '\u{200a}') || c == '\u{2028}' || c
        == '\u{2029}' || c == '\u{202f}' || c == '\u{205f}' || c == '\u{3000}'
}

fn is_space_exec(c: char) -> (r: bool)
    ensures
        r == is_space(c),
{
    ('\u{9}' <= c && c <= '\u{d}') || c == ' ' || c == '\u{85}' || c == '\u{a0}' || c
        == '\u{1680}' || ('\u{2000}' <= c && c <= '\u{200a}') || c == '\u{2028}' || c
        == '\u{2029}' || c == '\u{202f}' || c == '\u{205f}' || c == '\u{3000}'
}

/// Number of leading whitespace characters of `s` from `j` on.
pub open spec fn lead_end(s: Seq<char>, j: int) -> int
    decreases s.len() - j,
{
    if 0 <= j < s.len() && is_space(s[j]) {
        lead_end(s, j + 1)
    } else {
        j
    }
}

/// Start of the trailing whitespace of `s.take(k)`.
pub open spec fn trail_start(s: Seq<char>, k: int) -> int
    decreases k,
{
    if 0 < k <= s.len() && is_space(s[k - 1]) {
        trail_start(s, k - 1)
    } else {
        k
    }
}

/// `s` without leading and trailing whitespace, as `str::trim` gives it.
pub open spec fn trimmed(s: Seq<char>) -> Seq<char> {
    let a = lead_end(s, 0);
    if a >= s.len() {
        Seq::empty()
    } else {
        s.subrange(a, trail_start(s, s.len() as int))
    }
}

/// `s` with every occurrence of `p` removed, scanning left to right, as
/// `str::replace(p, "")` gives it.
pub open spec fn without(s: Seq<char>, p: Seq<char>) -> Seq<char>
    decreases s.len(),
{
    if s.len() == 0 {
        s
    } else if p.len() > 0 && has_at(s, 0, p) {
        without(s.skip(p.len() as int), p)
    } else {
        seq![s[0]] + without(s.skip(1), p)
    }
}

/// The XML declaration with double quotes and a space before `?>`.
pub open spec fn declaration_double() -> Seq<char> {
    "<?xml version=\"1.0\" encoding=\"utf-8\" ?>"@
}

/// The XML declaration with single quotes.
pub open spec fn declaration_single() -> Seq<char> {
    "<?xml version='1.0' encoding='UTF-8'?>"@
}

/// A timed-text document with both declaration variants and the
/// surrounding whitespace removed.
pub open spec fn cleaned_document(s: Seq<char>) -> Seq<char> {
    trimmed(without(without(trimmed(s), declaration_double()), declaration_single()))
}

proof fn lemma_lead_end_bounds(s: Seq<char>, j: int)
    requires
        0 <= j <= s.len(),
    ensures
        j <= lead_end(s, j) <= s.len(),
    decreases s.len() - j,
{
    if j < s.len() && is_space(s[j]) {
        lemma_lead_end_bounds(s, j + 1);
    }
}

proof fn lemma_trail_start_bounds(s: Seq<char>, a: int, k: int)
    requires
        0 <= a < k <= s.len(),
        !is_space(s[a]),
    ensures
        a < trail_start(s, k) <= k,
    decreases k,
{
    if is_space(s[k - 1]) {
        lemma_trail_start_bounds(s, a, k - 1);
    }
}

/// Removes leading and trailing whitespace.
pub fn trim_text(s: &str) -> (r: String)
    ensures
        r@ == trimmed(s@),
{
    let cs = chars_of(s);
    let mut a: usize = 0;
    while a < cs.len() && is_space_exec(cs[a])
        invariant
            a <= cs.len(),
            lead_end(cs@, a as int) == lead_end(cs@, 0),
        decreases cs.len() - a,
    {
        a = a + 1;
    }
    if a >= cs.len() {
        return String::new();
    }
    let mut b: usize = cs.len();
    while b > a && is_space_exec(cs[b - 1])
        invariant
            a < cs.len(),
            a < b <= cs.len(),
            !is_space(cs@[a as int]),
            trail_start(cs@, b as int) == trail_start(cs@, cs.len() as int),
        decreases b,
    {
        b = b - 1;
    }
    assert(trail_start(cs@, b as int) == b as int);
    s.substring_char(a, b).to_owned()
}

proof fn lemma_without_step(s: Seq<char>, p: Seq<char>, i: int)
    requires
        0 <= i < s.len(),
    ensures
        p.len() > 0 && has_at(s, i, p) ==> without(s.skip(i), p) == without(
            s.skip(i + p.len()),
            p,
        ),
        !(p.len() > 0 && has_at(s, i, p)) ==> without(s.skip(i), p) == seq![s[i]] + without(
            s.skip(i + 1),
            p,
        ),
{
    let t = s.skip(i);
    if i + p.len() <= s.len() {
        assert(t.subrange(0, p.len() as int) == s.subrange(i, i + p.len()));
    }
    if p.len() > 0 && has_at(s, i, p) {
        assert(t.skip(p.len() as int) == s.skip(i + p.len()));
    } else {
        assert(t.skip(1) == s.skip(i + 1));
    }
}

/// Removes every occurrence of `p` from `s`, left to right.
pub fn remove_text(s: &str, p: &str) -> (r: String)
    ensures
        r@ == without(s@, p@),
{
    let cs = chars_of(s);
    let plen = chars_of(p).len();
    let mut out = String::new();
    let mut seg: usize = 0;
    let mut i: usize = 0;
    assert(cs@.skip(0) == cs@);
    while i < cs.len()
        invariant
            cs@ == s@,
            plen == p@.len(),
            seg <= i <= cs.len(),
            out@ + cs@.subrange(seg as int, i as int) + without(cs@.skip(i as int), p@) == without(
                cs@,
                p@,
            ),
        decreases cs.len() - i,
    {
        proof {
            lemma_without_step(cs@, p@, i as int);
        }
        if plen > 0 && has_at_exec(&cs, i, p) {
            let ghost before = out@;
            out.append(s.substring_char(seg, i));
            assert(out@ == before + cs@.subrange(seg as int, i as int));
            i = i + plen;
            seg = i;
            assert(cs@.subrange(seg as int, i as int) == Seq::<char>::empty());
        } else {
            assert(cs@.subrange(seg as int, i + 1) == cs@.subrange(seg as int, i as int) + seq![
                cs@[i as int],
            ]);
            i = i + 1;
        }
    }
    assert(cs@.skip(i as int) == Seq::<char>::empty());
    let ghost before = out@;
    out.append(s.substring_char(seg, i));
    assert(out@ == before + cs@.subrange(seg as int, i as int));
    out
}

/// A timed-text document with both declaration variants and the
/// surrounding whitespace removed.
pub fn preprocess_xml(xml_content: &str) -> (r: String)
    ensures
        r@ == cleaned_document(xml_content@),
{
    let t = trim_text(xml_content);
    let a = remove_text(t.as_str(), "<?xml version=\"1.0\" encoding=\"utf-8\" ?>");
    let b = remove_text(a.as_str(), "<?xml version='1.0' encoding='UTF-8'?>");
    trim_text(b.as_str())
}

/// One caption track as the platform lists it.
pub struct CaptionItem {
    pub base_url: String,
    pub vss_id: String,
}

/// `s` contains `p`.
pub open spec fn contains(s: Seq<char>, p: Seq<char>) -> bool {
    exists|i: int| has_at(s, i, p)
}

/// The first track at or after `i` whose language tag contains `en`.
pub open spec fn first_english(tracks: Seq<CaptionItem>, i: int) -> Option<int>
    decreases tracks.len() - i,
{
    if i < 0 || i >= tracks.len() {
        None
    } else if contains(tracks[i].vss_id@, "en"@) {
        Some(i)
    } else {
        first_english(tracks, i + 1)
    }
}

/// The track to take: the only one; among several the first tagged `en`,
/// else the first; none from an empty list.
pub open spec fn chosen_caption(tracks: Seq<CaptionItem>) -> Option<int> {
    if tracks.len() == 0 {
        None
    } else if tracks.len() == 1 {
        Some(0)
    } else {
        match first_english(tracks, 0) {
            Some(i) => Some(i),
            None => Some(0),
        }
    }
}

/// Whether `s` contains `p`.
pub fn contains_text(s: &str, p: &str) -> (r: bool)
    ensures
        r == contains(s@, p@),
{
    let cs = chars_of(s);
    let mut i: usize = 0;
    while i < cs.len()
        invariant
            cs@ == s@,
            i <= cs.len(),
            forall|j: int| 0 <= j < i ==> !has_at(cs@, j, p@),
        decreases cs.len() - i,
    {
        if has_at_exec(&cs, i, p) {
            return true;
        }
        i = i + 1;
    }
    if has_at_exec(&cs, i, p) {
        return true;
    }
    assert forall|j: int| !has_at(cs@, j, p@) by {
        if 0 <= j < i {
        }
    }
    false
}

/// Index of the caption track to take, as `chosen_caption` says.
pub fn select_caption(tracks: &Vec<CaptionItem>) -> (r: Option<usize>)
    ensures
        r matches Some(i) ==> chosen_caption(tracks@) == Some(i as int) && i < tracks.len(),
        r is None ==> chosen_caption(tracks@) is None,
{
    if tracks.len() == 0 {
        return None;
    }
    if tracks.len() == 1 {
        return Some(0);
    }
    let mut i: usize = 0;
    while i < tracks.len()
        invariant
            i <= tracks.len(),
            first_english(tracks@, 0) == first_english(tracks@, i as int),
        decreases tracks.len() - i,
    {
        if contains_text(tracks[i].vss_id.as_str(), "en") {
            return Some(i);
        }
        i = i + 1;
    }
    Some(0)
}

/// One cue of a timed-text document, with its attributes as written.
pub struct TimedText {
    pub start: String,
    pub dur: String,
    pub text: String,
}

/// One subtitle: its start and length in milliseconds, and its text.
pub struct SubtitleEntry {
    pub timestamp: u64,
    pub duration: u32,
    pub text: String,
}

/// A cue whose start and duration read as milliseconds that fit their
/// fields.
pub open spec fn cue_decodes(c: TimedText) -> bool {
    &&& seconds_as_ms(c.start@) matches Some(t) && t <= u64::MAX
    &&& seconds_as_ms(c.dur@) matches Some(d) && d <= u32::MAX
}

/// `e` is the subtitle entry that the cue `c` decodes to.
pub open spec fn entry_of_cue(e: SubtitleEntry, c: TimedText) -> bool {
    &&& seconds_as_ms(c.start@) == Some(e.timestamp as nat)
    &&& seconds_as_ms(c.dur@) == Some(e.duration as nat)
    &&& e.text@ == c.text@
}

/// The subtitle entry of one cue, or `None` where the cue does not decode.
pub fn subtitle_entry(cue: &TimedText) -> (r: Option<SubtitleEntry>)
    ensures
        r matches Some(e) ==> cue_decodes(*cue) && entry_of_cue(e, *cue),
        r is None ==> !cue_decodes(*cue),
{
    let timestamp = match seconds_to_ms(cue.start.as_str()) {
        Some(t) => t,
        None => {
            return None;
        },
    };
    let d = match seconds_to_ms(cue.dur.as_str()) {
        Some(d) => d,
        None => {
            return None;
        },
    };
    if d > u32::MAX as u64 {
        return None;
    }
    Some(SubtitleEntry { timestamp, duration: d as u32, text: cue.text.clone() })
}

/// The subtitle entries of a document's cues, in order; empty where any
/// cue does not decode, since a malformed document yields no subtitles.
pub fn subtitles_from_cues(cues: &Vec<TimedText>) -> (r: Vec<SubtitleEntry>)
    ensures
        (forall|i: int| 0 <= i < cues.len() ==> cue_decodes(#[trigger] cues@[i])) ==> r.len()
            == cues.len() && forall|i: int|
            0 <= i < cues.len() ==> entry_of_cue(#[trigger] r@[i], cues@[i]),
        !(forall|i: int| 0 <= i < cues.len() ==> cue_decodes(#[trigger] cues@[i])) ==> r.len()
            == 0,
{
    let mut out: Vec<SubtitleEntry> = Vec::new();
    let mut i: usize = 0;
    while i < cues.len()
        invariant
            i <= cues.len(),
            out.len() == i,
            forall|j: int| 0 <= j < i ==> cue_decodes(#[trigger] cues@[j]),
            forall|j: int| 0 <= j < i ==> entry_of_cue(#[trigger] out@[j], cues@[j]),
        decreases cues.len() - i,
    {
        match subtitle_entry(&cues[i]) {
            Some(e) => {
                out.push(e);
            },
            None => {
                return Vec::new();
            },
        }
        i = i + 1;
    }
    out
}

} // verus!
