//! Recovery of the platform's video identifier from arbitrary URL shapes.
use vstd::prelude::*;
use crate::audio::PipelineError;
use crate::text::{chars_of, has_at, has_at_exec, string_of_range};

verus! {

/// Letters, digits, `_` and `-`: the characters of a video identifier.
pub open spec fn is_id_char(c: char) -> bool {
    ('a' <= c && c <= 'z') || ('A' <= c && c <= 'Z') || ('0' <= c && c <= '9') || c == '_'
        || c == '-'
}

/// Length of the identifier anchor (`v=`, `/v/`, `youtu.be/`, `/embed/`,
/// `/shorts/`) that starts at `i`, or 0 where none does.
pub open spec fn anchor_len_at(s: Seq<char>, i: int) -> nat {
    if has_at(s, i, "v="@) {
        "v="@.len()
    } else if has_at(s, i, "/v/"@) {
        "/v/"@.len()
    } else if has_at(s, i, "youtu.be/"@) {
        "youtu.be/"@.len()
    } else if has_at(s, i, "/embed/"@) {
        "/embed/"@.len()
    } else if has_at(s, i, "/shorts/"@) {
        "/shorts/"@.len()
    } else {
        0
    }
}

/// End of the longest run of identifier characters starting at `j`.
pub open spec fn id_run_end(s: Seq<char>, j: int) -> int
    decreases s.len() - j,
{
    if 0 <= j < s.len() && is_id_char(s[j]) {
        id_run_end(s, j + 1)
    } else {
        j
    }
}

/// An anchor starts at `i` and at least one identifier character follows it.
pub open spec fn id_match_at(s: Seq<char>, i: int) -> bool {
    anchor_len_at(s, i) > 0 && id_run_end(s, i + anchor_len_at(s, i)) > i + anchor_len_at(s, i)
}

/// The first position at or after `i` where an identifier match starts.
pub open spec fn first_id_match(s: Seq<char>, i: int) -> Option<int>
    decreases s.len() - i,
{
    if i < 0 || i >= s.len() {
        None
    } else if id_match_at(s, i) {
        Some(i)
    } else {
        first_id_match(s, i + 1)
    }
}

/// The identifier that a URL carries: the identifier run after the
/// leftmost anchor that is followed by one.
pub open spec fn video_id_of(s: Seq<char>) -> Option<Seq<char>> {
    match first_id_match(s, 0) {
        Some(i) => Some(
            s.subrange(i + anchor_len_at(s, i), id_run_end(s, i + anchor_len_at(s, i))),
        ),
        None => None,
    }
}

proof fn lemma_id_run_end_bounds(s: Seq<char>, j: int)
    requires
        0 <= j <= s.len(),
    ensures
        j <= id_run_end(s, j) <= s.len(),
        forall|k: int| j <= k < id_run_end(s, j) ==> is_id_char(#[trigger] s[k]),
    decreases s.len() - j,
{
    if j < s.len() && is_id_char(s[j]) {
        lemma_id_run_end_bounds(s, j + 1);
    }
}

fn is_id_char_exec(c: char) -> (r: bool)
    ensures
        r == is_id_char(c),
{
    ('a' <= c && c <= 'z') || ('A' <= c && c <= 'Z') || ('0' <= c && c <= '9') || c == '_'
        || c == '-'
}

fn id_run_end_exec(cs: &Vec<char>, j: usize) -> (r: usize)
    requires
        j <= cs.len(),
    ensures
        r as int == id_run_end(cs@, j as int),
{
    let mut k: usize = j;
    while k < cs.len() && is_id_char_exec(cs[k])
        invariant
            j <= k <= cs.len(),
            id_run_end(cs@, k as int) == id_run_end(cs@, j as int),
        decreases cs.len() - k,
    {
        k = k + 1;
    }
    k
}

fn anchor_len_exec(cs: &Vec<char>, i: usize) -> (r: usize)
    ensures
        r as nat == anchor_len_at(cs@, i as int),
{
    proof {
        reveal_strlit("v=");
        reveal_strlit("/v/");
        reveal_strlit("youtu.be/");
        reveal_strlit("/embed/");
        reveal_strlit("/shorts/");
    }
    if has_at_exec(cs, i, "v=") {
        2
    } else if has_at_exec(cs, i, "/v/") {
        3
    } else if has_at_exec(cs, i, "youtu.be/") {
        9
    } else if has_at_exec(cs, i, "/embed/") {
        7
    } else if has_at_exec(cs, i, "/shorts/") {
        8
    } else {
        0
    }
}

/// Extracts the video identifier from a URL, or `None` where no anchor
/// is followed by an identifier.
pub fn extract_id(url: &str) -> (r: Option<String>)
    ensures
        r matches Some(id) ==> video_id_of(url@) == Some(id@),
        r is None ==> video_id_of(url@) is None,
{
    let cs = chars_of(url);
    let mut i: usize = 0;
    while i < cs.len()
        invariant
            cs@ == url@,
            i <= cs.len(),
            first_id_match(cs@, 0) == first_id_match(cs@, i as int),
        decreases cs.len() - i,
    {
        let a = anchor_len_exec(&cs, i);
        if a > 0 {
            if a <= cs.len() - i {
                let e = id_run_end_exec(&cs, i + a);
                if e > i + a {
                    proof {
                        lemma_id_run_end_bounds(cs@, (i + a) as int);
                    }
                    return Some(string_of_range(url, i + a, e));
                }
            }
        }
        i = i + 1;
    }
    None
}

/// The video identifier of a URL, or `InvalidUrl` where it carries none.
pub fn resolve_video_id(url: &str) -> (r: Result<String, PipelineError>)
    ensures
        r matches Ok(id) ==> video_id_of(url@) == Some(id@),
        r matches Err(e) ==> video_id_of(url@) is None && e == PipelineError::InvalidUrl,
{
    match extract_id(url) {
        Some(id) => Ok(id),
        None => Err(PipelineError::InvalidUrl),
    }
}

/// The five anchors that precede a video identifier.
pub open spec fn is_anchor(a: Seq<char>) -> bool {
    a == "v="@ || a == "/v/"@ || a == "youtu.be/"@ || a == "/embed/"@ || a == "/shorts/"@
}

proof fn lemma_id_run_end_exact(s: Seq<char>, j: int, e: int)
    requires
        0 <= j <= e <= s.len(),
        forall|k: int| j <= k < e ==> is_id_char(#[trigger] s[k]),
        e == s.len() || !is_id_char(s[e]),
    ensures
        id_run_end(s, j) == e,
    decreases e - j,
{
    if j < e {
        lemma_id_run_end_exact(s, j + 1, e);
    }
}

proof fn lemma_first_id_match_skip(s: Seq<char>, i: int, m: int)
    requires
        0 <= i <= m,
        forall|k: int| i <= k < m ==> !id_match_at(s, k),
    ensures
        first_id_match(s, i) == first_id_match(s, m),
    decreases m - i,
{
    if i < m {
        lemma_first_id_match_skip(s, i + 1, m);
    }
}

/// A URL made of a part with no anchor in it, one of the anchors, an
/// identifier and a rest that does not continue the identifier (empty, or
/// query parameters, or a timestamp) yields exactly that identifier.
pub proof fn lemma_extract_shape(prefix: Seq<char>, anchor: Seq<char>, id: Seq<char>, rest: Seq<char>)
    requires
        is_anchor(anchor),
        id.len() > 0,
        forall|k: int| 0 <= k < id.len() ==> is_id_char(#[trigger] id[k]),
        rest.len() == 0 || !is_id_char(rest[0]),
        forall|k: int| 0 <= k < prefix.len() ==> anchor_len_at(prefix + anchor + id + rest, k) == 0,
    ensures
        video_id_of(prefix + anchor + id + rest) == Some(id),
{
    reveal_strlit("v=");
    reveal_strlit("/v/");
    reveal_strlit("youtu.be/");
    reveal_strlit("/embed/");
    reveal_strlit("/shorts/");
    let s = prefix + anchor + id + rest;
    let p = prefix.len() as int;
    let a = anchor.len() as int;
    let e = p + a + id.len();
    assert(s.subrange(p, p + a) == anchor);
    assert(has_at(s, p, anchor));
    assert(anchor_len_at(s, p) == a) by {
        if anchor == "/v/"@ || anchor == "youtu.be/"@ || anchor == "/embed/"@ || anchor
            == "/shorts/"@ {
            assert(s[p] == anchor[0]);
            assert(!has_at(s, p, "v="@)) by {
                if has_at(s, p, "v="@) {
                    assert(s.subrange(p, p + 2)[0] == s[p]);
                }
            }
        }
        if anchor == "youtu.be/"@ || anchor == "/embed/"@ || anchor == "/shorts/"@ {
            assert(s[p + 1] == anchor[1]);
            assert(!has_at(s, p, "/v/"@)) by {
                if has_at(s, p, "/v/"@) {
                    assert(s.subrange(p, p + 3)[0] == s[p]);
                    assert(s.subrange(p, p + 3)[1] == s[p + 1]);
                }
            }
        }
        if anchor == "/embed/"@ || anchor == "/shorts/"@ {
            assert(!has_at(s, p, "youtu.be/"@)) by {
                if has_at(s, p, "youtu.be/"@) {
                    assert(s.subrange(p, p + 9)[0] == s[p]);
                }
            }
        }
        if anchor == "/shorts/"@ {
            assert(s[p + 1] == anchor[1]);
            assert(!has_at(s, p, "/embed/"@)) by {
                if has_at(s, p, "/embed/"@) {
                    assert(s.subrange(p, p + 7)[1] == s[p + 1]);
                }
            }
        }
    }
    assert forall|k: int| p + a <= k < e implies is_id_char(#[trigger] s[k]) by {
        assert(s[k] == id[k - p - a]);
    }
    if e < s.len() {
        assert(s[e] == rest[0]);
    }
    lemma_id_run_end_exact(s, p + a, e);
    assert forall|k: int| 0 <= k < p implies !id_match_at(s, k) by {
        assert(anchor_len_at(s, k) == 0);
    }
    lemma_first_id_match_skip(s, 0, p);
    assert(s.subrange(p + a, e) == id);
}

/// A URL in which no anchor occurs yields no identifier.
pub proof fn lemma_extract_no_anchor(url: Seq<char>)
    requires
        forall|k: int| 0 <= k < url.len() ==> anchor_len_at(url, k) == 0,
    ensures
        video_id_of(url) is None,
{
    lemma_first_id_match_skip(url, 0, url.len() as int);
}

} // verus!
