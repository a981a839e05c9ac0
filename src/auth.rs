//! Extraction of the short-lived authorization material that the watch
//! page and its player script carry.
use vstd::prelude::*;
use vstd::string::StringExecFns;
use crate::text::{chars_of, has_at, has_at_exec, string_of_range};

verus! {

/// The three anchors that authorization material is found by.
#[derive(Clone, Copy, Debug, PartialEq, Eq, Structural)]
pub enum AnchorKind {
    /// The relative path of the player script, `/s/player/<id>/<path>/base.js`.
    PlayerScript,
    /// The digits after `signatureTimestamp:` in the player script.
    SignatureTimestamp,
    /// The value of the `visitor_data` key/value pair in the watch page.
    VisitorData,
}

/// An anchor that is absent from the text it was looked for in.
#[derive(Clone, Copy, Debug, PartialEq, Eq, Structural)]
pub enum AuthError {
    AnchorNotFound(AnchorKind),
}

/// Authorization material for one video. The proof-of-origin token is
/// never generated, so `po_token` is always `None`.
pub struct AuthData {
    pub visitor_data: String,
    pub signature_timestamp: String,
    pub po_token: Option<String>,
}

/// ASCII word characters: letters, digits and `_`.
pub open spec fn is_word_char(c: char) -> bool {
    ('a' <= c && c <= 'z') || ('A' <= c && c <= 'Z') || ('0' <= c && c <= '9') || c == '_'
}

/// Characters of the player script's path: word characters, `/` and `.`.
pub open spec fn is_path_char(c: char) -> bool {
    is_word_char(c) || c == '/' || c == '.'
}

/// ASCII digits.
pub open spec fn is_digit(c: char) -> bool {
    '0' <= c && c <= '9'
}

/// End of the longest run starting at `j` of characters that satisfy `f`.
pub open spec fn run_end(s: Seq<char>, j: int, f: spec_fn(char) -> bool) -> int
    decreases s.len() - j,
{
    if 0 <= j < s.len() && f(s[j]) {
        run_end(s, j + 1, f)
    } else {
        j
    }
}

/// The largest position in `lo..=k` where `p` occurs.
pub open spec fn last_at_or_before(s: Seq<char>, p: Seq<char>, lo: int, k: int) -> Option<int>
    decreases k - lo + 1,
{
    if k < lo {
        None
    } else if has_at(s, k, p) {
        Some(k)
    } else {
        last_at_or_before(s, p, lo, k - 1)
    }
}

/// Where the player script path that starts at `i` ends, if one does:
/// `/s/player/`, a run of word characters, `/`, then a run of path
/// characters whose last `/base.js` (after at least one character) closes it.
pub open spec fn player_match_end(s: Seq<char>, i: int) -> Option<int> {
    let w = i + "/s/player/"@.len();
    let we = run_end(s, w, |c: char| is_word_char(c));
    let j = we + 1;
    let e = run_end(s, j, |c: char| is_path_char(c));
    if has_at(s, i, "/s/player/"@) && we > w && we < s.len() && s[we] == '/' {
        match last_at_or_before(s, "/base.js"@, j + 1, e - "/base.js"@.len()) {
            Some(k) => Some(k + "/base.js"@.len()),
            None => None,
        }
    } else {
        None
    }
}

/// Where the signature timestamp's digits that follow an anchor at `i`
/// start and end.
pub open spec fn signature_match(s: Seq<char>, i: int) -> Option<(int, int)> {
    let d = i + "signatureTimestamp:"@.len();
    if has_at(s, i, "signatureTimestamp:"@) {
        Some((d, run_end(s, d, |c: char| is_digit(c))))
    } else {
        None
    }
}

/// Where the visitor-data value of a key/value pair at `i` starts and ends.
pub open spec fn visitor_match(s: Seq<char>, i: int) -> Option<(int, int)> {
    let v = i + "{\"key\":\"visitor_data\",\"value\":\""@.len();
    let e = run_end(s, v, |c: char| c != '"');
    if has_at(s, i, "{\"key\":\"visitor_data\",\"value\":\""@) && e > v && has_at(
        s,
        e,
        "\"}"@,
    ) {
        Some((v, e))
    } else {
        None
    }
}

/// The captured span of a match of `kind` that starts at `i`.
pub open spec fn capture_at(kind: AnchorKind, s: Seq<char>, i: int) -> Option<(int, int)> {
    match kind {
        AnchorKind::PlayerScript => match player_match_end(s, i) {
            Some(e) => Some((i, e)),
            None => None,
        },
        AnchorKind::SignatureTimestamp => signature_match(s, i),
        AnchorKind::VisitorData => visitor_match(s, i),
    }
}

/// The captured span of the leftmost match of `kind` at or after `i`.
pub open spec fn first_capture(kind: AnchorKind, s: Seq<char>, i: int) -> Option<(int, int)>
    decreases s.len() - i,
{
    if i < 0 || i > s.len() {
        None
    } else if capture_at(kind, s, i) is Some {
        capture_at(kind, s, i)
    } else if i == s.len() {
        None
    } else {
        first_capture(kind, s, i + 1)
    }
}

/// The value that the anchor `kind` captures in `s`.
pub open spec fn anchor_value(kind: AnchorKind, s: Seq<char>) -> Option<Seq<char>> {
    match first_capture(kind, s, 0) {
        Some((a, b)) => Some(s.subrange(a, b)),
        None => None,
    }
}

proof fn lemma_run_end_bounds(s: Seq<char>, j: int, f: spec_fn(char) -> bool)
    requires
        0 <= j <= s.len(),
    ensures
        j <= run_end(s, j, f) <= s.len(),
    decreases s.len() - j,
{
    if j < s.len() && f(s[j]) {
        lemma_run_end_bounds(s, j + 1, f);
    }
}

fn word_run_end(cs: &Vec<char>, j: usize) -> (r: usize)
    requires
        j <= cs.len(),
    ensures
        r as int == run_end(cs@, j as int, |c: char| is_word_char(c)),
{
    let mut k: usize = j;
    while k < cs.len() && (('a' <= cs[k] && cs[k] <= 'z') || ('A' <= cs[k] && cs[k] <= 'Z') || (
    '0' <= cs[k] && cs[k] <= '9') || cs[k] == '_')
        invariant
            j <= k <= cs.len(),
            run_end(cs@, k as int, |c: char| is_word_char(c)) == run_end(
                cs@,
                j as int,
                |c: char| is_word_char(c),
            ),
        decreases cs.len() - k,
    {
        k = k + 1;
    }
    k
}

fn path_run_end(cs: &Vec<char>, j: usize) -> (r: usize)
    requires
        j <= cs.len(),
    ensures
        r as int == run_end(cs@, j as int, |c: char| is_path_char(c)),
{
    let mut k: usize = j;
    while k < cs.len() && (('a' <= cs[k] && cs[k] <= 'z') || ('A' <= cs[k] && cs[k] <= 'Z') || (
    '0' <= cs[k] && cs[k] <= '9') || cs[k] == '_' || cs[k] == '/' || cs[k] == '.')
        invariant
            j <= k <= cs.len(),
            run_end(cs@, k as int, |c: char| is_path_char(c)) == run_end(
                cs@,
                j as int,
                |c: char| is_path_char(c),
            ),
        decreases cs.len() - k,
    {
        k = k + 1;
    }
    k
}

pub(crate) fn digit_run_end(cs: &Vec<char>, j: usize) -> (r: usize)
    requires
        j <= cs.len(),
    ensures
        r as int == run_end(cs@, j as int, |c: char| is_digit(c)),
{
    let mut k: usize = j;
    while k < cs.len() && '0' <= cs[k] && cs[k] <= '9'
        invariant
            j <= k <= cs.len(),
            run_end(cs@, k as int, |c: char| is_digit(c)) == run_end(
                cs@,
                j as int,
                |c: char| is_digit(c),
            ),
        decreases cs.len() - k,
    {
        k = k + 1;
    }
    k
}

fn unquoted_run_end(cs: &Vec<char>, j: usize) -> (r: usize)
    requires
        j <= cs.len(),
    ensures
        r as int == run_end(cs@, j as int, |c: char| c != '"'),
{
    let mut k: usize = j;
    while k < cs.len() && cs[k] != '"'
        invariant
            j <= k <= cs.len(),
            run_end(cs@, k as int, |c: char| c != '"') == run_end(
                cs@,
                j as int,
                |c: char| c != '"',
            ),
        decreases cs.len() - k,
    {
        k = k + 1;
    }
    k
}

/// The largest position in `lo..=k` where `/base.js` occurs.
fn last_base_js(cs: &Vec<char>, lo: usize, k: usize) -> (r: Option<usize>)
    ensures
        r matches Some(x) ==> last_at_or_before(cs@, "/base.js"@, lo as int, k as int) == Some(
            x as int,
        ) && lo <= x <= k,
        r is None ==> last_at_or_before(cs@, "/base.js"@, lo as int, k as int) is None,
{
    if k < lo {
        return None;
    }
    let mut x: usize = k;
    loop
        invariant
            lo <= x <= k,
            last_at_or_before(cs@, "/base.js"@, lo as int, k as int) == last_at_or_before(
                cs@,
                "/base.js"@,
                lo as int,
                x as int,
            ),
        decreases x,
    {
        if has_at_exec(cs, x, "/base.js") {
            return Some(x);
        }
        if x == lo {
            assert(last_at_or_before(cs@, "/base.js"@, lo as int, x - 1) is None);
            return None;
        }
        x = x - 1;
    }
}

fn capture_at_exec(kind: AnchorKind, cs: &Vec<char>, i: usize) -> (r: Option<(usize, usize)>)
    requires
        i <= cs.len(),
    ensures
        r matches Some((a, b)) ==> capture_at(kind, cs@, i as int) == Some((a as int, b as int))
            && a <= b <= cs.len(),
        r is None ==> capture_at(kind, cs@, i as int) is None,
{
    proof {
        reveal_strlit("/s/player/");
        reveal_strlit("/base.js");
        reveal_strlit("signatureTimestamp:");
        reveal_strlit("{\"key\":\"visitor_data\",\"value\":\"");
        reveal_strlit("\"}");
    }
    match kind {
        AnchorKind::PlayerScript => {
            if !has_at_exec(cs, i, "/s/player/") {
                return None;
            }
            let w = i + 10;
            let we = word_run_end(cs, w);
            proof {
                lemma_run_end_bounds(cs@, w as int, |c: char| is_word_char(c));
            }
            if we == w || we >= cs.len() || cs[we] != '/' {
                return None;
            }
            let j = we + 1;
            let e = path_run_end(cs, j);
            proof {
                lemma_run_end_bounds(cs@, j as int, |c: char| is_path_char(c));
            }
            if e < 8 || j >= cs.len() {
                assert(last_at_or_before(cs@, "/base.js"@, j + 1, e - 8) is None);
                return None;
            }
            match last_base_js(cs, j + 1, e - 8) {
                Some(k) => {
                    Some((i, k + 8))
                },
                None => None,
            }
        },
        AnchorKind::SignatureTimestamp => {
            if !has_at_exec(cs, i, "signatureTimestamp:") {
                return None;
            }
            let d = i + 19;
            let e = digit_run_end(cs, d);
            proof {
                lemma_run_end_bounds(cs@, d as int, |c: char| is_digit(c));
            }
            Some((d, e))
        },
        AnchorKind::VisitorData => {
            if !has_at_exec(cs, i, "{\"key\":\"visitor_data\",\"value\":\"") {
                return None;
            }
            let v = i + 31;
            let e = unquoted_run_end(cs, v);
            proof {
                lemma_run_end_bounds(cs@, v as int, |c: char| c != '"');
            }
            if e > v && has_at_exec(cs, e, "\"}") {
                Some((v, e))
            } else {
                None
            }
        },
    }
}

/// Finds the value that the anchor `kind` captures in `content`: the
/// capture of its leftmost match.
pub fn parse_auth_from_content(kind: AnchorKind, content: &str) -> (r: Result<String, AuthError>)
    ensures
        r matches Ok(v) ==> anchor_value(kind, content@) == Some(v@),
        r matches Err(e) ==> anchor_value(kind, content@) is None && e == AuthError::AnchorNotFound(
            kind,
        ),
{
    let cs = chars_of(content);
    let mut i: usize = 0;
    loop
        invariant
            cs@ == content@,
            i <= cs.len(),
            first_capture(kind, cs@, 0) == first_capture(kind, cs@, i as int),
        decreases cs.len() - i,
    {
        match capture_at_exec(kind, &cs, i) {
            Some((a, b)) => {
                return Ok(string_of_range(content, a, b));
            },
            None => {},
        }
        if i == cs.len() {
            return Err(AuthError::AnchorNotFound(kind));
        }
        i = i + 1;
    }
}

/// The platform's origin, which relative paths are resolved against.
pub open spec fn origin() -> Seq<char> {
    "https://www.youtube.com"@
}

/// The absolute URL of the player script that the watch page refers to.
pub fn player_script_url(html: &str) -> (r: Result<String, AuthError>)
    ensures
        r matches Ok(u) ==> anchor_value(AnchorKind::PlayerScript, html@) matches Some(p) && u@
            == origin() + p,
        r matches Err(e) ==> anchor_value(AnchorKind::PlayerScript, html@) is None && e
            == AuthError::AnchorNotFound(AnchorKind::PlayerScript),
{
    let path = parse_auth_from_content(AnchorKind::PlayerScript, html)?;
    let mut u = "https://www.youtube.com".to_owned();
    u.append(path.as_str());
    Ok(u)
}

/// Authorization material from the watch page and the player script: the
/// signature timestamp from the script, the visitor data from the page.
pub fn auth_from_pages(html: &str, script: &str) -> (r: Result<AuthData, AuthError>)
    ensures
        r matches Ok(a) ==> anchor_value(AnchorKind::SignatureTimestamp, script@) == Some(
            a.signature_timestamp@,
        ) && anchor_value(AnchorKind::VisitorData, html@) == Some(a.visitor_data@)
            && a.po_token is None,
        r matches Err(e) ==> if anchor_value(AnchorKind::SignatureTimestamp, script@) is None {
            e == AuthError::AnchorNotFound(AnchorKind::SignatureTimestamp)
        } else {
            anchor_value(AnchorKind::VisitorData, html@) is None && e == AuthError::AnchorNotFound(
                AnchorKind::VisitorData,
            )
        },
{
    let signature_timestamp = parse_auth_from_content(AnchorKind::SignatureTimestamp, script)?;
    let visitor_data = parse_auth_from_content(AnchorKind::VisitorData, html)?;
    Ok(AuthData { visitor_data, signature_timestamp, po_token: None })
}

} // verus!
