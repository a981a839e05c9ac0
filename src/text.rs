//! Character-level helpers shared by the text scanners.
use vstd::prelude::*;

verus! {

/// True when `p` occurs in `s` starting at position `i`.
pub open spec fn has_at(s: Seq<char>, i: int, p: Seq<char>) -> bool {
    0 <= i && i + p.len() <= s.len() && s.subrange(i, i + p.len()) == p
}

/// The characters of a string slice, in order.
pub fn chars_of(s: &str) -> (r: Vec<char>)
    ensures
        r@ == s@,
{
    let mut r: Vec<char> = Vec::new();
    for c in it: s.chars()
        invariant
            it.seq() == s@,
            r@ == it.seq().take(it.index() as int),
    {
        r.push(c);
    }
    r
}

/// Whether the pattern `p` occurs in `cs` at position `i`.
pub fn has_at_exec(cs: &Vec<char>, i: usize, p: &str) -> (r: bool)
    ensures
        r == has_at(cs@, i as int, p@),
{
    let pc = chars_of(p);
    if pc.len() > cs.len() || i > cs.len() - pc.len() {
        return false;
    }
    let mut k: usize = 0;
    while k < pc.len()
        invariant
            pc@ == p@,
            i + pc.len() <= cs.len(),
            k <= pc.len(),
            forall|j: int| 0 <= j < k ==> cs@[i + j] == pc@[j],
        decreases pc.len() - k,
    {
        if cs[i + k] != pc[k] {
            assert(cs@.subrange(i as int, i + pc.len())[k as int] != pc@[k as int]);
            return false;
        }
        k = k + 1;
    }
    assert(cs@.subrange(i as int, i + pc.len()) =~= pc@);
    true
}

/// A string holding the characters `s[from..to]`.
pub fn string_of_range(s: &str, from: usize, to: usize) -> (r: String)
    requires
        from <= to <= s@.len(),
    ensures
        r@ == s@.subrange(from as int, to as int),
{
    s.substring_char(from, to).to_owned()
}

} // verus!
