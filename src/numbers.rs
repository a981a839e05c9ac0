//! Decimal numerals: unsigned integers, and seconds with a fraction read
//! as whole milliseconds.
use vstd::prelude::*;
use crate::auth::{digit_run_end, is_digit, run_end};

verus! {

/// The value of an ASCII digit.
pub open spec fn digit_value(c: char) -> nat {
    ((c as u32) - ('0' as u32)) as nat
}

/// The value of a run of decimal digits (0 when empty).
pub open spec fn digits_value(s: Seq<char>) -> nat
    decreases s.len(),
{
    if s.len() == 0 {
        0
    } else {
        digits_value(s.drop_last()) * 10 + digit_value(s.last())
    }
}

pub open spec fn all_digits(s: Seq<char>) -> bool {
    forall|i: int| 0 <= i < s.len() ==> is_digit(#[trigger] s[i])
}

/// What `u64`'s `FromStr` accepts: an optional `+`, then one or more
/// digits whose value fits in 64 bits.
pub open spec fn decimal_u64(s: Seq<char>) -> Option<u64> {
    let d = if s.len() > 0 && s[0] == '+' {
        s.drop_first()
    } else {
        s
    };
    if d.len() > 0 && all_digits(d) && digits_value(d) <= u64::MAX {
        Some(digits_value(d) as u64)
    } else {
        None
    }
}

/// Position of the first character after the leading digits of `s`.
pub open spec fn int_end(s: Seq<char>) -> int {
    run_end(s, 0, |c: char| is_digit(c))
}

/// The fraction digit at `i`, or 0 past the end.
pub open spec fn frac_digit(f: Seq<char>, i: int) -> nat {
    if 0 <= i < f.len() {
        digit_value(f[i])
    } else {
        0
    }
}

/// A decimal numeral of seconds (`2.4`, `5`, `.5`, `10.`) as whole
/// milliseconds, truncated toward zero; `None` where `s` is no such numeral.
pub open spec fn seconds_as_ms(s: Seq<char>) -> Option<nat> {
    let p = int_end(s);
    let whole = digits_value(s.take(p));
    if p == s.len() && p > 0 {
        Some(whole * 1000)
    } else if p < s.len() && s[p] == '.' && all_digits(s.skip(p + 1)) && (p > 0 || s.len() > p
        + 1) {
        let f = s.skip(p + 1);
        Some(whole * 1000 + 100 * frac_digit(f, 0) + 10 * frac_digit(f, 1) + frac_digit(f, 2))
    } else {
        None
    }
}

proof fn lemma_digits_value_prefix(s: Seq<char>, k: int, m: int)
    requires
        0 <= k <= m <= s.len(),
    ensures
        digits_value(s.take(k)) <= digits_value(s.take(m)),
    decreases m - k,
{
    if k < m {
        lemma_digits_value_prefix(s, k, m - 1);
        assert(s.take(m).drop_last() == s.take(m - 1));
    }
}

proof fn lemma_run_end_digits(s: Seq<char>, j: int)
    requires
        0 <= j <= s.len(),
    ensures
        j <= run_end(s, j, |c: char| is_digit(c)) <= s.len(),
        forall|i: int| j <= i < run_end(s, j, |c: char| is_digit(c)) ==> is_digit(#[trigger] s[i]),
        run_end(s, j, |c: char| is_digit(c)) < s.len() ==> !is_digit(
            s[run_end(s, j, |c: char| is_digit(c))],
        ),
    decreases s.len() - j,
{
    if j < s.len() && is_digit(s[j]) {
        lemma_run_end_digits(s, j + 1);
    }
}

/// The value of the digits `cs[from..to]`, or `None` where it exceeds
/// 64 bits.
fn digits_to_u64(cs: &Vec<char>, from: usize, to: usize) -> (r: Option<u64>)
    requires
        from <= to <= cs.len(),
        all_digits(cs@.subrange(from as int, to as int)),
    ensures
        r matches Some(v) ==> v as nat == digits_value(cs@.subrange(from as int, to as int)),
        r is None ==> digits_value(cs@.subrange(from as int, to as int)) > u64::MAX,
{
    let ghost d = cs@.subrange(from as int, to as int);
    let mut v: u64 = 0;
    let mut k: usize = from;
    while k < to
        invariant
            from <= k <= to <= cs.len(),
            d == cs@.subrange(from as int, to as int),
            all_digits(d),
            v as nat == digits_value(d.take(k - from)),
        decreases to - k,
    {
        let c = cs[k];
        assert(is_digit(d[k - from]));
        let dv = (c as u32 - '0' as u32) as u64;
        assert(d.take(k - from + 1).drop_last() == d.take(k - from));
        if v > (u64::MAX - dv) / 10 {
            proof {
                lemma_digits_value_prefix(d, k - from + 1, d.len() as int);
                assert(d.take(d.len() as int) == d);
            }
            return None;
        }
        v = v * 10 + dv;
        k = k + 1;
    }
    assert(d.take(to - from) == d);
    Some(v)
}

/// Reads an unsigned decimal integer as `u64`'s `FromStr` does.
pub fn parse_u64(s: &str) -> (r: Option<u64>)
    ensures
        r == decimal_u64(s@),
{
    let cs = crate::text::chars_of(s);
    let start: usize = if cs.len() > 0 && cs[0] == '+' {
        1
    } else {
        0
    };
    let ghost d = if s@.len() > 0 && s@[0] == '+' {
        s@.drop_first()
    } else {
        s@
    };
    assert(d == cs@.subrange(start as int, cs.len() as int));
    if start == cs.len() {
        return None;
    }
    let mut k: usize = start;
    while k < cs.len()
        invariant
            start <= k <= cs.len(),
            cs@ == s@,
            d == cs@.subrange(start as int, cs.len() as int),
            d == (if s@.len() > 0 && s@[0] == '+' {
                s@.drop_first()
            } else {
                s@
            }),
            forall|i: int| start <= i < k ==> is_digit(#[trigger] cs@[i]),
        decreases cs.len() - k,
    {
        if !('0' <= cs[k] && cs[k] <= '9') {
            assert(!is_digit(d[k - start]));
            assert(!all_digits(d));
            return None;
        }
        k = k + 1;
    }
    assert(all_digits(d));
    digits_to_u64(&cs, start, cs.len())
}

fn frac_digit_exec(cs: &Vec<char>, from: usize, i: usize) -> (r: u64)
    requires
        from <= cs.len(),
        all_digits(cs@.skip(from as int)),
        i < 3,
    ensures
        r as nat == frac_digit(cs@.skip(from as int), i as int),
        r <= 9,
{
    if i < cs.len() - from {
        assert(is_digit(cs@.skip(from as int)[i as int]));
        (cs[from + i] as u32 - '0' as u32) as u64
    } else {
        0
    }
}

/// Reads a decimal numeral of seconds as whole milliseconds, truncated
/// toward zero. `None` where `s` is no such numeral or the result exceeds
/// 64 bits.
pub fn seconds_to_ms(s: &str) -> (r: Option<u64>)
    ensures
        r matches Some(v) ==> seconds_as_ms(s@) == Some(v as nat),
        r is None ==> (seconds_as_ms(s@) matches Some(m) ==> m > u64::MAX),
{
    let cs = crate::text::chars_of(s);
    let p = digit_run_end(&cs, 0);
    proof {
        lemma_run_end_digits(cs@, 0);
        assert(cs@.subrange(0, p as int) == s@.take(p as int));
    }
    let whole = match digits_to_u64(&cs, 0, p) {
        Some(w) => w,
        None => {
            return None;
        },
    };
    if p == cs.len() {
        if p == 0 || whole > u64::MAX / 1000 {
            return None;
        }
        return Some(whole * 1000);
    }
    if cs[p] != '.' || (p == 0 && cs.len() == 1) {
        return None;
    }
    let from = p + 1;
    let mut k: usize = from;
    while k < cs.len()
        invariant
            from <= k <= cs.len(),
            cs@ == s@,
            from == p + 1,
            p as int == int_end(s@),
            s@[p as int] == '.',
            forall|i: int| from <= i < k ==> is_digit(#[trigger] cs@[i]),
        decreases cs.len() - k,
    {
        if !('0' <= cs[k] && cs[k] <= '9') {
            assert(!is_digit(s@.skip(from as int)[k - from]));
            assert(!all_digits(s@.skip(from as int)));
            return None;
        }
        k = k + 1;
    }
    assert(all_digits(s@.skip(from as int)));
    let frac = 100 * frac_digit_exec(&cs, from, 0) + 10 * frac_digit_exec(&cs, from, 1)
        + frac_digit_exec(&cs, from, 2);
    if whole > (u64::MAX - frac) / 1000 {
        return None;
    }
    Some(whole * 1000 + frac)
}

} // verus!
