//! A ranged download: which byte range to ask for next, and how far the
//! download has come. The caller fetches each range and writes it out.
use vstd::prelude::*;
use vstd::string::StringExecFns;

verus! {

/// The size of one range request: 9 MiB.
pub const RANGE_WINDOW: u64 = 9437184;

/// The decimal numeral of `n`.
pub open spec fn decimal_of(n: nat) -> Seq<char>
    decreases n,
{
    if n < 10 {
        seq![digit_char(n)]
    } else {
        decimal_of(n / 10) + seq![digit_char(n % 10)]
    }
}

/// The ASCII digit for `d < 10`.
pub open spec fn digit_char(d: nat) -> char {
    "0123456789"@[d as int]
}

/// The inclusive byte range that a download at `downloaded` of `total`
/// bytes asks for next, if any is left.
pub open spec fn range_at(downloaded: nat, total: nat) -> Option<(nat, nat)> {
    if downloaded >= total {
        None
    } else if downloaded + RANGE_WINDOW < total {
        Some((downloaded, (downloaded + RANGE_WINDOW - 1) as nat))
    } else {
        Some((downloaded, (total - 1) as nat))
    }
}

/// The ranges asked for from `downloaded` on when every chunk that comes
/// back is as long as its range.
pub open spec fn planned_ranges(downloaded: nat, total: nat) -> Seq<(nat, nat)>
    decreases total - downloaded,
{
    match range_at(downloaded, total) {
        Some((a, b)) => seq![(a, b)] + planned_ranges(b + 1, total),
        None => Seq::empty(),
    }
}

fn append_decimal(out: &mut String, n: u64)
    ensures
        final(out)@ == old(out)@ + decimal_of(n as nat),
    decreases n,
{
    proof {
        reveal_strlit("0123456789");
    }
    if n >= 10 {
        append_decimal(out, n / 10);
    }
    let d = (n % 10) as usize;
    out.append("0123456789".substring_char(d, d + 1));
    proof {
        assert("0123456789"@.subrange(d as int, d + 1) == seq![digit_char(d as nat)]);
        if n < 10 {
            assert(n % 10 == n);
        }
    }
}

/// The URL of one range request: `url?range=<start>-<end>`.
pub fn range_url(url: &str, start: u64, end: u64) -> (r: String)
    ensures
        r@ == url@ + "?range="@ + decimal_of(start as nat) + "-"@ + decimal_of(end as nat),
{
    let mut u = url.to_owned();
    u.append("?range=");
    append_decimal(&mut u, start);
    u.append("-");
    append_decimal(&mut u, end);
    u
}

/// How far one download has come. `downloaded` never exceeds what the
/// chunks written so far hold.
pub struct DownloadSession {
    pub total_size: u64,
    pub downloaded: u64,
}

impl DownloadSession {
    /// A download of `total_size` bytes, nothing written yet.
    pub fn new(total_size: u64) -> (r: DownloadSession)
        ensures
            r.total_size == total_size,
            r.downloaded == 0,
    {
        DownloadSession { total_size, downloaded: 0 }
    }

    /// The inclusive byte range to ask for next, or `None` once
    /// everything has come.
    pub fn next_range(&self) -> (r: Option<(u64, u64)>)
        ensures
            r matches Some((a, b)) ==> range_at(self.downloaded as nat, self.total_size as nat)
                == Some((a as nat, b as nat)),
            r is None ==> range_at(self.downloaded as nat, self.total_size as nat) is None,
    {
        if self.downloaded >= self.total_size {
            None
        } else if self.total_size >= RANGE_WINDOW && self.downloaded < self.total_size
            - RANGE_WINDOW {
            Some((self.downloaded, self.downloaded + RANGE_WINDOW - 1))
        } else {
            Some((self.downloaded, self.total_size - 1))
        }
    }

    /// Counts a chunk of `len` bytes that was written out.
    pub fn record_chunk(&mut self, len: u64)
        ensures
            final(self).total_size == old(self).total_size,
            final(self).downloaded as nat == if old(self).downloaded + len <= u64::MAX {
                (old(self).downloaded + len) as nat
            } else {
                u64::MAX as nat
            },
    {
        self.downloaded = self.downloaded.saturating_add(len);
    }

    /// Whether every byte has come.
    pub fn is_complete(&self) -> (r: bool)
        ensures
            r == (self.downloaded >= self.total_size),
    {
        self.downloaded >= self.total_size
    }
}

/// When every chunk is as long as its range, the ranges asked for are
/// contiguous, start at 0, end at the last byte, span at most one window
/// each, and the bytes counted at the end are exactly the total.
pub proof fn lemma_full_chunks(downloaded: nat, total: nat)
    requires
        downloaded <= total,
    ensures
        ({
            let rs = planned_ranges(downloaded, total);
            &&& total > downloaded ==> rs.len() > 0 && rs[0].0 == downloaded && rs.last().1 + 1
                == total
            &&& total == downloaded ==> rs.len() == 0
            &&& forall|i: int| 0 <= i < rs.len() ==> #[trigger] rs[i].0 <= rs[i].1 && rs[i].1 + 1
                - rs[i].0 <= RANGE_WINDOW
            &&& forall|i: int| 0 <= i < rs.len() - 1 ==> #[trigger] rs[i].1 + 1 == rs[i + 1].0
            &&& downloaded + sum_widths(rs) == total
        }),
    decreases total - downloaded,
{
    let rs = planned_ranges(downloaded, total);
    if let Some((a, b)) = range_at(downloaded, total) {
        lemma_full_chunks(b + 1, total);
        let rest = planned_ranges(b + 1, total);
        assert(rs == seq![(a, b)] + rest);
        assert forall|i: int| 0 < i < rs.len() implies #[trigger] rs[i].0 <= rs[i].1 && rs[i].1 + 1
            - rs[i].0 <= RANGE_WINDOW by {
            assert(rs[i] == rest[i - 1]);
        }
        assert forall|i: int| 0 <= i < rs.len() - 1 implies #[trigger] rs[i].1 + 1 == rs[i + 1].0 by {
            if i > 0 {
                assert(rs[i] == rest[i - 1]);
                assert(rs[i + 1] == rest[i]);
            }
        }
        assert(rs.drop_first() == rest);
        if rest.len() > 0 {
            assert(rs.last() == rest.last());
        }
    }
}

/// The bytes that the ranges of `rs` span together.
pub open spec fn sum_widths(rs: Seq<(nat, nat)>) -> nat
    decreases rs.len(),
{
    if rs.len() == 0 {
        0
    } else {
        ((rs[0].1 + 1 - rs[0].0) as nat) + sum_widths(rs.drop_first())
    }
}

} // verus!
