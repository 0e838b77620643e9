//! Namespaced-range proofs as plain data, and the coverage discipline over
//! them: the per-row share intervals of one blob must tile `[0, total)`
//! without gap or overlap, in ascending order.

use vstd::prelude::*;

verus! {

/// One namespaced range proof, as fetched for a single row: the half-open
/// share interval it covers within the blob, and the sibling hashes.
#[derive(Clone)]
pub struct NmtRangeProof {
    pub start: u64,
    pub end: u64,
    pub siblings: Vec<Vec<u8>>,
}

/// Mathematical model of a namespaced range proof.
#[verifier::ext_equal]
pub ghost struct NmtRangeProofModel {
    pub start: u64,
    pub end: u64,
    pub siblings: Seq<Seq<u8>>,
}

impl View for NmtRangeProof {
    type V = NmtRangeProofModel;

    open spec fn view(&self) -> NmtRangeProofModel {
        NmtRangeProofModel {
            start: self.start,
            end: self.end,
            siblings: self.siblings@.map_values(|s: Vec<u8>| s@),
        }
    }
}

impl NmtRangeProofModel {
    /// Every sibling is a 90-byte namespaced root and the range is ordered.
    pub open spec fn wf(self) -> bool {
        &&& self.start <= self.end <= u32::MAX
        &&& forall|i: int|
            0 <= i < self.siblings.len() ==> (#[trigger] self.siblings[i]).len() == 90
    }
}

impl NmtRangeProof {
    /// Every sibling is a 90-byte namespaced root and the range is ordered.
    pub open spec fn wf(&self) -> bool {
        self@.wf()
    }
}

/// The half-open interval of one proof.
pub open spec fn spec_interval(p: NmtRangeProofModel) -> (int, int) {
    (p.start as int, p.end as int)
}

/// The intervals `[start, end)` tile `[0, total)` in order: each interval is
/// ordered, each begins where the previous one ended, the first begins at 0,
/// and the last ends at `total`. An empty list covers only `total == 0`.
pub open spec fn spec_covers(iv: Seq<(int, int)>, total: int) -> bool {
    &&& forall|i: int| 0 <= i < iv.len() ==> (#[trigger] iv[i]).0 <= iv[i].1
    &&& forall|i: int| 1 <= i < iv.len() ==> (#[trigger] iv[i]).0 == iv[i - 1].1
    &&& if iv.len() == 0 {
        total == 0
    } else {
        iv[0].0 == 0 && iv[iv.len() - 1].1 == total
    }
}

/// The intervals of a list of proofs.
pub open spec fn spec_intervals(proofs: Seq<NmtRangeProofModel>) -> Seq<(int, int)> {
    proofs.map_values(|p: NmtRangeProofModel| (p.start as int, p.end as int))
}

/// Checks that the proofs' intervals tile `[0, total_shares)` in order.
pub fn check_share_coverage(proofs: &Vec<NmtRangeProof>, total_shares: u64) -> (r: bool)
    ensures
        r <==> spec_covers(
            spec_intervals(proofs@.map_values(|p: NmtRangeProof| p@)),
            total_shares as int,
        ),
{
    let ghost iv = spec_intervals(proofs@.map_values(|p: NmtRangeProof| p@));
    proof {
        assert(iv.len() == proofs@.len());
        assert(forall|i: int|
            0 <= i < proofs@.len() ==> #[trigger] iv[i] == (
                proofs@[i].start as int,
                proofs@[i].end as int,
            ));
    }
    let n: usize = proofs.len();
    if n == 0 {
        return total_shares == 0;
    }
    if proofs[0].start != 0 {
        assert(iv[0].0 != 0);
        return false;
    }
    let mut i: usize = 0;
    while i < n
        invariant
            i <= n,
            n == proofs@.len(),
            n >= 1,
            iv == spec_intervals(proofs@.map_values(|p: NmtRangeProof| p@)),
            iv.len() == n,
            forall|j: int|
                0 <= j < n ==> #[trigger] iv[j] == (
                    proofs@[j].start as int,
                    proofs@[j].end as int,
                ),
            iv[0].0 == 0,
            forall|j: int| 0 <= j < i ==> (#[trigger] iv[j]).0 <= iv[j].1,
            forall|j: int| 1 <= j < i ==> (#[trigger] iv[j]).0 == iv[j - 1].1,
        decreases n - i,
    {
        if proofs[i].start > proofs[i].end {
            assert(iv[i as int].0 > iv[i as int].1);
            return false;
        }
        if i >= 1 && proofs[i].start != proofs[i - 1].end {
            assert(iv[i as int].0 != iv[i as int - 1].1);
            return false;
        }
        i = i + 1;
    }
    if proofs[n - 1].end != total_shares {
        assert(iv[n as int - 1].1 != total_shares as int);
        return false;
    }
    true
}

/// Plans the per-row share intervals of one blob, in row-ascending order:
/// one non-empty half-open interval of blob-share positions per row the blob
/// occupies. The intervals tile `[0, share_count)` exactly — this is the
/// coverage the fetched proofs are later held to.
pub fn plan_share_ranges(ods_index: u64, share_count: u64, ods_size: u64) -> (r: Vec<(u64, u64)>)
    requires
        share_count >= 1,
        ods_size >= 1,
        ods_index + share_count <= u64::MAX,
    ensures
        spec_covers(
            r@.map_values(|iv: (u64, u64)| (iv.0 as int, iv.1 as int)),
            share_count as int,
        ),
        forall|i: int| 0 <= i < r@.len() ==> (#[trigger] r@[i]).0 < r@[i].1,
        r@.len() >= 1,
{
    let ghost ivs = |v: Seq<(u64, u64)>| v.map_values(|iv: (u64, u64)| (iv.0 as int, iv.1 as int));
    let mut out: Vec<(u64, u64)> = Vec::new();
    let mut c: u64 = 0;
    while c < share_count
        invariant
            c <= share_count,
            ods_size >= 1,
            ods_index + share_count <= u64::MAX,
            c == 0 ==> out@.len() == 0,
            c > 0 ==> out@.len() >= 1 && (out@.last().1 == c),
            forall|i: int| 0 <= i < out@.len() ==> (#[trigger] out@[i]).0 < out@[i].1,
            forall|i: int| 1 <= i < out@.len() ==> (#[trigger] out@[i]).0 == out@[i - 1].1,
            out@.len() > 0 ==> out@[0].0 == 0,
        decreases share_count - c,
    {
        let g: u64 = ods_index + c;
        let room: u64 = ods_size - (g % ods_size);
        let remaining: u64 = share_count - c;
        let take: u64 = if room < remaining {
            room
        } else {
            remaining
        };
        proof {
            assert(g % ods_size < ods_size) by (nonlinear_arith)
                requires
                    ods_size >= 1,
                    g >= 0,
            ;
        }
        out.push((c, c + take));
        c = c + take;
    }
    proof {
        let m = ivs(out@);
        assert(forall|i: int| 0 <= i < m.len() ==> m[i] == (out@[i].0 as int, out@[i].1 as int));
        assert(m[m.len() - 1].1 == share_count as int);
        assert(spec_covers(m, share_count as int));
    }
    out
}

/// In a tiling of `[0, total)`, every interval's start stays at or above 0.
proof fn lemma_interval_lower(iv: Seq<(int, int)>, total: int, i: int)
    requires
        spec_covers(iv, total),
        0 <= i < iv.len(),
    ensures
        iv[i].0 >= 0,
    decreases i,
{
    if i > 0 {
        lemma_interval_lower(iv, total, i - 1);
        assert(iv[i].0 == iv[i - 1].1);
        assert(iv[i - 1].0 <= iv[i - 1].1);
    }
}

/// In a tiling of `[0, total)`, every interval's end stays at or below
/// `total`.
proof fn lemma_interval_upper(iv: Seq<(int, int)>, total: int, i: int)
    requires
        spec_covers(iv, total),
        0 <= i < iv.len(),
    ensures
        iv[i].1 <= total,
    decreases iv.len() - i,
{
    if i == iv.len() - 1 {
    } else {
        lemma_interval_upper(iv, total, i + 1);
        assert(iv[i + 1].0 == iv[i].1);
        assert(iv[i + 1].0 <= iv[i + 1].1);
    }
}

/// In a tiling of `[0, total)`, every interval lies inside `[0, total]`.
pub proof fn lemma_interval_bounds(iv: Seq<(int, int)>, total: int, i: int)
    requires
        spec_covers(iv, total),
        0 <= i < iv.len(),
    ensures
        0 <= iv[i].0 <= iv[i].1 <= total,
{
    lemma_interval_lower(iv, total, i);
    lemma_interval_upper(iv, total, i);
}

/// In a tiling, the intervals are pairwise disjoint and ascending: every
/// earlier interval ends at or before a later one begins.
pub proof fn lemma_coverage_disjoint(iv: Seq<(int, int)>, total: int, i: int, j: int)
    requires
        spec_covers(iv, total),
        0 <= i < j < iv.len(),
    ensures
        iv[i].1 <= iv[j].0,
    decreases j - i,
{
    if j == i + 1 {
        assert(iv[j].0 == iv[i].1);
    } else {
        lemma_coverage_disjoint(iv, total, i, j - 1);
        assert(iv[j].0 == iv[j - 1].1);
        assert(iv[j - 1].0 <= iv[j - 1].1);
    }
}

/// In a tiling of `[0, total)`, every position below `total` lies inside some
/// interval: the union of the intervals is all of `[0, total)`.
pub proof fn lemma_coverage_complete(iv: Seq<(int, int)>, total: int, k: int)
    requires
        spec_covers(iv, total),
        0 <= k < total,
    ensures
        exists|i: int| 0 <= i < iv.len() && (#[trigger] iv[i]).0 <= k < iv[i].1,
    decreases iv.len(),
{
    assert(iv.len() > 0);
    let last = iv[iv.len() - 1];
    if last.0 <= k {
        assert(iv[iv.len() - 1].0 <= k < iv[iv.len() - 1].1);
    } else {
        let head = iv.drop_last();
        assert(spec_covers(head, last.0)) by {
            assert(forall|i: int| 0 <= i < head.len() ==> head[i] == iv[i]);
            if head.len() > 0 {
                assert(iv[iv.len() - 1].0 == iv[iv.len() - 2].1);
            }
        }
        lemma_coverage_complete(head, last.0, k);
        let w = choose|i: int| 0 <= i < head.len() && (#[trigger] head[i]).0 <= k < head[i].1;
        assert(iv[w].0 <= k < iv[w].1);
    }
}

} // verus!
