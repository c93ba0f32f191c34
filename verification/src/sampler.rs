//! Collision-free random placement: draws distinct positions from a candidate
//! list, uniformly without replacement, and partitions the drawn positions
//! into contiguous per-category groups.
use vstd::prelude::*;

verus! {

use crate::hex::HexCoordinate;
use crate::rng::RandomSource;

/// Error of placement sampling.
#[derive(Clone, Copy, PartialEq, Eq, Structural, Debug)]
pub enum PlacementError {
    /// Fewer candidate positions than requested placements.
    InsufficientCandidates,
}

/// Whether no position occurs twice in a sequence.
pub open spec fn distinct_seq(s: Seq<HexCoordinate>) -> bool {
    forall|a: int, b: int| 0 <= a < b < s.len() ==> s[a] != s[b]
}

/// The sum of the first `g` requested category sizes.
pub open spec fn counts_before(counts: Seq<usize>, g: int) -> int
    decreases g,
{
    if g <= 0 {
        0
    } else {
        counts_before(counts, g - 1) + counts[g - 1]
    }
}

/// The total number of requested placements.
pub open spec fn counts_total(counts: Seq<usize>) -> int {
    counts_before(counts, counts.len() as int)
}

/// Prefix sums of the category sizes grow monotonically.
proof fn lemma_counts_before_mono(counts: Seq<usize>, g1: int, g2: int)
    requires
        0 <= g1 <= g2 <= counts.len(),
    ensures
        counts_before(counts, g1) <= counts_before(counts, g2),
    decreases g2 - g1,
{
    if g1 < g2 {
        lemma_counts_before_mono(counts, g1, g2 - 1);
    }
}

/// Draws `counts_total(counts)` distinct positions from `candidates`,
/// uniformly at random without replacement, and partitions them into
/// contiguous groups of the requested sizes, in the order the counts are
/// supplied. Fails, before any draw, exactly when more placements are
/// requested than candidates exist. When the candidates are distinct, no
/// position is returned twice, within or across groups.
pub fn sample_unique(
    candidates: &Vec<HexCoordinate>,
    counts: &Vec<usize>,
    rng: &mut RandomSource,
) -> (result: Result<Vec<Vec<HexCoordinate>>, PlacementError>)
    ensures
        match result {
            Ok(groups) => {
                &&& counts_total(counts@) <= candidates@.len()
                &&& groups@.len() == counts@.len()
                &&& forall|g: int|
                    0 <= g < groups@.len() ==> (#[trigger] groups@[g])@.len() == counts@[g]
                &&& forall|g: int, k: int|
                    0 <= g < groups@.len() && 0 <= k < groups@[g]@.len() ==> candidates@.contains(
                        #[trigger] groups@[g]@[k],
                    )
                &&& distinct_seq(candidates@) ==> forall|g1: int, k1: int, g2: int, k2: int|
                    0 <= g1 < groups@.len() && 0 <= k1 < groups@[g1]@.len() && 0 <= g2
                        < groups@.len() && 0 <= k2 < groups@[g2]@.len() && (g1 != g2 || k1 != k2)
                        ==> #[trigger] groups@[g1]@[k1] != #[trigger] groups@[g2]@[k2]
            },
            Err(e) => {
                &&& e == PlacementError::InsufficientCandidates
                &&& counts_total(counts@) > candidates@.len()
            },
        },
{
    let n: usize = candidates.len();
    let mut total: usize = 0;
    let mut g: usize = 0;
    while g < counts.len()
        invariant
            g <= counts@.len(),
            n == candidates@.len(),
            total as int == counts_before(counts@, g as int),
            total <= n,
        decreases counts@.len() - g,
    {
        let c: usize = counts[g];
        if c > n - total {
            proof {
                lemma_counts_before_mono(counts@, g as int + 1, counts@.len() as int);
            }
            return Err(PlacementError::InsufficientCandidates);
        }
        total = total + c;
        g = g + 1;
    }
    // A working copy of the candidates; positions are drawn out of it.
    let mut pool: Vec<HexCoordinate> = Vec::new();
    let mut i: usize = 0;
    while i < n
        invariant
            i <= n,
            n == candidates@.len(),
            pool@ == candidates@.subrange(0, i as int),
        decreases n - i,
    {
        pool.push(candidates[i]);
        proof {
            assert(pool@ =~= candidates@.subrange(0, i as int + 1));
        }
        i = i + 1;
    }
    proof {
        assert(pool@ =~= candidates@);
    }
    // Selection sampling: each draw removes one position, so no position can
    // be drawn twice.
    let mut drawn: Vec<HexCoordinate> = Vec::new();
    let mut k: usize = 0;
    while k < total
        invariant
            k <= total,
            total <= candidates@.len(),
            drawn@.len() == k as int,
            pool@.len() == candidates@.len() - k,
            forall|a: int| 0 <= a < pool@.len() ==> candidates@.contains(#[trigger] pool@[a]),
            forall|a: int| 0 <= a < drawn@.len() ==> candidates@.contains(#[trigger] drawn@[a]),
            distinct_seq(candidates@) ==> distinct_seq(pool@),
            distinct_seq(candidates@) ==> distinct_seq(drawn@),
            distinct_seq(candidates@) ==> forall|a: int, b: int|
                0 <= a < drawn@.len() && 0 <= b < pool@.len() ==> drawn@[a] != pool@[b],
        decreases total - k,
    {
        let ghost pool_prev = pool@;
        let ghost drawn_prev = drawn@;
        let j: usize = rng.next_below(pool.len() as u64) as usize;
        let chosen: HexCoordinate = pool.remove(j);
        drawn.push(chosen);
        proof {
            pool_prev.remove_ensures(j as int);
            assert(pool@ == pool_prev.remove(j as int));
            assert(drawn@ == drawn_prev.push(chosen));
            if distinct_seq(candidates@) {
                assert forall|a: int, b: int| 0 <= a < b < pool@.len() implies pool@[a]
                    != pool@[b] by {
                    if b < j {
                        assert(pool@[a] == pool_prev[a] && pool@[b] == pool_prev[b]);
                    } else if a < j {
                        assert(pool@[a] == pool_prev[a] && pool@[b] == pool_prev[b + 1]);
                    } else {
                        assert(pool@[a] == pool_prev[a + 1] && pool@[b] == pool_prev[b + 1]);
                    }
                }
                assert forall|a: int, b: int|
                    0 <= a < drawn@.len() && 0 <= b < pool@.len() implies drawn@[a]
                    != pool@[b] by {
                    if b < j {
                        assert(pool@[b] == pool_prev[b]);
                    } else {
                        assert(pool@[b] == pool_prev[b + 1]);
                    }
                    if a < drawn_prev.len() {
                        assert(drawn@[a] == drawn_prev[a]);
                    } else {
                        assert(drawn@[a] == pool_prev[j as int]);
                    }
                }
            }
        }
        k = k + 1;
    }
    // Partition the drawn positions into contiguous groups, in the order the
    // counts are supplied.
    let mut groups: Vec<Vec<HexCoordinate>> = Vec::new();
    let mut taken: usize = 0;
    let mut g: usize = 0;
    while g < counts.len()
        invariant
            g <= counts@.len(),
            groups@.len() == g as int,
            total as int == counts_total(counts@),
            total <= candidates@.len(),
            drawn@.len() == total as int,
            taken as int == counts_before(counts@, g as int),
            taken <= total,
            forall|a: int| 0 <= a < drawn@.len() ==> candidates@.contains(#[trigger] drawn@[a]),
            distinct_seq(candidates@) ==> distinct_seq(drawn@),
            forall|x: int| 0 <= x < g as int ==> (#[trigger] groups@[x])@.len() == counts@[x],
            forall|x: int, m: int|
                0 <= x < g as int && 0 <= m < groups@[x]@.len() ==> #[trigger] groups@[x]@[m]
                    == drawn@[counts_before(counts@, x) + m],
        decreases counts@.len() - g,
    {
        let c: usize = counts[g];
        proof {
            assert(counts_before(counts@, g as int + 1) == counts_before(counts@, g as int)
                + counts@[g as int]);
            lemma_counts_before_mono(counts@, g as int + 1, counts@.len() as int);
        }
        let mut group: Vec<HexCoordinate> = Vec::new();
        let mut m: usize = 0;
        while m < c
            invariant
                m <= c,
                c == counts@[g as int],
                g < counts@.len(),
                drawn@.len() == total as int,
                taken as int == counts_before(counts@, g as int) + m as int,
                counts_before(counts@, g as int + 1) <= total as int,
                group@.len() == m as int,
                forall|x: int| 0 <= x < m as int ==> #[trigger] group@[x] == drawn@[
                    counts_before(counts@, g as int) + x],
            decreases c - m,
        {
            proof {
                assert(counts_before(counts@, g as int + 1) == counts_before(counts@, g as int)
                    + counts@[g as int]);
            }
            group.push(drawn[taken]);
            taken = taken + 1;
            m = m + 1;
        }
        groups.push(group);
        g = g + 1;
    }
    proof {
        assert forall|g: int, k: int|
            0 <= g < groups@.len() && 0 <= k < groups@[g]@.len() implies candidates@.contains(
            #[trigger] groups@[g]@[k],
        ) by {
            assert(counts_before(counts@, g + 1) == counts_before(counts@, g) + counts@[g]);
            lemma_counts_before_mono(counts@, 0, g);
            lemma_counts_before_mono(counts@, g + 1, counts@.len() as int);
            assert(groups@[g]@[k] == drawn@[counts_before(counts@, g) + k]);
        }
        if distinct_seq(candidates@) {
            assert forall|g1: int, k1: int, g2: int, k2: int|
                0 <= g1 < groups@.len() && 0 <= k1 < groups@[g1]@.len() && 0 <= g2 < groups@.len()
                    && 0 <= k2 < groups@[g2]@.len() && (g1 != g2 || k1 != k2) implies #[trigger] groups@[g1]@[k1]
                != #[trigger] groups@[g2]@[k2] by {
                let i1 = counts_before(counts@, g1) + k1;
                let i2 = counts_before(counts@, g2) + k2;
                assert(counts_before(counts@, g1 + 1) == counts_before(counts@, g1) + counts@[g1]);
                assert(counts_before(counts@, g2 + 1) == counts_before(counts@, g2) + counts@[g2]);
                lemma_counts_before_mono(counts@, 0, g1);
                lemma_counts_before_mono(counts@, 0, g2);
                lemma_counts_before_mono(counts@, g1 + 1, counts@.len() as int);
                lemma_counts_before_mono(counts@, g2 + 1, counts@.len() as int);
                if g1 < g2 {
                    lemma_counts_before_mono(counts@, g1 + 1, g2);
                } else if g2 < g1 {
                    lemma_counts_before_mono(counts@, g2 + 1, g1);
                }
                assert(0 <= i1 < drawn@.len());
                assert(0 <= i2 < drawn@.len());
                assert(i1 != i2);
                assert(groups@[g1]@[k1] == drawn@[i1]);
                assert(groups@[g2]@[k2] == drawn@[i2]);
            }
        }
    }
    Ok(groups)
}

} // verus!
