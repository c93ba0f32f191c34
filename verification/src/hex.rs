//! Axial hex coordinates: distance metric and enumeration of all tiles
//! within a radius of a center tile.
use vstd::prelude::*;

verus! {

use vstd::math::abs;
use vstd::math::max;
use vstd::math::max3;
use vstd::math::min;

/// An axial hex coordinate.
#[derive(Clone, Copy, PartialEq, Eq, Structural, Debug, Hash)]
pub struct HexCoordinate {
    pub alpha: i64,
    pub beta: i64,
}

/// Hex-grid distance between two axial coordinates: the largest of the
/// three cube-coordinate component differences, which equals
/// `(|da| + |db| + |da + db|) / 2` (see [`lemma_hex_dist_formula`]).
pub open spec fn hex_dist(a: HexCoordinate, b: HexCoordinate) -> int {
    let da = b.alpha - a.alpha;
    let db = b.beta - a.beta;
    max3(abs(da) as int, abs(db) as int, abs(da + db) as int)
}

/// Number of tiles whose hex distance from a center tile is at most `radius`.
pub open spec fn hex_count(radius: int) -> int {
    3 * radius * radius + 3 * radius + 1
}

/// The maximum form of the hex distance agrees with the summed axial form.
pub proof fn lemma_hex_dist_formula(a: HexCoordinate, b: HexCoordinate)
    ensures
        hex_dist(a, b) == (abs(b.alpha - a.alpha) + abs(b.beta - a.beta) + abs(
            (b.alpha - a.alpha) + (b.beta - a.beta),
        )) / 2,
{
    let da = b.alpha - a.alpha;
    let db = b.beta - a.beta;
    if da >= 0 && db >= 0 {
        assert(abs(da + db) == abs(da) + abs(db));
    } else if da < 0 && db < 0 {
        assert(abs(da + db) == abs(da) + abs(db));
    }
}

/// Tiles per row of the hexagon: for the row at alpha offset `da`,
/// `2 * radius + 1 - |da|` values of the beta offset lie within distance
/// `radius` of the center.
spec fn row_count(radius: int, da: int) -> int {
    2 * radius + 1 - abs(da)
}

/// Sum of `row_count` over all alpha offsets below `da`, starting at `-radius`.
spec fn rows_total(radius: int, da: int) -> int
    decreases da + radius,
{
    if da <= -radius {
        0
    } else {
        rows_total(radius, da - 1) + row_count(radius, da - 1)
    }
}

/// Closed form of the partial row sums.
proof fn lemma_rows_total(radius: int, m: int)
    requires
        radius >= 0,
        -radius <= m <= radius + 1,
    ensures
        2 * rows_total(radius, m) == if m <= 1 {
            (m + radius) * (3 * radius + 1 + m)
        } else {
            (1 + radius) * (3 * radius + 2) + 2 * (m - 1) * (2 * radius + 1) - (m - 1) * m
        },
    decreases m + radius,
{
    if m == -radius {
        assert((m + radius) * (3 * radius + 1 + m) == 0) by (nonlinear_arith)
            requires m + radius == 0;
    } else {
        lemma_rows_total(radius, m - 1);
        assert(rows_total(radius, m) == rows_total(radius, m - 1) + row_count(radius, m - 1));
        if m <= 1 {
            assert(row_count(radius, m - 1) == 2 * radius + m);
            assert((m - 1 + radius) * (3 * radius + m) + 2 * (2 * radius + m) == (m + radius) * (3
                * radius + 1 + m)) by (nonlinear_arith);
        } else if m == 2 {
            assert(row_count(radius, m - 1) == 2 * radius);
            assert((1 + radius) * (3 * radius + 2) + 2 * (2 * radius) == (1 + radius) * (3 * radius
                + 2) + 2 * (m - 1) * (2 * radius + 1) - (m - 1) * m) by (nonlinear_arith)
                requires m == 2;
        } else {
            assert(row_count(radius, m - 1) == 2 * radius + 2 - m);
            assert(((1 + radius) * (3 * radius + 2) + 2 * (m - 2) * (2 * radius + 1) - (m - 2) * (m
                - 1)) + 2 * (2 * radius + 2 - m) == (1 + radius) * (3 * radius + 2) + 2 * (m - 1)
                * (2 * radius + 1) - (m - 1) * m) by (nonlinear_arith);
        }
    }
}

/// A radius of zero admits exactly one tile.
proof fn lemma_hex_count_zero()
    ensures
        hex_count(0) == 1,
{
}

/// The full row sum over all alpha offsets equals `hex_count`.
proof fn lemma_rows_total_full(radius: int)
    requires
        radius >= 0,
    ensures
        rows_total(radius, radius + 1) == hex_count(radius),
{
    lemma_rows_total(radius, radius + 1);
    if radius == 0 {
        assert(2 * rows_total(0, 1) == 2);
    } else {
        assert((1 + radius) * (3 * radius + 2) + 2 * radius * (2 * radius + 1) - radius * (radius
            + 1) == 2 * (3 * radius * radius + 3 * radius + 1)) by (nonlinear_arith);
    }
}

impl HexCoordinate {
    /// Every axial coordinate whose hex distance from `center` is at most
    /// `radius`, each exactly once, row by row. The count is
    /// `3 * radius^2 + 3 * radius + 1`, and a radius of zero yields the
    /// center alone.
    #[verifier::rlimit(100)]
    pub fn hexagon(center: HexCoordinate, radius: u32) -> (result: Vec<HexCoordinate>)
        requires
            center.alpha - radius >= i64::MIN,
            center.alpha + radius <= i64::MAX,
            center.beta - radius >= i64::MIN,
            center.beta + radius <= i64::MAX,
            hex_count(radius as int) <= usize::MAX,
        ensures
            result@.len() == hex_count(radius as int),
            forall|i: int|
                0 <= i < result@.len() ==> hex_dist(center, #[trigger] result@[i]) <= radius,
            forall|p: HexCoordinate| #![trigger result@.contains(p)]
                hex_dist(center, p) <= radius ==> result@.contains(p),
            forall|i: int, j: int| 0 <= i < j < result@.len() ==> result@[i] != result@[j],
            radius == 0 ==> result@ =~= seq![center],
    {
        let r: i64 = radius as i64;
        let mut result: Vec<HexCoordinate> = Vec::new();
        let mut da: i64 = -r;
        while da <= r
            invariant
                r == radius,
                center.alpha - radius >= i64::MIN,
                center.alpha + radius <= i64::MAX,
                center.beta - radius >= i64::MIN,
                center.beta + radius <= i64::MAX,
                hex_count(radius as int) <= usize::MAX,
                -r <= da as int <= r as int + 1,
                result@.len() == rows_total(radius as int, da as int),
                forall|i: int|
                    0 <= i < result@.len() ==> hex_dist(center, #[trigger] result@[i])
                        <= radius,
                forall|i: int|
                    0 <= i < result@.len() ==> (#[trigger] result@[i]).alpha - center.alpha
                        < da as int,
                forall|i: int, j: int| 0 <= i < j < result@.len() ==> result@[i] != result@[j],
                forall|p: HexCoordinate| #![trigger result@.contains(p)]
                    hex_dist(center, p) <= radius && p.alpha - center.alpha < da as int
                        ==> result@.contains(p),
            decreases r as int + 1 - da as int,
        {
            let neg_da_minus_r: i64 = -da - r;
            let lo: i64 = if -r >= neg_da_minus_r {
                -r
            } else {
                neg_da_minus_r
            };
            let hi: i64 = if r <= r - da {
                r
            } else {
                r - da
            };
            assert(lo as int <= hi as int);
            assert(hi as int - lo as int + 1 == row_count(radius as int, da as int));
            let mut db: i64 = lo;
            while db <= hi
                invariant
                    r == radius,
                    center.alpha - radius >= i64::MIN,
                    center.alpha + radius <= i64::MAX,
                    center.beta - radius >= i64::MIN,
                    center.beta + radius <= i64::MAX,
                    hex_count(radius as int) <= usize::MAX,
                    -r <= da as int <= r as int,
                    lo as int == max(-(r as int), -(da as int) - r),
                    hi as int == min(r as int, r as int - da as int),
                    lo as int <= db as int <= hi as int + 1,
                    result@.len() == rows_total(radius as int, da as int) + (db as int - lo as int),
                    forall|i: int|
                        0 <= i < result@.len() ==> hex_dist(center, #[trigger] result@[i])
                            <= radius,
                    forall|i: int|
                        0 <= i < result@.len() ==> (#[trigger] result@[i]).alpha - center.alpha
                            < da as int || ((#[trigger] result@[i]).alpha - center.alpha
                            == da as int && result@[i].beta - center.beta < db as int),
                    forall|i: int, j: int| 0 <= i < j < result@.len() ==> result@[i] != result@[j],
                    forall|p: HexCoordinate| #![trigger result@.contains(p)]
                        hex_dist(center, p) <= radius && (p.alpha - center.alpha < da as int || (
                        p.alpha - center.alpha == da as int && p.beta - center.beta < db as int))
                            ==> result@.contains(p),
                decreases hi as int + 1 - db as int,
            {
                let p = HexCoordinate { alpha: center.alpha + da, beta: center.beta + db };
                proof {
                    assert(hex_dist(center, p) <= radius);
                }
                let ghost prev = result@;
                result.push(p);
                proof {
                    assert(result@ == prev.push(p));
                    assert forall|q: HexCoordinate|
                        hex_dist(center, q) <= radius && (q.alpha - center.alpha < da as int || (
                        q.alpha - center.alpha == da as int && q.beta - center.beta < db as int
                            + 1)) implies result@.contains(q) by {
                        if q.alpha - center.alpha == da as int && q.beta - center.beta
                            == db as int {
                            assert(q == p);
                            assert(result@[prev.len() as int] == q);
                        } else {
                            assert(prev.contains(q));
                            let k = choose|k: int| 0 <= k < prev.len() && prev[k] == q;
                            assert(result@[k] == q);
                        }
                    }
                }
                db = db + 1;
            }
            proof {
                assert(rows_total(radius as int, da as int + 1) == rows_total(
                    radius as int,
                    da as int,
                ) + row_count(radius as int, da as int));
            }
            da = da + 1;
        }
        proof {
            lemma_rows_total_full(radius as int);
            if radius == 0 {
                lemma_hex_count_zero();
                assert(result@.len() == 1);
                assert(hex_dist(center, result@[0]) <= 0);
                assert(result@[0] == center);
                assert(result@ =~= seq![center]);
            }
            assert forall|p: HexCoordinate| #![trigger result@.contains(p)]
                hex_dist(center, p) <= radius implies result@.contains(p) by {
                assert(abs(p.alpha - center.alpha) <= radius);
                assert(p.alpha - center.alpha < da as int);
            }
        }
        result
    }
}

} // verus!
