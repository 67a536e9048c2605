//! Axial hexagonal coordinates: neighbor, distance, ring, range and line
//! queries.  All operations are pure integer arithmetic.

use vstd::prelude::*;
use vstd::arithmetic::div_mod::{lemma_fundamental_div_mod, lemma_fundamental_div_mod_converse};

verus! {

/// Coordinates are specified for this range; it leaves headroom so that
/// neighbor and ring offsets can never overflow an `i32`.
pub const COORD_LIMIT: i32 = 100_000_000;

/// Largest ring/range radius the queries accept.
pub const RADIUS_LIMIT: u32 = 30_000;

/// Axial address of a cell in the hexagonal tiling.
#[derive(Clone, Copy, PartialEq, Eq, Structural, Debug, Hash)]
pub struct HexCoord {
    pub q: i32,
    pub r: i32,
}

/// Absolute value of a mathematical integer.
pub open spec fn abs_val(x: int) -> int {
    if x < 0 {
        -x
    } else {
        x
    }
}

/// Maximum of three mathematical integers.
pub open spec fn max3(a: int, b: int, c: int) -> int {
    if a >= b && a >= c {
        a
    } else if b >= c {
        b
    } else {
        c
    }
}

/// Minimum of three mathematical integers.
pub open spec fn min3(a: int, b: int, c: int) -> int {
    if a <= b && a <= c {
        a
    } else if b <= c {
        b
    } else {
        c
    }
}

/// Hex-grid distance between two axial coordinates: the number of single-cell
/// steps needed to walk from one to the other.
pub open spec fn hex_dist(a: HexCoord, b: HexCoord) -> int {
    max3(
        abs_val(a.q - b.q),
        abs_val(a.r - b.r),
        abs_val((a.q + a.r) - (b.q + b.r)),
    )
}

/// Whether a coordinate lies in the specified working range.
pub open spec fn coord_in_bounds(h: HexCoord) -> bool {
    -COORD_LIMIT <= h.q <= COORD_LIMIT && -COORD_LIMIT <= h.r <= COORD_LIMIT
}

/// A coordinate far enough inside the working range that a whole disk of
/// cells around it stays in range.
pub open spec fn coord_interior(h: HexCoord) -> bool {
    -COORD_LIMIT + RADIUS_LIMIT <= h.q <= COORD_LIMIT - RADIUS_LIMIT && -COORD_LIMIT
        + RADIUS_LIMIT <= h.r <= COORD_LIMIT - RADIUS_LIMIT
}

/// A looser bound, satisfied by every cell near the working range; it leaves
/// enough headroom that single-step offsets cannot wrap an `i32`.
pub open spec fn coord_slack(h: HexCoord) -> bool {
    -0x4000_0000 <= h.q <= 0x4000_0000 && -0x4000_0000 <= h.r <= 0x4000_0000
}

/// The six axial direction offsets, in the fixed order used by `neighbors`
/// and `ring`.
pub open spec fn hex_dir_q(i: int) -> int {
    if i == 0 {
        1
    } else if i == 1 {
        1
    } else if i == 2 {
        0
    } else if i == 3 {
        -1
    } else if i == 4 {
        -1
    } else {
        0
    }
}

/// Companion of `hex_dir_q` for the r component.
pub open spec fn hex_dir_r(i: int) -> int {
    if i == 0 {
        0
    } else if i == 1 {
        -1
    } else if i == 2 {
        -1
    } else if i == 3 {
        0
    } else if i == 4 {
        1
    } else {
        1
    }
}

/// The i-th neighbor of a coordinate.
pub open spec fn neighbor_of(h: HexCoord, i: int) -> HexCoord {
    HexCoord { q: (h.q + hex_dir_q(i)) as i32, r: (h.r + hex_dir_r(i)) as i32 }
}

/// Two cells are neighbors exactly when their hex distance is 1.
pub open spec fn is_neighbor(a: HexCoord, b: HexCoord) -> bool {
    hex_dist(a, b) == 1
}

impl HexCoord {
    /// Builds a coordinate from its axial components.
    pub fn new(q: i32, r: i32) -> (h: HexCoord)
        ensures
            h.q == q,
            h.r == r,
    {
        HexCoord { q, r }
    }

    /// Hex-grid distance to another coordinate.
    pub fn distance(&self, other: &HexCoord) -> (d: u32)
        requires
            coord_in_bounds(*self),
            coord_in_bounds(*other),
        ensures
            d == hex_dist(*self, *other),
    {
        let dq: i64 = self.q as i64 - other.q as i64;
        let dr: i64 = self.r as i64 - other.r as i64;
        let ds: i64 = dq + dr;
        let aq: i64 = if dq < 0 { -dq } else { dq };
        let ar: i64 = if dr < 0 { -dr } else { dr };
        let as_: i64 = if ds < 0 { -ds } else { ds };
        let m: i64 = if aq >= ar && aq >= as_ {
            aq
        } else if ar >= as_ {
            ar
        } else {
            as_
        };
        m as u32
    }

    /// The six adjacent cells, in direction order.
    pub fn neighbors(&self) -> (out: [HexCoord; 6])
        requires
            coord_in_bounds(*self),
        ensures
            forall|i: int| 0 <= i < 6 ==> out[i] == neighbor_of(*self, i),
            forall|i: int| 0 <= i < 6 ==> hex_dist(*self, out[i]) == 1,
            forall|i: int, j: int| 0 <= i < j < 6 ==> out[i] != out[j],
    {
        [
            HexCoord { q: self.q + 1, r: self.r },
            HexCoord { q: self.q + 1, r: self.r - 1 },
            HexCoord { q: self.q, r: self.r - 1 },
            HexCoord { q: self.q - 1, r: self.r },
            HexCoord { q: self.q - 1, r: self.r + 1 },
            HexCoord { q: self.q, r: self.r + 1 },
        ]
    }

    /// The ring of cells at exactly `radius` steps, in walk order.
    pub fn ring(&self, radius: u32) -> (out: Vec<HexCoord>)
        requires
            coord_in_bounds(*self),
            radius <= RADIUS_LIMIT,
        ensures
            out@ == ring_seq(*self, radius as int),
    {
        let mut out: Vec<HexCoord> = Vec::new();
        if radius == 0 {
            out.push(*self);
            assert(out@ =~= ring_seq(*self, 0));
            return out;
        }
        let total: u32 = 6 * radius;
        let rad: i32 = radius as i32;
        let mut k: u32 = 0;
        while k < total
            invariant
                coord_in_bounds(*self),
                1 <= radius <= RADIUS_LIMIT,
                total == 6 * radius,
                rad == radius,
                k <= total,
                out@.len() == k as int,
                forall|kk: int| 0 <= kk < k ==> out@[kk] == ring_elem(*self, radius as int, kk),
            decreases total - k,
        {
            let i: u32 = k / radius;
            let j: i32 = (k % radius) as i32;
            let offq: i32 = if i == 0 {
                j - rad
            } else if i == 1 {
                j
            } else if i == 2 {
                rad
            } else if i == 3 {
                rad - j
            } else if i == 4 {
                -j
            } else {
                -rad
            };
            let offr: i32 = if i == 0 {
                rad
            } else if i == 1 {
                rad - j
            } else if i == 2 {
                -j
            } else if i == 3 {
                -rad
            } else if i == 4 {
                j - rad
            } else {
                j
            };
            proof {
                lemma_ring_index(radius as int, k as int);
            }
            out.push(HexCoord { q: self.q + offq, r: self.r + offr });
            k = k + 1;
        }
        proof {
            assert(out@ =~= ring_seq(*self, radius as int));
        }
        out
    }

    /// The disk of cells within `radius` steps: the rings of radii 0 through
    /// `radius`, concatenated in order of increasing radius.
    pub fn range(&self, radius: u32) -> (out: Vec<HexCoord>)
        requires
            coord_in_bounds(*self),
            radius <= RADIUS_LIMIT,
        ensures
            out@ == range_seq(*self, radius as int),
    {
        let mut out: Vec<HexCoord> = self.ring(0);
        let mut k: u32 = 1;
        while k <= radius
            invariant
                coord_in_bounds(*self),
                radius <= RADIUS_LIMIT,
                1 <= k <= radius + 1,
                out@ == range_seq(*self, k as int - 1),
            decreases radius + 1 - k,
        {
            let mut ring_cells: Vec<HexCoord> = self.ring(k);
            out.append(&mut ring_cells);
            k = k + 1;
        }
        out
    }

    /// Same disk query as `range`; kept under the name the callers use.
    pub fn in_range(&self, radius: u32) -> (out: Vec<HexCoord>)
        requires
            coord_in_bounds(*self),
            radius <= RADIUS_LIMIT,
        ensures
            out@ == range_seq(*self, radius as int),
    {
        self.range(radius)
    }

    /// The rings at each radius of `radii`, concatenated in the given order.
    pub fn rings(&self, radii: &Vec<u32>) -> (out: Vec<HexCoord>)
        requires
            coord_in_bounds(*self),
            forall|i: int| 0 <= i < radii@.len() ==> radii@[i] <= RADIUS_LIMIT,
        ensures
            out@ == rings_seq(*self, radii@),
    {
        let mut out: Vec<HexCoord> = Vec::new();
        assert(out@ =~= rings_seq(*self, radii@.subrange(0, 0)));
        let mut i: usize = 0;
        while i < radii.len()
            invariant
                coord_in_bounds(*self),
                forall|ii: int| 0 <= ii < radii@.len() ==> radii@[ii] <= RADIUS_LIMIT,
                i <= radii@.len(),
                out@ == rings_seq(*self, radii@.subrange(0, i as int)),
            decreases radii@.len() - i,
        {
            let mut ring_cells: Vec<HexCoord> = self.ring(radii[i]);
            out.append(&mut ring_cells);
            proof {
                assert(radii@.subrange(0, i + 1).drop_last() =~= radii@.subrange(0, i as int));
                assert(radii@.subrange(0, i + 1).last() == radii@[i as int]);
            }
            i = i + 1;
        }
        proof {
            assert(radii@.subrange(0, radii@.len() as int) =~= radii@);
        }
        out
    }

    /// A spiral over the rings at each radius of `radii`; the cells come out
    /// ring by ring, in the given order.
    pub fn spiral(&self, radii: &Vec<u32>) -> (out: Vec<HexCoord>)
        requires
            coord_in_bounds(*self),
            forall|i: int| 0 <= i < radii@.len() ==> radii@[i] <= RADIUS_LIMIT,
        ensures
            out@ == rings_seq(*self, radii@),
    {
        self.rings(radii)
    }

    /// The cells of the straight line to `other`, endpoints included: a
    /// geodesic walk of `hex_dist` single steps, each bringing the cell one
    /// step closer to `other`.
    pub fn line_to(&self, other: &HexCoord) -> (out: Vec<HexCoord>)
        requires
            coord_in_bounds(*self),
            coord_in_bounds(*other),
        ensures
            out@.len() == hex_dist(*self, *other) + 1,
            out@[0] == *self,
            out@[out@.len() - 1] == *other,
            forall|k: int|
                0 <= k < out@.len() ==> hex_dist(#[trigger] out@[k], *other) == hex_dist(
                    *self,
                    *other,
                ) - k,
            forall|k: int|
                0 <= k < out@.len() - 1 ==> hex_dist(#[trigger] out@[k], out@[k + 1]) == 1,
    {
        let n: u32 = self.distance(other);
        let mut out: Vec<HexCoord> = Vec::new();
        let mut cur: HexCoord = *self;
        out.push(cur);
        let mut k: u32 = 0;
        while k < n
            invariant
                coord_in_bounds(*self),
                coord_in_bounds(*other),
                n == hex_dist(*self, *other),
                k <= n,
                out@.len() == k + 1,
                out@[0] == *self,
                out@[out@.len() - 1] == cur,
                hex_dist(cur, *other) == n - k,
                -600_000_000 <= cur.q <= 600_000_000,
                -600_000_000 <= cur.r <= 600_000_000,
                forall|kk: int|
                    0 <= kk < out@.len() ==> hex_dist(#[trigger] out@[kk], *other) == n - kk,
                forall|kk: int|
                    0 <= kk < out@.len() - 1 ==> hex_dist(#[trigger] out@[kk], out@[kk + 1]) == 1,
            decreases n - k,
        {
            let dq: i64 = other.q as i64 - cur.q as i64;
            let dr: i64 = other.r as i64 - cur.r as i64;
            let step: HexCoord = if dq > 0 && dr < 0 {
                HexCoord { q: cur.q + 1, r: cur.r - 1 }
            } else if dq < 0 && dr > 0 {
                HexCoord { q: cur.q - 1, r: cur.r + 1 }
            } else if dq > 0 {
                HexCoord { q: cur.q + 1, r: cur.r }
            } else if dq < 0 {
                HexCoord { q: cur.q - 1, r: cur.r }
            } else if dr > 0 {
                HexCoord { q: cur.q, r: cur.r + 1 }
            } else {
                HexCoord { q: cur.q, r: cur.r - 1 }
            };
            proof {
                assert(hex_dist(step, *other) == n - k - 1);
                assert(hex_dist(cur, step) == 1);
            }
            let ghost prev = out@;
            cur = step;
            out.push(cur);
            proof {
                assert(out@[out@.len() - 1] == cur);
                assert(forall|kk: int| 0 <= kk < prev.len() ==> out@[kk] == prev[kk]);
            }
            k = k + 1;
        }
        out
    }
}


/// Offset of the q component for step `j` along side `i` of the ring of the
/// given radius, measured from the ring's center.
pub open spec fn ring_offset_q(radius: int, i: int, j: int) -> int {
    if i == 0 {
        -radius + j
    } else if i == 1 {
        j
    } else if i == 2 {
        radius
    } else if i == 3 {
        radius - j
    } else if i == 4 {
        -j
    } else {
        -radius
    }
}

/// Companion of `ring_offset_q` for the r component.
pub open spec fn ring_offset_r(radius: int, i: int, j: int) -> int {
    if i == 0 {
        radius
    } else if i == 1 {
        radius - j
    } else if i == 2 {
        -j
    } else if i == 3 {
        -radius
    } else if i == 4 {
        -radius + j
    } else {
        j
    }
}

/// The k-th cell of the ring of the given radius around `h` (radius >= 1):
/// side `k / radius`, step `k % radius`.
pub open spec fn ring_elem(h: HexCoord, radius: int, k: int) -> HexCoord {
    let i = k / radius;
    let j = k % radius;
    HexCoord {
        q: (h.q + ring_offset_q(radius, i, j)) as i32,
        r: (h.r + ring_offset_r(radius, i, j)) as i32,
    }
}

/// The cells of the ring at exactly the given radius, in walk order.
pub open spec fn ring_seq(h: HexCoord, radius: int) -> Seq<HexCoord> {
    if radius <= 0 {
        seq![h]
    } else {
        Seq::new((6 * radius) as nat, |k: int| ring_elem(h, radius, k))
    }
}

/// The disk of the given radius around `h`: the concatenation of the rings of
/// radii 0 through `radius`.
pub open spec fn range_seq(h: HexCoord, radius: int) -> Seq<HexCoord>
    decreases radius,
{
    if radius <= 0 {
        ring_seq(h, 0)
    } else {
        range_seq(h, radius - 1) + ring_seq(h, radius)
    }
}

/// Concatenation of the rings at each radius of `radii`, in order.
pub open spec fn rings_seq(h: HexCoord, radii: Seq<u32>) -> Seq<HexCoord>
    decreases radii.len(),
{
    if radii.len() == 0 {
        Seq::empty()
    } else {
        rings_seq(h, radii.drop_last()) + ring_seq(h, radii.last() as int)
    }
}

/// Hex distance is symmetric.
pub proof fn lemma_hex_dist_symmetric(a: HexCoord, b: HexCoord)
    ensures
        hex_dist(a, b) == hex_dist(b, a),
{
}

/// The neighbor list is complete: a cell is one of `h`'s six neighbors
/// exactly when it lies at hex distance 1 from `h`.
pub proof fn lemma_neighbor_iff(h: HexCoord, other: HexCoord)
    requires
        coord_slack(h),
    ensures
        is_neighbor(h, other) <==> exists|i: int| 0 <= i < 6 && neighbor_of(h, i) == other,
{
    if is_neighbor(h, other) {
        let dq = other.q - h.q;
        let dr = other.r - h.r;
        if dq == 1 && dr == 0 {
            assert(neighbor_of(h, 0) == other);
        } else if dq == 1 && dr == -1 {
            assert(neighbor_of(h, 1) == other);
        } else if dq == 0 && dr == -1 {
            assert(neighbor_of(h, 2) == other);
        } else if dq == -1 && dr == 0 {
            assert(neighbor_of(h, 3) == other);
        } else if dq == -1 && dr == 1 {
            assert(neighbor_of(h, 4) == other);
        } else {
            assert(dq == 0 && dr == 1);
            assert(neighbor_of(h, 5) == other);
        }
    }
}

/// Names the side and step of a ring index: for `0 <= k < 6 * radius`, the
/// side `k / radius` lies in `[0, 6)` and the step `k % radius` in
/// `[0, radius)`.
pub proof fn lemma_ring_index(radius: int, k: int)
    requires
        1 <= radius,
        0 <= k < 6 * radius,
    ensures
        0 <= k / radius < 6,
        0 <= k % radius < radius,
        k == radius * (k / radius) + k % radius,
{
    lemma_fundamental_div_mod(k, radius);
    let i = k / radius;
    assert(0 <= i < 6) by (nonlinear_arith)
        requires
            1 <= radius,
            0 <= k < 6 * radius,
            k == radius * i + k % radius,
            0 <= k % radius < radius,
    ;
}

/// Every ring cell lies at exactly the ring's radius from the center.
pub proof fn lemma_ring_elem_dist(h: HexCoord, radius: int, k: int)
    requires
        coord_in_bounds(h),
        1 <= radius <= RADIUS_LIMIT,
        0 <= k < 6 * radius,
    ensures
        hex_dist(h, ring_elem(h, radius, k)) == radius,
{
    lemma_ring_index(radius, k);
}

/// Distinct pairs of side and step give distinct ring offsets.
pub proof fn lemma_ring_offsets_injective(radius: int, i1: int, j1: int, i2: int, j2: int)
    requires
        1 <= radius,
        0 <= i1 < 6,
        0 <= j1 < radius,
        0 <= i2 < 6,
        0 <= j2 < radius,
        !(i1 == i2 && j1 == j2),
    ensures
        !(ring_offset_q(radius, i1, j1) == ring_offset_q(radius, i2, j2)
            && ring_offset_r(radius, i1, j1) == ring_offset_r(radius, i2, j2)),
{
}

/// The cells of a ring are pairwise distinct.
pub proof fn lemma_ring_elem_distinct(h: HexCoord, radius: int, k1: int, k2: int)
    requires
        coord_in_bounds(h),
        1 <= radius <= RADIUS_LIMIT,
        0 <= k1 < 6 * radius,
        0 <= k2 < 6 * radius,
        k1 != k2,
    ensures
        ring_elem(h, radius, k1) != ring_elem(h, radius, k2),
{
    lemma_ring_index(radius, k1);
    lemma_ring_index(radius, k2);
    lemma_ring_offsets_injective(radius, k1 / radius, k1 % radius, k2 / radius, k2 % radius);
}

/// The ring is complete: every cell at exactly the ring's distance from the
/// center appears in it.
pub proof fn lemma_ring_complete(h: HexCoord, radius: int, other: HexCoord)
    requires
        coord_in_bounds(h),
        1 <= radius <= RADIUS_LIMIT,
        hex_dist(h, other) == radius,
    ensures
        exists|k: int| 0 <= k < 6 * radius && ring_elem(h, radius, k) == other,
{
    let dq = other.q - h.q;
    let dr = other.r - h.r;
    if dq == radius && -radius < dr <= 0 {
        let k = 2 * radius + (-dr);
        lemma_fundamental_div_mod_converse(k, radius, 2, -dr);
        assert(ring_elem(h, radius, k) == other);
        assert(0 <= k < 6 * radius);
    } else if dr == -radius && 0 < dq <= radius {
        let k = 3 * radius + (radius - dq);
        lemma_fundamental_div_mod_converse(k, radius, 3, radius - dq);
        assert(ring_elem(h, radius, k) == other);
        assert(0 <= k < 6 * radius);
    } else if dq + dr == -radius && -radius < dq <= 0 {
        let k = 4 * radius + (-dq);
        lemma_fundamental_div_mod_converse(k, radius, 4, -dq);
        assert(ring_elem(h, radius, k) == other);
        assert(0 <= k < 6 * radius);
    } else if dq == -radius && 0 <= dr < radius {
        let k = 5 * radius + dr;
        lemma_fundamental_div_mod_converse(k, radius, 5, dr);
        assert(ring_elem(h, radius, k) == other);
        assert(0 <= k < 6 * radius);
    } else if dr == radius && -radius <= dq < 0 {
        let k = 0 * radius + (dq + radius);
        lemma_fundamental_div_mod_converse(k, radius, 0, dq + radius);
        assert(ring_elem(h, radius, k) == other);
        assert(0 <= k < 6 * radius);
    } else {
        assert(dq + dr == radius && 0 <= dq < radius);
        let k = 1 * radius + dq;
        lemma_fundamental_div_mod_converse(k, radius, 1, dq);
        assert(ring_elem(h, radius, k) == other);
        assert(0 <= k < 6 * radius);
    }
}

/// A ring holds a cell exactly when the cell lies at the ring's radius.
pub proof fn lemma_ring_contains(h: HexCoord, radius: int, other: HexCoord)
    requires
        coord_in_bounds(h),
        0 <= radius <= RADIUS_LIMIT,
    ensures
        ring_seq(h, radius).contains(other) <==> hex_dist(h, other) == radius,
{
    if radius == 0 {
        if hex_dist(h, other) == 0 {
            assert(other == h);
            assert(ring_seq(h, 0)[0] == h);
        }
    } else {
        if ring_seq(h, radius).contains(other) {
            let k = choose|k: int| 0 <= k < ring_seq(h, radius).len() && ring_seq(h, radius)[k]
                == other;
            lemma_ring_elem_dist(h, radius, k);
        }
        if hex_dist(h, other) == radius {
            lemma_ring_complete(h, radius, other);
            let k = choose|k: int| 0 <= k < 6 * radius && ring_elem(h, radius, k) == other;
            assert(ring_seq(h, radius)[k] == other);
        }
    }
}

/// Length of a ring: one cell at radius 0, else six per unit of radius.
pub proof fn lemma_ring_len(h: HexCoord, radius: int)
    requires
        0 <= radius,
    ensures
        radius == 0 ==> ring_seq(h, radius).len() == 1,
        radius >= 1 ==> ring_seq(h, radius).len() == 6 * radius,
{
}

/// Length of a disk: `3 r (r + 1) + 1` cells for radius `r`.
pub proof fn lemma_range_len(h: HexCoord, radius: int)
    requires
        0 <= radius,
    ensures
        range_seq(h, radius).len() == 3 * radius * (radius + 1) + 1,
    decreases radius,
{
    if radius > 0 {
        lemma_range_len(h, radius - 1);
        assert(3 * (radius - 1) * ((radius - 1) + 1) + 1 + 6 * radius == 3 * radius * (radius + 1)
            + 1) by (nonlinear_arith);
    } else {
        assert(3 * radius * (radius + 1) + 1 == 1) by (nonlinear_arith)
            requires
                radius == 0,
        ;
    }
}

/// A disk holds a cell exactly when the cell lies within the disk's radius.
pub proof fn lemma_range_contains(h: HexCoord, radius: int, other: HexCoord)
    requires
        coord_in_bounds(h),
        0 <= radius <= RADIUS_LIMIT,
    ensures
        range_seq(h, radius).contains(other) <==> hex_dist(h, other) <= radius,
    decreases radius,
{
    lemma_ring_contains(h, radius, other);
    if radius == 0 {
    } else {
        lemma_range_contains(h, radius - 1, other);
        let prefix = range_seq(h, radius - 1);
        let ring = ring_seq(h, radius);
        let whole = range_seq(h, radius);
        assert forall|x: HexCoord| whole.contains(x) implies prefix.contains(x) || ring.contains(
            x,
        ) by {
            let k = choose|k: int| 0 <= k < whole.len() && whole[k] == x;
            if k < prefix.len() {
                assert(prefix[k] == x);
            } else {
                assert(ring[k - prefix.len()] == x);
            }
        }
        if prefix.contains(other) {
            let k = choose|k: int| 0 <= k < prefix.len() && prefix[k] == other;
            assert(whole[k] == other);
        }
        if ring.contains(other) {
            let k = choose|k: int| 0 <= k < ring.len() && ring[k] == other;
            assert(whole[prefix.len() + k] == other);
        }
    }
}

/// The cells of a disk are pairwise distinct: the rings that make it up are
/// themselves duplicate-free and lie at distinct distances.
pub proof fn lemma_range_distinct(h: HexCoord, radius: int, k1: int, k2: int)
    requires
        coord_in_bounds(h),
        0 <= radius <= RADIUS_LIMIT,
        0 <= k1 < k2 < range_seq(h, radius).len(),
    ensures
        range_seq(h, radius)[k1] != range_seq(h, radius)[k2],
    decreases radius,
{
    if radius > 0 {
        let prefix = range_seq(h, radius - 1);
        let ring = ring_seq(h, radius);
        if k2 < prefix.len() {
            lemma_range_distinct(h, radius - 1, k1, k2);
        } else if k1 >= prefix.len() {
            lemma_ring_elem_distinct(h, radius, k1 - prefix.len(), k2 - prefix.len());
        } else {
            // k1 lies in the inner disk, k2 on the outer ring: distances differ
            let x1 = prefix[k1];
            assert(prefix.contains(x1));
            lemma_range_contains(h, radius - 1, x1);
            lemma_ring_elem_dist(h, radius, k2 - prefix.len());
        }
    }
}

/// Neighborhood is symmetric: if `b` is among `a`'s neighbors then `a` is
/// among `b`'s.
pub proof fn lemma_neighbor_symmetric(a: HexCoord, b: HexCoord)
    requires
        coord_slack(a),
        coord_slack(b),
    ensures
        (exists|i: int| 0 <= i < 6 && neighbor_of(a, i) == b) <==> (exists|j: int|
            0 <= j < 6 && neighbor_of(b, j) == a),
{
    lemma_neighbor_iff(a, b);
    lemma_neighbor_iff(b, a);
    lemma_hex_dist_symmetric(a, b);
}

} // verus!
