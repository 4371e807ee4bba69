//! Circular bodies and the absorption rule: a strictly larger, overlapping,
//! live circle consumes a smaller one, grows to the area-conserving merged
//! radius, and reports a speed cost to its owner.

use vstd::prelude::*;
use crate::geom::{dist_sq, dist_sq_exec, lemma_square_bound, lemma_square_nonneg, Vect};
use crate::num::{
    is_sqrt_floor, isqrt, lemma_sqrt_floor_is_sqrt, lemma_sqrt_floor_lower,
    lemma_sqrt_floor_upper, sqrt_floor,
};

verus! {

/// Largest radius the engine works with, in milliunits.
pub const RADIUS_LIMIT: i64 = 2_147_483_648;

/// A circular body. `absorbed` marks a body that has been consumed this
/// frame: it is logically dead and takes no further part in interactions.
#[derive(Clone, Copy, PartialEq, Eq, Structural, Debug)]
pub struct Cell {
    pub center: Vect,
    pub radius: i64,
    pub absorbed: bool,
}

impl Cell {
    /// The center is in range and the radius positive and in range.
    pub open spec fn wf(self) -> bool {
        &&& self.center.wf()
        &&& 0 < self.radius <= RADIUS_LIMIT
    }

    /// Two circles overlap: squared center distance is at most the square
    /// of the sum of the radii.
    pub open spec fn spec_intersects(a: Cell, b: Cell) -> bool {
        dist_sq(a.center, b.center) <= (a.radius + b.radius) * (a.radius + b.radius)
    }

    /// Absorption succeeds exactly when both circles are live, they
    /// overlap, and the absorber is strictly larger.
    pub open spec fn spec_absorbs(a: Cell, b: Cell) -> bool {
        &&& !a.absorbed
        &&& !b.absorbed
        &&& Self::spec_intersects(a, b)
        &&& a.radius > b.radius
    }

    /// The radius after a merge: the floored square root of the sum of the
    /// squared radii, kept within the working range.
    pub open spec fn merged_radius(br: int, sr: int) -> int {
        let s = sqrt_floor((br * br + sr * sr) as nat) as int;
        if s > RADIUS_LIMIT as int { RADIUS_LIMIT as int } else { s }
    }

    /// The speed cost reported to the absorber's owner: one tenth of the
    /// (never positive) difference between the old radius and the merged
    /// radius. It is subtracted from the owner's speed, so the owner gets
    /// faster by a tenth of the radius gain.
    pub open spec fn speed_cost(br: int, merged: int) -> int {
        -((merged - br) / 10)
    }

    pub fn intersects(&self, cell: &Cell) -> (r: bool)
        requires
            self.wf(),
            cell.wf(),
        ensures
            r == Self::spec_intersects(*self, *cell),
    {
        let rs: i128 = self.radius as i128 + cell.radius as i128;
        proof {
            lemma_square_nonneg(rs as int);
            lemma_square_bound(rs as int, 2 * RADIUS_LIMIT as int);
        }
        let rs2: u128 = (rs * rs) as u128;
        dist_sq_exec(&self.center, &cell.center) <= rs2
    }

    /// Try to absorb `cell`. On success `cell` is marked absorbed, this
    /// circle's radius becomes the merged radius, and the speed cost is
    /// returned; otherwise nothing changes and `None` is returned.
    pub fn try_absorb(&mut self, cell: &mut Cell) -> (cost: Option<i64>)
        requires
            old(self).wf(),
            old(cell).wf(),
        ensures
            final(self).wf(),
            final(cell).wf(),
            final(self).radius >= old(self).radius,
            final(self).center == old(self).center,
            final(self).absorbed == old(self).absorbed,
            Self::spec_absorbs(*old(self), *old(cell)) ==> {
                &&& *final(cell) == (Cell { absorbed: true, ..*old(cell) })
                &&& final(self).radius as int == Self::merged_radius(
                    old(self).radius as int, old(cell).radius as int)
                &&& cost == Some((Self::speed_cost(
                    old(self).radius as int, final(self).radius as int)) as i64)
            },
            !Self::spec_absorbs(*old(self), *old(cell)) ==> {
                &&& *final(self) == *old(self)
                &&& *final(cell) == *old(cell)
                &&& cost is None
            },
    {
        if !self.absorbed && !cell.absorbed && self.intersects(cell) && self.radius > cell.radius {
            cell.absorbed = true;

            proof {
                lemma_square_nonneg(self.radius as int);
                lemma_square_nonneg(cell.radius as int);
                lemma_square_bound(self.radius as int, RADIUS_LIMIT as int);
                lemma_square_bound(cell.radius as int, RADIUS_LIMIT as int);
            }
            let br2: u128 = (self.radius as i128 * self.radius as i128) as u128;
            let sr2: u128 = (cell.radius as i128 * cell.radius as i128) as u128;
            let s: u64 = isqrt(br2 + sr2);
            let new_radius: i64 = if s > RADIUS_LIMIT as u64 { RADIUS_LIMIT } else { s as i64 };
            proof {
                lemma_sqrt_floor_lower(
                    (br2 + sr2) as int, s as int, self.radius as int);
            }
            let gain: i64 = new_radius - self.radius;
            self.radius = new_radius;
            Some(-((gain as u64 / 10) as i64))
        } else {
            None
        }
    }
}

/// Absorption is strict: circles of equal radius never absorb each other,
/// in either direction; by `try_absorb`'s contract the call then returns
/// `None` and changes nothing.
pub proof fn lemma_absorb_strict(a: Cell, b: Cell)
    requires
        a.radius == b.radius,
    ensures
        !Cell::spec_absorbs(a, b),
        !Cell::spec_absorbs(b, a),
{
}

/// Absorption requires overlap: when the squared center distance exceeds
/// the squared sum of the radii, neither circle can absorb the other,
/// whatever the radii; by `try_absorb`'s contract the call then returns
/// `None` and changes nothing.
pub proof fn lemma_absorb_needs_overlap(a: Cell, b: Cell)
    requires
        dist_sq(a.center, b.center) > (a.radius + b.radius) * (a.radius + b.radius),
    ensures
        !Cell::spec_absorbs(a, b),
        !Cell::spec_absorbs(b, a),
{
    lemma_intersects_symmetric(a, b);
}

/// The merge formula: while the merged radius stays within the working
/// range, it is exactly the floored square root of the sum of the squared
/// radii of the two circles.
pub proof fn lemma_merge_radius_exact(br: int, sr: int)
    requires
        0 < br,
        0 < sr,
        br * br + sr * sr <= (RADIUS_LIMIT as int) * (RADIUS_LIMIT as int),
    ensures
        is_sqrt_floor(br * br + sr * sr, Cell::merged_radius(br, sr)),
{
    lemma_sqrt_floor_is_sqrt((br * br + sr * sr) as nat);
    let s = sqrt_floor((br * br + sr * sr) as nat) as int;
    lemma_sqrt_floor_upper(br * br + sr * sr, s, RADIUS_LIMIT as int);
}

/// Overlap is symmetric.
pub proof fn lemma_intersects_symmetric(a: Cell, b: Cell)
    ensures
        Cell::spec_intersects(a, b) == Cell::spec_intersects(b, a),
{
    let ax = a.center.x as int;
    let ay = a.center.y as int;
    let bx = b.center.x as int;
    let by = b.center.y as int;
    assert((bx - ax) * (bx - ax) == (ax - bx) * (ax - bx)) by (nonlinear_arith);
    assert((by - ay) * (by - ay) == (ay - by) * (ay - by)) by (nonlinear_arith);
    assert(dist_sq(b.center, a.center) == dist_sq(a.center, b.center));
    assert(b.radius + a.radius == a.radius + b.radius);
}

/// Growing a circle in place keeps every overlap it had.
pub proof fn lemma_intersects_mono(a: Cell, a2: Cell, b: Cell)
    requires
        a2.center == a.center,
        a2.radius >= a.radius,
        a.radius >= 0,
        b.radius >= 0,
        Cell::spec_intersects(a, b),
    ensures
        Cell::spec_intersects(a2, b),
{
    assert((a.radius + b.radius) * (a.radius + b.radius)
        <= (a2.radius + b.radius) * (a2.radius + b.radius)) by (nonlinear_arith)
        requires 0 <= a.radius + b.radius <= a2.radius + b.radius;
}

/// Bounds on a charged speed cost, for the owner's speed bookkeeping: a
/// cost lies in `[-RADIUS_LIMIT, 0]` whenever the merge grew the radius by
/// at most the working range.
pub proof fn lemma_cost_bounds(br: int, m: int)
    requires
        br <= m,
        m - br <= RADIUS_LIMIT as int,
    ensures
        -(RADIUS_LIMIT as int) <= Cell::speed_cost(br, m) <= 0,
{
    vstd::arithmetic::div_mod::lemma_div_pos_is_pos(m - br, 10);
    vstd::arithmetic::div_mod::lemma_div_nonincreasing(m - br, 10);
}

/// The speed cost never rewards shrinking: the merged radius is at least
/// the absorber's old radius, so the cost is never positive — absorbing
/// can only speed the owner up, never slow it down.
pub proof fn lemma_cost_nonpositive(br: int, sr: int)
    requires
        0 < br <= RADIUS_LIMIT as int,
        0 < sr,
    ensures
        Cell::merged_radius(br, sr) >= br,
        Cell::speed_cost(br, Cell::merged_radius(br, sr)) <= 0,
{
    let n = br * br + sr * sr;
    lemma_sqrt_floor_is_sqrt(n as nat);
    let s = sqrt_floor(n as nat) as int;
    assert(br * br <= n) by (nonlinear_arith)
        requires 0 < sr && n == br * br + sr * sr;
    lemma_sqrt_floor_lower(n, s, br);
    let m = Cell::merged_radius(br, sr);
    assert(m >= br);
    assert((m - br) / 10 >= 0) by {
        vstd::arithmetic::div_mod::lemma_div_pos_is_pos(m - br, 10);
    }
}

} // verus!
