//! Plane geometry on integer coordinates: points and straight-line movement.

use vstd::prelude::*;
use crate::num::{abs_int, clamp_i128, clamp_spec, isqrt, sqrt_floor};

verus! {

/// Largest coordinate magnitude the engine works with, in milliunits.
pub const POS_LIMIT: i64 = 2_147_483_648;

/// Largest movement speed magnitude, in milliunits per second.
pub const SPEED_LIMIT: i64 = 2_147_483_648;

/// A point (or displacement) on the plane, in milliunits.
#[derive(Clone, Copy, PartialEq, Eq, Structural, Debug)]
pub struct Vect {
    pub x: i64,
    pub y: i64,
}

impl Vect {
    /// Coordinates stay within the engine's working range.
    pub open spec fn wf(self) -> bool {
        &&& -POS_LIMIT <= self.x <= POS_LIMIT
        &&& -POS_LIMIT <= self.y <= POS_LIMIT
    }
}

/// Squared Euclidean distance between two points.
pub open spec fn dist_sq(a: Vect, b: Vect) -> int {
    (a.x - b.x) * (a.x - b.x) + (a.y - b.y) * (a.y - b.y)
}

/// Squares are never negative.
pub proof fn lemma_square_nonneg(v: int)
    ensures
        v * v >= 0,
{
    assert(v * v >= 0) by (nonlinear_arith);
}

/// A square of a value bounded by `c` is bounded by `c * c`.
pub proof fn lemma_square_bound(v: int, c: int)
    requires
        -c <= v <= c,
        0 <= c,
    ensures
        v * v <= c * c,
{
    assert(v * v <= c * c) by (nonlinear_arith)
        requires -c <= v <= c && 0 <= c;
}

/// Squared distance between two in-range points.
pub fn dist_sq_exec(a: &Vect, b: &Vect) -> (r: u128)
    requires
        a.wf(),
        b.wf(),
    ensures
        r as int == dist_sq(*a, *b),
{
    let dx: i128 = a.x as i128 - b.x as i128;
    let dy: i128 = a.y as i128 - b.y as i128;
    proof {
        lemma_square_nonneg(dx as int);
        lemma_square_nonneg(dy as int);
        lemma_square_bound(dx as int, 2 * POS_LIMIT as int);
        lemma_square_bound(dy as int, 2 * POS_LIMIT as int);
    }
    let sx: u128 = (dx * dx) as u128;
    let sy: u128 = (dy * dy) as u128;
    sx + sy
}

/// Where a point ends up after moving from `c` straight toward `t` for
/// `dt` milliseconds at `speed` milliunits per second. The step length is
/// `speed * dt / 1000` and is not capped at the target, so the move can
/// overshoot it; each component is scaled by the floored distance and the
/// result is clamped into the working range. A zero distance leaves the
/// point in place.
pub open spec fn move_toward_spec(c: Vect, t: Vect, speed: int, dt: int) -> Vect {
    let dist = sqrt_floor(dist_sq(c, t) as nat) as int;
    if dist == 0 {
        c
    } else {
        let step = speed * dt / 1000;
        let mx = abs_int(t.x - c.x) * step / dist;
        let my = abs_int(t.y - c.y) * step / dist;
        let xx = if t.x < c.x { c.x - mx } else { c.x + mx };
        let yy = if t.y < c.y { c.y - my } else { c.y + my };
        Vect {
            x: clamp_spec(xx, -POS_LIMIT as int, POS_LIMIT as int) as i64,
            y: clamp_spec(yy, -POS_LIMIT as int, POS_LIMIT as int) as i64,
        }
    }
}

/// One absolute component of the move: `d_abs * step / dist`.
fn move_component(d_abs: u128, step: u128, dist: u128) -> (r: u128)
    requires
        0 < dist,
        d_abs * step <= u128::MAX,
    ensures
        r as int == (d_abs as int) * (step as int) / (dist as int),
{
    d_abs * step / dist
}

/// Move `c` straight toward `t`; see `move_toward_spec`.
pub fn move_toward(c: &Vect, t: &Vect, speed: i64, dt: u32) -> (r: Vect)
    requires
        c.wf(),
        t.wf(),
        0 <= speed <= SPEED_LIMIT,
    ensures
        r == move_toward_spec(*c, *t, speed as int, dt as int),
        r.wf(),
{
    let d2 = dist_sq_exec(c, t);
    let dist = isqrt(d2);
    if dist == 0 {
        *c
    } else {
        assert((speed as int) * (dt as int) <= 0x8000_0000_0000_0000) by (nonlinear_arith)
            requires 0 <= speed as int <= 0x8000_0000 && 0 <= dt as int <= 0xFFFF_FFFF;
        let sd: u128 = (speed as u128) * (dt as u128);
        let step: u128 = sd / 1000;
        let dxa: u128 = if t.x < c.x { (c.x - t.x) as u128 } else { (t.x - c.x) as u128 };
        let dya: u128 = if t.y < c.y { (c.y - t.y) as u128 } else { (t.y - c.y) as u128 };
        assert(dxa * step <= 0x1_0000_0000_0000_0000_0000_0000_0000u128
            && dya * step <= 0x1_0000_0000_0000_0000_0000_0000_0000u128) by (nonlinear_arith)
            requires dxa <= 0x1_0000_0000_0000u128 && dya <= 0x1_0000_0000_0000u128
                && step <= 0x8000_0000_0000_0000u128;
        let mx = move_component(dxa, step, dist as u128);
        let my = move_component(dya, step, dist as u128);
        proof {
            vstd::arithmetic::div_mod::lemma_div_nonincreasing(dxa as int * step as int, dist as int);
            vstd::arithmetic::div_mod::lemma_div_nonincreasing(dya as int * step as int, dist as int);
            vstd::arithmetic::div_mod::lemma_div_pos_is_pos(dxa as int * step as int, dist as int);
            vstd::arithmetic::div_mod::lemma_div_pos_is_pos(dya as int * step as int, dist as int);
        }
        let xx: i128 = if t.x < c.x {
            c.x as i128 - mx as i128
        } else {
            c.x as i128 + mx as i128
        };
        let yy: i128 = if t.y < c.y {
            c.y as i128 - my as i128
        } else {
            c.y as i128 + my as i128
        };
        Vect {
            x: clamp_i128(xx, -POS_LIMIT, POS_LIMIT),
            y: clamp_i128(yy, -POS_LIMIT, POS_LIMIT),
        }
    }
}

} // verus!
