//! The player: a circle steered toward an externally supplied target point,
//! feeding on every food it overlaps.

use vstd::prelude::*;
use vstd::pervasive::VecAdditionalExecFns;
use crate::cell::{lemma_cost_bounds, Cell, RADIUS_LIMIT};
use crate::food::Food;
use crate::geom::{move_toward, move_toward_spec, Vect, SPEED_LIMIT};

verus! {

/// Radius of the player at the start, in milliunits.
pub const PLAYER_RADIUS: i64 = 10_000;

/// Speed of the player at the start, in milliunits per second.
pub const PLAYER_SPEED: i64 = 80_000;

#[derive(Clone, Copy, PartialEq, Eq, Structural, Debug)]
pub struct Player {
    pub cell: Cell,
    pub speed: i64,
    pub absorbed_food: i32,
}

/// A speed after a cost has been charged: the cost is subtracted (it is
/// never positive, so the speed never drops) and the result kept within
/// the working range.
pub open spec fn bump_speed(s: int, cost: int) -> int {
    let v = s - cost;
    if v > SPEED_LIMIT as int { SPEED_LIMIT as int } else { v }
}

/// Charge a speed cost; see `bump_speed`.
pub fn bump_speed_exec(s: i64, cost: i64) -> (r: i64)
    requires
        0 <= s <= SPEED_LIMIT,
        -RADIUS_LIMIT <= cost <= 0,
    ensures
        r as int == bump_speed(s as int, cost as int),
        s <= r <= SPEED_LIMIT,
{
    let v = s - cost;
    if v > SPEED_LIMIT { SPEED_LIMIT } else { v }
}

/// One feeding attempt: if the player can absorb the food, the food is
/// marked, the player's radius becomes the merged radius, the speed cost
/// is charged and the food counter advances (it sticks at its maximum
/// rather than overflow); otherwise both are unchanged.
pub open spec fn feed_once(p: Player, f: Food) -> (Player, Food) {
    if Cell::spec_absorbs(p.cell, f.cell) {
        let m = Cell::merged_radius(p.cell.radius as int, f.cell.radius as int);
        let cost = Cell::speed_cost(p.cell.radius as int, m);
        (Player {
            cell: (Cell { radius: m as i64, ..p.cell }),
            speed: bump_speed(p.speed as int, cost) as i64,
            absorbed_food: if p.absorbed_food < i32::MAX {
                (p.absorbed_food + 1) as i32
            } else {
                p.absorbed_food
            },
        }, Food { cell: (Cell { absorbed: true, ..f.cell }) })
    } else {
        (p, f)
    }
}

/// The player after feeding on the first `i` entries of `fs` in order,
/// together with the food sequence as it then stands.
pub open spec fn feed_prefix(p: Player, fs: Seq<Food>, i: int) -> (Player, Seq<Food>)
    decreases i,
{
    if i <= 0 {
        (p, fs)
    } else {
        let r = feed_prefix(p, fs, i - 1);
        let s = feed_once(r.0, r.1[i - 1]);
        (s.0, r.1.update(i - 1, s.1))
    }
}

impl Player {
    pub open spec fn wf(self) -> bool {
        &&& self.cell.wf()
        &&& 0 <= self.speed <= SPEED_LIMIT
        &&& 0 <= self.absorbed_food
    }

    /// The player as it is at the start of a game, centered on `start`.
    pub open spec fn spec_new(start: Vect) -> Player {
        Player {
            cell: Cell { center: start, radius: PLAYER_RADIUS, absorbed: false },
            speed: PLAYER_SPEED,
            absorbed_food: 0,
        }
    }

    pub fn new(start: Vect) -> (p: Player)
        requires
            start.wf(),
        ensures
            p == Self::spec_new(start),
            p.wf(),
    {
        Player {
            cell: Cell { center: start, radius: PLAYER_RADIUS, absorbed: false },
            speed: PLAYER_SPEED,
            absorbed_food: 0,
        }
    }

    /// One frame of the player: move straight toward `target` for `dt_ms`
    /// milliseconds, then try to feed on every food entry in order.
    pub fn update(&mut self, target: Vect, dt_ms: u32, food: &mut Vec<Food>)
        requires
            old(self).wf(),
            target.wf(),
            forall|j: int| 0 <= j < old(food)@.len() ==> (#[trigger] old(food)@[j]).wf(),
        ensures
            final(self).wf(),
            final(food)@.len() == old(food)@.len(),
            forall|j: int| 0 <= j < final(food)@.len() ==> (#[trigger] final(food)@[j]).wf(),
            ({
                let moved = Player {
                    cell: (Cell {
                        center: move_toward_spec(
                            old(self).cell.center, target, old(self).speed as int, dt_ms as int),
                        ..old(self).cell
                    }),
                    ..*old(self)
                };
                let r = feed_prefix(moved, old(food)@, old(food)@.len() as int);
                *final(self) == r.0 && final(food)@ == r.1
            }),
            final(self).cell.absorbed == old(self).cell.absorbed,
            final(self).cell.center == move_toward_spec(
                old(self).cell.center, target, old(self).speed as int, dt_ms as int),
            final(self).speed >= old(self).speed,
    {
        self.cell.center = move_toward(&self.cell.center, &target, self.speed, dt_ms);
        let ghost p0 = *self;
        let ghost fs0 = food@;
        let n = food.len();
        let mut i: usize = 0;
        while i < n
            invariant
                i <= n,
                n == food@.len(),
                fs0.len() == n as int,
                self.wf(),
                forall|j: int| 0 <= j < n ==> (#[trigger] food@[j]).wf(),
                forall|j: int| i <= j < n ==> food@[j] == fs0[j],
                ({
                    let r = feed_prefix(p0, fs0, i as int);
                    *self == r.0 && food@ == r.1
                }),
                self.cell.absorbed == p0.cell.absorbed,
                self.cell.center == p0.cell.center,
                self.speed >= p0.speed,
            decreases n - i,
        {
            let ghost pre_p = *self;
            let ghost pre_fs = food@;
            let mut f = food[i];
            let cost_opt = self.cell.try_absorb(&mut f.cell);
            if let Some(cost) = cost_opt {
                proof {
                    lemma_cost_bounds(pre_p.cell.radius as int, self.cell.radius as int);
                }
                self.speed = bump_speed_exec(self.speed, cost);
                self.absorbed_food = if self.absorbed_food < i32::MAX {
                    self.absorbed_food + 1
                } else {
                    self.absorbed_food
                };
            }
            food.set(i, f);
            proof {
                let fo = feed_once(pre_p, pre_fs[i as int]);
                assert(*self == fo.0 && f == fo.1);
                assert(food@ == pre_fs.update(i as int, f));
            }
            i += 1;
        }
    }
}

} // verus!
