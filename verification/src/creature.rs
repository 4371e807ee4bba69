//! Autonomous creatures: each frame a creature duels the player, duels
//! every creature after it in the collection, then chases the nearest
//! live food.

use vstd::prelude::*;
use vstd::pervasive::VecAdditionalExecFns;
use crate::cell::{lemma_cost_bounds, Cell};
use crate::food::Food;
use crate::geom::{dist_sq, dist_sq_exec, move_toward, move_toward_spec, Vect, POS_LIMIT, SPEED_LIMIT};
use crate::player::{bump_speed, bump_speed_exec, Player};
use crate::rng::rand_below;

verus! {

/// Radius of a creature at spawn, in milliunits.
pub const CREATURE_RADIUS: i64 = 8_000;

/// Speed of a creature at spawn, in milliunits per second.
pub const CREATURE_SPEED: i64 = 65_000;

#[derive(Clone, Copy, PartialEq, Eq, Structural, Debug)]
pub struct Creature {
    pub cell: Cell,
    pub speed: i64,
}

/// A duel between the acting creature and the player: absorption is tried
/// in both directions, first creature-absorbs-player, then (on what is
/// left) player-absorbs-creature; at most one direction can succeed, and
/// each success charges its speed cost to the winning side.
pub open spec fn duel_player(c: Creature, p: Player) -> (Creature, Player) {
    let first = if Cell::spec_absorbs(c.cell, p.cell) {
        let m = Cell::merged_radius(c.cell.radius as int, p.cell.radius as int);
        let cost = Cell::speed_cost(c.cell.radius as int, m);
        (Creature {
            cell: (Cell { radius: m as i64, ..c.cell }),
            speed: bump_speed(c.speed as int, cost) as i64,
        }, Player { cell: (Cell { absorbed: true, ..p.cell }), ..p })
    } else {
        (c, p)
    };
    let c1 = first.0;
    let p1 = first.1;
    if Cell::spec_absorbs(p1.cell, c1.cell) {
        let m = Cell::merged_radius(p1.cell.radius as int, c1.cell.radius as int);
        let cost = Cell::speed_cost(p1.cell.radius as int, m);
        (Creature { cell: (Cell { absorbed: true, ..c1.cell }), ..c1 },
        Player {
            cell: (Cell { radius: m as i64, ..p1.cell }),
            speed: bump_speed(p1.speed as int, cost) as i64,
            ..p1
        })
    } else {
        (c1, p1)
    }
}

/// A duel between the acting creature and another creature, both
/// directions, as in `duel_player`.
pub open spec fn duel_creature(c: Creature, o: Creature) -> (Creature, Creature) {
    let first = if Cell::spec_absorbs(c.cell, o.cell) {
        let m = Cell::merged_radius(c.cell.radius as int, o.cell.radius as int);
        let cost = Cell::speed_cost(c.cell.radius as int, m);
        (Creature {
            cell: (Cell { radius: m as i64, ..c.cell }),
            speed: bump_speed(c.speed as int, cost) as i64,
        }, Creature { cell: (Cell { absorbed: true, ..o.cell }), ..o })
    } else {
        (c, o)
    };
    let c1 = first.0;
    let o1 = first.1;
    if Cell::spec_absorbs(o1.cell, c1.cell) {
        let m = Cell::merged_radius(o1.cell.radius as int, c1.cell.radius as int);
        let cost = Cell::speed_cost(o1.cell.radius as int, m);
        (Creature { cell: (Cell { absorbed: true, ..c1.cell }), ..c1 },
        Creature {
            cell: (Cell { radius: m as i64, ..o1.cell }),
            speed: bump_speed(o1.speed as int, cost) as i64,
        })
    } else {
        (c1, o1)
    }
}

/// The acting creature after dueling `os[from], .., os[j-1]` in order,
/// together with the creature sequence as it then stands.
pub open spec fn brawl_prefix(c: Creature, os: Seq<Creature>, from: int, j: int) -> (Creature, Seq<Creature>)
    decreases j - from,
{
    if j <= from {
        (c, os)
    } else {
        let r = brawl_prefix(c, os, from, j - 1);
        let s = duel_creature(r.0, r.1[j - 1]);
        (s.0, r.1.update(j - 1, s.1))
    }
}

/// Index of the live food nearest to `center` among the first `i` entries
/// of `fs`; the first-encountered wins ties.
pub open spec fn nearest_prefix(center: Vect, fs: Seq<Food>, i: int) -> Option<int>
    decreases i,
{
    if i <= 0 {
        None
    } else {
        let b = nearest_prefix(center, fs, i - 1);
        if fs[i - 1].cell.absorbed {
            b
        } else {
            match b {
                None => Some(i - 1),
                Some(j) => if dist_sq(center, fs[i - 1].cell.center) < dist_sq(center, fs[j].cell.center) {
                    Some(i - 1)
                } else {
                    b
                },
            }
        }
    }
}

/// Index of the live food nearest to `center`, if any food is live.
pub open spec fn nearest_live_food(center: Vect, fs: Seq<Food>) -> Option<int> {
    nearest_prefix(center, fs, fs.len() as int)
}

/// Find the nearest live food by a full scan; see `nearest_live_food`.
pub fn find_nearest_live_food(center: &Vect, food: &Vec<Food>) -> (r: Option<usize>)
    requires
        center.wf(),
        forall|j: int| 0 <= j < food@.len() ==> (#[trigger] food@[j]).wf(),
    ensures
        match r {
            Some(k) => 0 <= k < food@.len() && nearest_live_food(*center, food@) == Some(k as int),
            None => nearest_live_food(*center, food@) is None,
        },
{
    let n = food.len();
    let mut best: Option<usize> = None;
    let mut i: usize = 0;
    while i < n
        invariant
            i <= n,
            n == food@.len(),
            center.wf(),
            forall|j: int| 0 <= j < n ==> (#[trigger] food@[j]).wf(),
            match best {
                Some(k) => 0 <= k < i && nearest_prefix(*center, food@, i as int) == Some(k as int),
                None => nearest_prefix(*center, food@, i as int) is None,
            },
        decreases n - i,
    {
        if !food[i].cell.absorbed {
            match best {
                None => {
                    best = Some(i);
                },
                Some(k) => {
                    let di = dist_sq_exec(center, &food[i].cell.center);
                    let dk = dist_sq_exec(center, &food[k].cell.center);
                    if di < dk {
                        best = Some(i);
                    }
                },
            }
        }
        i += 1;
    }
    best
}

/// The food-seeking phase: if any food is live, the creature moves toward
/// the nearest one for `dt` milliseconds and then tries to absorb it; with
/// no live food, nothing happens.
pub open spec fn seek_food(c: Creature, fs: Seq<Food>, dt: int) -> (Creature, Seq<Food>) {
    match nearest_live_food(c.cell.center, fs) {
        None => (c, fs),
        Some(j) => {
            let moved = Creature {
                cell: (Cell {
                    center: move_toward_spec(c.cell.center, fs[j].cell.center, c.speed as int, dt),
                    ..c.cell
                }),
                ..c
            };
            if Cell::spec_absorbs(moved.cell, fs[j].cell) {
                let m = Cell::merged_radius(moved.cell.radius as int, fs[j].cell.radius as int);
                let cost = Cell::speed_cost(moved.cell.radius as int, m);
                (Creature {
                    cell: (Cell { radius: m as i64, ..moved.cell }),
                    speed: bump_speed(moved.speed as int, cost) as i64,
                }, fs.update(j, Food { cell: (Cell { absorbed: true, ..fs[j].cell }) }))
            } else {
                (moved, fs)
            }
        },
    }
}

/// One frame of the acting creature against the food, the player and the
/// creatures from index `from` on: duel the player both ways, duel each
/// later creature both ways, then chase the nearest live food.
pub open spec fn update_spec(
    c: Creature,
    fs: Seq<Food>,
    pl: Option<Player>,
    os: Seq<Creature>,
    from: int,
    dt: int,
) -> (Creature, Seq<Food>, Option<Player>, Seq<Creature>) {
    let afterp = match pl {
        Some(p) => {
            let d = duel_player(c, p);
            (d.0, Some(d.1))
        },
        None => (c, pl),
    };
    let afterb = brawl_prefix(afterp.0, os, from, os.len() as int);
    let afterf = seek_food(afterb.0, fs, dt);
    (afterf.0, afterf.1, afterp.1, afterb.1)
}

/// The decisive half of the partition scheme: when two live, overlapping
/// creatures of distinct radii meet in a duel, exactly one of them comes
/// out absorbed — the smaller one — and since the acting creature duels
/// each later creature exactly once (`brawl_prefix` walks each index
/// once), no overlapping distinct pair can survive the frame in which it
/// was compared.
pub proof fn lemma_duel_decides(c: Creature, o: Creature)
    requires
        !c.cell.absorbed,
        !o.cell.absorbed,
        Cell::spec_intersects(c.cell, o.cell),
        c.cell.radius != o.cell.radius,
    ensures
        ({
            let d = duel_creature(c, o);
            &&& d.0.cell.absorbed != d.1.cell.absorbed
            &&& (d.0.cell.absorbed <==> c.cell.radius < o.cell.radius)
        }),
{
    crate::cell::lemma_intersects_symmetric(c.cell, o.cell);
}

/// The sweeping half of the partition scheme: an acting creature that is
/// live and strictly larger than, and overlapping, every live opponent in
/// its suffix absorbs all of them in one pass — each pair is resolved the
/// one time it is visited, the acting creature only grows (so no overlap
/// is lost along the way), and nothing outside the suffix is touched.
pub proof fn lemma_brawl_sweeps(c: Creature, os: Seq<Creature>, from: int, j: int)
    requires
        !c.cell.absorbed,
        0 < c.cell.radius <= crate::cell::RADIUS_LIMIT,
        0 <= from <= j <= os.len(),
        forall|k: int| from <= k < j ==> !(#[trigger] os[k]).cell.absorbed,
        forall|k: int| from <= k < j ==> 0 < (#[trigger] os[k]).cell.radius,
        forall|k: int| from <= k < j ==> Cell::spec_intersects(c.cell, (#[trigger] os[k]).cell),
        forall|k: int| from <= k < j ==> c.cell.radius > (#[trigger] os[k]).cell.radius,
    ensures
        ({
            let r = brawl_prefix(c, os, from, j);
            &&& r.1.len() == os.len()
            &&& !r.0.cell.absorbed
            &&& r.0.cell.center == c.cell.center
            &&& c.cell.radius <= r.0.cell.radius <= crate::cell::RADIUS_LIMIT
            &&& forall|k: int| from <= k < j ==> (#[trigger] r.1[k]).cell.absorbed
            &&& forall|k: int| 0 <= k < os.len() && !(from <= k < j) ==> r.1[k] == os[k]
        }),
    decreases j - from,
{
    if j > from {
        lemma_brawl_sweeps(c, os, from, j - 1);
        let r = brawl_prefix(c, os, from, j - 1);
        let o = os[j - 1];
        assert(r.1[j - 1] == o);
        crate::cell::lemma_intersects_mono(c.cell, r.0.cell, o.cell);
        assert(Cell::spec_absorbs(r.0.cell, o.cell));
        let m = Cell::merged_radius(r.0.cell.radius as int, o.cell.radius as int);
        crate::cell::lemma_cost_nonpositive(r.0.cell.radius as int, o.cell.radius as int);
        assert(m >= r.0.cell.radius);
        let d = duel_creature(r.0, o);
        assert(d.1.cell.absorbed);
        assert(!d.0.cell.absorbed);
        assert(d.0.cell.center == r.0.cell.center);
        assert(d.0.cell.radius as int == m);
        let rj = brawl_prefix(c, os, from, j);
        assert(rj.0 == d.0);
        assert(rj.1 == r.1.update(j - 1, d.1));
        assert forall|k: int| from <= k < j implies (#[trigger] rj.1[k]).cell.absorbed by {
            if k < j - 1 {
                assert(rj.1[k] == r.1[k]);
            } else {
                assert(rj.1[k] == d.1);
            }
        }
    }
}

/// An absorbed creature no longer takes part: its whole brawl changes
/// nothing, on either side.
pub proof fn lemma_brawl_absorbed_identity(c: Creature, os: Seq<Creature>, from: int, j: int)
    requires
        c.cell.absorbed,
        0 <= from <= j <= os.len(),
    ensures
        brawl_prefix(c, os, from, j).0 == c,
        brawl_prefix(c, os, from, j).1 == os,
    decreases j - from,
{
    if j > from {
        lemma_brawl_absorbed_identity(c, os, from, j - 1);
        let d = duel_creature(c, os[j - 1]);
        assert(d.0 == c && d.1 == os[j - 1]);
        assert(os.update(j - 1, os[j - 1]) =~= os);
    }
}

impl Creature {
    pub open spec fn wf(self) -> bool {
        &&& self.cell.wf()
        &&& 0 <= self.speed <= SPEED_LIMIT
    }

    /// What a freshly spawned creature looks like: live, of the fixed
    /// radius and speed, somewhere within the bounds.
    pub open spec fn is_fresh(self, bounds: Vect) -> bool {
        &&& self.cell.radius == CREATURE_RADIUS
        &&& !self.cell.absorbed
        &&& self.speed == CREATURE_SPEED
        &&& 0 <= self.cell.center.x < bounds.x
        &&& 0 <= self.cell.center.y < bounds.y
    }

    /// Spawn one creature at a uniformly random position in
    /// `[0, bounds.x) x [0, bounds.y)`.
    pub fn random(bounds: Vect) -> (c: Creature)
        requires
            0 < bounds.x <= POS_LIMIT,
            0 < bounds.y <= POS_LIMIT,
        ensures
            c.wf(),
            c.is_fresh(bounds),
    {
        Creature {
            cell: Cell {
                center: Vect { x: rand_below(bounds.x), y: rand_below(bounds.y) },
                radius: CREATURE_RADIUS,
                absorbed: false,
            },
            speed: CREATURE_SPEED,
        }
    }

    /// One frame of this creature; see `update_spec`. `opps` is the whole
    /// creature collection; only the entries from `from` on are touched
    /// (this creature itself stands before `from` and is handled by the
    /// caller).
    pub fn update(
        &mut self,
        food: &mut Vec<Food>,
        player: &mut Option<Player>,
        opps: &mut Vec<Creature>,
        from: usize,
        dt_ms: u32,
    )
        requires
            old(self).wf(),
            from <= old(opps)@.len(),
            forall|j: int| 0 <= j < old(food)@.len() ==> (#[trigger] old(food)@[j]).wf(),
            forall|j: int| 0 <= j < old(opps)@.len() ==> (#[trigger] old(opps)@[j]).wf(),
            (*old(player)) matches Some(p) ==> p.wf(),
        ensures
            final(self).wf(),
            final(food)@.len() == old(food)@.len(),
            final(opps)@.len() == old(opps)@.len(),
            forall|j: int| 0 <= j < final(food)@.len() ==> (#[trigger] final(food)@[j]).wf(),
            forall|j: int| 0 <= j < final(opps)@.len() ==> (#[trigger] final(opps)@[j]).wf(),
            forall|j: int| 0 <= j < from ==> final(opps)@[j] == old(opps)@[j],
            (*final(player)) matches Some(p) ==> p.wf(),
            (*final(player)) is Some <==> (*old(player)) is Some,
            ({
                let r = update_spec(
                    *old(self), old(food)@, *old(player), old(opps)@, from as int, dt_ms as int);
                *final(self) == r.0 && final(food)@ == r.1 && *final(player) == r.2
                    && final(opps)@ == r.3
            }),
    {
        let pl: Option<Player> = *player;
        if let Some(mut p) = pl {
            let ghost c_pre = *self;
            let ghost p_pre = p;
            let cost1 = self.cell.try_absorb(&mut p.cell);
            if let Some(cost) = cost1 {
                proof {
                    lemma_cost_bounds(c_pre.cell.radius as int, self.cell.radius as int);
                }
                self.speed = bump_speed_exec(self.speed, cost);
            }
            let ghost p_mid = p;
            let cost2 = p.cell.try_absorb(&mut self.cell);
            if let Some(cost) = cost2 {
                proof {
                    lemma_cost_bounds(p_mid.cell.radius as int, p.cell.radius as int);
                }
                p.speed = bump_speed_exec(p.speed, cost);
            }
            *player = Some(p);
            proof {
                let d = duel_player(c_pre, p_pre);
                assert(*self == d.0 && p == d.1);
            }
        }

        let ghost c1 = *self;
        let ghost os0 = opps@;
        let n = opps.len();
        let mut j: usize = from;
        while j < n
            invariant
                from <= j <= n,
                n == opps@.len(),
                os0.len() == n as int,
                self.wf(),
                forall|k: int| 0 <= k < n ==> (#[trigger] opps@[k]).wf(),
                forall|k: int| 0 <= k < from ==> opps@[k] == os0[k],
                forall|k: int| j <= k < n ==> opps@[k] == os0[k],
                ({
                    let r = brawl_prefix(c1, os0, from as int, j as int);
                    *self == r.0 && opps@ == r.1
                }),
            decreases n - j,
        {
            let ghost c_pre = *self;
            let ghost os_pre = opps@;
            let mut o = opps[j];
            let cost1 = self.cell.try_absorb(&mut o.cell);
            if let Some(cost) = cost1 {
                proof {
                    lemma_cost_bounds(c_pre.cell.radius as int, self.cell.radius as int);
                }
                self.speed = bump_speed_exec(self.speed, cost);
            }
            let ghost o_mid = o;
            let cost2 = o.cell.try_absorb(&mut self.cell);
            if let Some(cost) = cost2 {
                proof {
                    lemma_cost_bounds(o_mid.cell.radius as int, o.cell.radius as int);
                }
                o.speed = bump_speed_exec(o.speed, cost);
            }
            opps.set(j, o);
            proof {
                let d = duel_creature(c_pre, os_pre[j as int]);
                assert(*self == d.0 && o == d.1);
                assert(opps@ == os_pre.update(j as int, o));
            }
            j += 1;
        }

        let ghost c2 = *self;
        let ghost fs0 = food@;
        if let Some(k) = find_nearest_live_food(&self.cell.center, food) {
            let goal = food[k].cell.center;
            self.cell.center = move_toward(&self.cell.center, &goal, self.speed, dt_ms);
            let ghost c_moved = *self;
            let mut f = food[k];
            let cost_opt = self.cell.try_absorb(&mut f.cell);
            if let Some(cost) = cost_opt {
                proof {
                    lemma_cost_bounds(c_moved.cell.radius as int, self.cell.radius as int);
                }
                self.speed = bump_speed_exec(self.speed, cost);
            }
            food.set(k, f);
            proof {
                let s = seek_food(c2, fs0, dt_ms as int);
                assert(*self == s.0 && food@ == s.1);
            }
        }
    }
}

} // verus!
