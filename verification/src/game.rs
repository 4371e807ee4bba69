//! The game: the Playing/Win/Lose state machine around one frame of the
//! simulation, the camera follow target, and the leaderboard.

use vstd::prelude::*;
use vstd::pervasive::VecAdditionalExecFns;
use crate::creature::Creature;
use crate::food::Food;
use crate::geom::Vect;
use crate::player::Player;
use crate::world::{food_target, live_creatures, live_food, World};

verus! {

/// Side length of the standard world, in milliunits (2048 units).
pub const WORLD_SIDE: i64 = 2_048_000;

#[derive(Clone, Copy, PartialEq, Eq, Structural, Debug)]
pub enum GameState {
    Playing,
    Win,
    Lose,
}

/// Who a leaderboard entry stands for.
#[derive(Clone, Copy, PartialEq, Eq, Structural, Debug)]
pub enum Contender {
    /// The creature at this position (0-based) in the live collection.
    Creature(usize),
    /// The player.
    Player,
}

/// One leaderboard line: who, and the radius it is ranked by.
#[derive(Clone, Copy, PartialEq, Eq, Structural, Debug)]
pub struct LeaderEntry {
    pub who: Contender,
    pub radius: i64,
}

/// Index of the largest-radius creature among the first `i`; the first
/// one found wins ties (a later equal radius does not displace it).
pub open spec fn biggest_prefix(cs: Seq<Creature>, i: int) -> Option<int>
    decreases i,
{
    if i <= 0 {
        None
    } else {
        let b = biggest_prefix(cs, i - 1);
        match b {
            None => Some(i - 1),
            Some(j) => if cs[i - 1].cell.radius > cs[j].cell.radius {
                Some(i - 1)
            } else {
                b
            },
        }
    }
}

/// Index of the largest-radius creature, if any; first max wins.
pub open spec fn biggest_creature(cs: Seq<Creature>) -> Option<int> {
    biggest_prefix(cs, cs.len() as int)
}

/// Scan for the largest-radius creature; see `biggest_creature`.
pub fn find_biggest_creature(cs: &Vec<Creature>) -> (r: Option<usize>)
    ensures
        match r {
            Some(k) => 0 <= k < cs@.len() && biggest_creature(cs@) == Some(k as int),
            None => biggest_creature(cs@) is None && cs@.len() == 0,
        },
{
    let n = cs.len();
    let mut best: Option<usize> = None;
    let mut i: usize = 0;
    while i < n
        invariant
            i <= n,
            n == cs@.len(),
            match best {
                Some(k) => 0 <= k < i && biggest_prefix(cs@, i as int) == Some(k as int),
                None => biggest_prefix(cs@, i as int) is None && i == 0,
            },
        decreases n - i,
    {
        match best {
            None => {
                best = Some(i);
            },
            Some(k) => {
                if cs[i].cell.radius > cs[k].cell.radius {
                    best = Some(i);
                }
            },
        }
        i += 1;
    }
    best
}

/// The leaderboard's raw entries: one per creature, in collection order,
/// then the player if present.
pub open spec fn contenders(w: World) -> Seq<LeaderEntry> {
    let cs = Seq::new(
        w.creatures@.len(),
        |i: int| LeaderEntry { who: Contender::Creature(i as usize), radius: w.creatures@[i].cell.radius },
    );
    match w.player {
        Some(p) => cs.push(LeaderEntry { who: Contender::Player, radius: p.cell.radius }),
        None => cs,
    }
}

/// Non-increasing by radius.
pub open spec fn sorted_desc(s: Seq<LeaderEntry>) -> bool {
    forall|i: int, j: int| 0 <= i <= j < s.len() ==> #[trigger] s[i].radius >= #[trigger] s[j].radius
}

/// Sort entries by descending radius: the result is a permutation of the
/// input (as a multiset) and non-increasing by radius.
fn sort_entries_desc(src: Vec<LeaderEntry>) -> (out: Vec<LeaderEntry>)
    ensures
        out@.len() == src@.len(),
        sorted_desc(out@),
        out@.to_multiset() == src@.to_multiset(),
{
    broadcast use vstd::seq_lib::group_to_multiset_ensures;

    let mut rest = src;
    let mut out: Vec<LeaderEntry> = Vec::new();
    let ghost all = rest@.to_multiset();
    while rest.len() > 0
        invariant
            sorted_desc(out@),
            out@.to_multiset().add(rest@.to_multiset()) =~= all,
            out@.len() + rest@.len() == all.len(),
            forall|k: int|
                0 <= k < rest@.len() && out@.len() > 0
                    ==> (#[trigger] rest@[k]).radius <= out@.last().radius,
        decreases rest.len(),
    {
        let n = rest.len();
        let mut top: usize = 0;
        let mut i: usize = 1;
        while i < n
            invariant
                1 <= i <= n,
                n == rest@.len(),
                top < i,
                forall|k: int| 0 <= k < i ==> (#[trigger] rest@[k]).radius <= rest@[top as int].radius,
            decreases n - i,
        {
            if rest[i].radius > rest[top].radius {
                top = i;
            }
            i += 1;
        }
        let ghost pre_out = out@;
        let ghost pre_rest = rest@;
        let e = rest.remove(top);
        out.push(e);
        proof {
            pre_rest.to_multiset_ensures();
            pre_out.to_multiset_ensures();
            assert(rest@ == pre_rest.remove(top as int));
            assert(out@ == pre_out.push(e));
            assert(pre_out.push(e).to_multiset() =~= pre_out.to_multiset().insert(e));
            assert(out@.to_multiset() =~= pre_out.to_multiset().insert(e));
            assert(rest@.to_multiset() =~= pre_rest.to_multiset().remove(e));
            assert(pre_rest.to_multiset().contains(e));
            assert(out@.to_multiset().add(rest@.to_multiset()) =~= all);
        }
    }
    out
}

/// The creature-interaction phase of a frame, after `i` creatures have
/// acted: creature `k` (for `k < i`, in order) duels the player, duels
/// every creature after index `k`, and chases food; see
/// `creature::update_spec`.
pub open spec fn creatures_phase(
    fs: Seq<Food>,
    pl: Option<Player>,
    cs: Seq<Creature>,
    i: int,
    dt: int,
) -> (Seq<Food>, Option<Player>, Seq<Creature>)
    decreases i,
{
    if i <= 0 {
        (fs, pl, cs)
    } else {
        let r = creatures_phase(fs, pl, cs, i - 1, dt);
        let u = crate::creature::update_spec(r.2[i - 1], r.0, r.1, r.2, i, dt);
        (u.1, u.2, u.3.update(i - 1, u.0))
    }
}

/// The deterministic part of one playing frame: the food, player and
/// creatures as they stand after the player has moved toward `pointer`
/// and fed, every creature has acted, the absorbed entities have been
/// removed and an absorbed player cleared — everything but the random
/// food respawn that follows.
pub open spec fn step_resolved(w: World, pointer: Vect, dt: int) -> (Seq<Food>, Option<Player>, Seq<Creature>) {
    let fed = match w.player {
        Some(p) => {
            let moved = Player {
                cell: (crate::cell::Cell {
                    center: crate::geom::move_toward_spec(p.cell.center, pointer, p.speed as int, dt),
                    ..p.cell
                }),
                ..p
            };
            let r = crate::player::feed_prefix(moved, w.food@, w.food@.len() as int);
            (r.1, Some(r.0))
        },
        None => (w.food@, w.player),
    };
    let after = creatures_phase(fed.0, fed.1, w.creatures@, w.creatures@.len() as int, dt);
    let pl1 = match after.1 {
        Some(p) => if p.cell.absorbed { None } else { Some(p) },
        None => None,
    };
    (live_food(after.0), pl1, live_creatures(after.2))
}

/// The partition scheme resolves a dominated population in one pass: with
/// no player, and the first creature live, strictly larger than, and
/// overlapping every other live creature, the interaction phase leaves the
/// first creature live and every other creature absorbed — each pair was
/// evaluated in the one duel the scheme grants it, and none twice. (A
/// population whose radii are merely pairwise distinct need not end with
/// one survivor: a merge can land exactly on a third creature's radius,
/// and the resulting tie blocks that pair's absorption.)
pub proof fn lemma_partition_lone_survivor(fs: Seq<Food>, cs: Seq<Creature>, i: int, dt: int)
    requires
        1 <= i <= cs.len(),
        !cs[0].cell.absorbed,
        0 < cs[0].cell.radius <= crate::cell::RADIUS_LIMIT,
        forall|k: int| 1 <= k < cs.len() ==> !(#[trigger] cs[k]).cell.absorbed,
        forall|k: int| 1 <= k < cs.len() ==> 0 < (#[trigger] cs[k]).cell.radius,
        forall|k: int|
            1 <= k < cs.len() ==> crate::cell::Cell::spec_intersects(
                cs[0].cell, (#[trigger] cs[k]).cell),
        forall|k: int| 1 <= k < cs.len() ==> cs[0].cell.radius > (#[trigger] cs[k]).cell.radius,
    ensures
        ({
            let r = creatures_phase(fs, None, cs, i, dt);
            &&& r.1 is None
            &&& r.2.len() == cs.len()
            &&& !r.2[0].cell.absorbed
            &&& forall|k: int| 1 <= k < cs.len() ==> (#[trigger] r.2[k]).cell.absorbed
        }),
    decreases i,
{
    let n = cs.len() as int;
    if i == 1 {
        let u = crate::creature::update_spec(cs[0], fs, None, cs, 1, dt);
        crate::creature::lemma_brawl_sweeps(cs[0], cs, 1, n);
        let b = crate::creature::brawl_prefix(cs[0], cs, 1, n);
        let s = crate::creature::seek_food(b.0, fs, dt);
        assert(!s.0.cell.absorbed);
        let r = creatures_phase(fs, None, cs, 1, dt);
        assert(r.2 == b.1.update(0, s.0));
        assert forall|k: int| 1 <= k < cs.len() implies (#[trigger] r.2[k]).cell.absorbed by {
            assert(r.2[k] == b.1[k]);
        }
    } else {
        lemma_partition_lone_survivor(fs, cs, i - 1, dt);
        let r = creatures_phase(fs, None, cs, i - 1, dt);
        let a = r.2[i - 1];
        assert(a.cell.absorbed);
        let u = crate::creature::update_spec(a, r.0, None, r.2, i, dt);
        crate::creature::lemma_brawl_absorbed_identity(a, r.2, i, n);
        let s = crate::creature::seek_food(a, r.0, dt);
        assert(s.0.cell.absorbed);
        let r2 = creatures_phase(fs, None, cs, i, dt);
        assert(r2.2 == r.2.update(i - 1, s.0));
        assert(!r2.2[0].cell.absorbed);
        assert forall|k: int| 1 <= k < cs.len() implies (#[trigger] r2.2[k]).cell.absorbed by {
            if k != i - 1 {
                assert(r2.2[k] == r.2[k]);
            }
        }
    }
}

/// The end of that frame, in terms of what a caller of the step sees: the
/// removal phase keeps exactly one creature, so by the step's contract a
/// playing game with no player moves to `Lose`.
pub proof fn lemma_partition_step_outcome(w: World, pointer: Vect, dt: int)
    requires
        w.player is None,
        w.creatures@.len() >= 1,
        !w.creatures@[0].cell.absorbed,
        0 < w.creatures@[0].cell.radius <= crate::cell::RADIUS_LIMIT,
        forall|k: int|
            1 <= k < w.creatures@.len() ==> !(#[trigger] w.creatures@[k]).cell.absorbed,
        forall|k: int| 1 <= k < w.creatures@.len() ==> 0 < (#[trigger] w.creatures@[k]).cell.radius,
        forall|k: int|
            1 <= k < w.creatures@.len() ==> crate::cell::Cell::spec_intersects(
                w.creatures@[0].cell, (#[trigger] w.creatures@[k]).cell),
        forall|k: int|
            1 <= k < w.creatures@.len() ==> w.creatures@[0].cell.radius
                > (#[trigger] w.creatures@[k]).cell.radius,
    ensures
        step_resolved(w, pointer, dt).1 is None,
        step_resolved(w, pointer, dt).2.len() == 1,
{
    let n = w.creatures@.len() as int;
    lemma_partition_lone_survivor(w.food@, w.creatures@, n, dt);
    let after = creatures_phase(w.food@, None, w.creatures@, n, dt);
    crate::world::lemma_live_creatures_singleton(after.2);
}

pub struct Game {
    pub state: GameState,
    pub world: World,
    pub camera_target: Vect,
}

impl Game {
    /// A well-formed game between frames: the world is well-formed and
    /// settled and the camera target in range.
    pub open spec fn inv(self) -> bool {
        &&& self.world.wf()
        &&& self.world.settled()
        &&& self.camera_target.wf()
    }

    /// A new game in the standard world, playing, with the player and the
    /// camera centered on `start`.
    pub fn new(start: Vect) -> (g: Game)
        requires
            start.wf(),
        ensures
            g.inv(),
            g.state == GameState::Playing,
            g.world.bounds == (Vect { x: WORLD_SIDE, y: WORLD_SIDE }),
            g.world.food@.len() == food_target(g.world.bounds),
            g.world.player == Some(Player::spec_new(start)),
            g.world.creatures@.len() == crate::world::CREATURE_COUNT as int,
            g.camera_target == start,
    {
        Game {
            state: GameState::Playing,
            world: World::new(Vect { x: WORLD_SIDE, y: WORLD_SIDE }, start),
            camera_target: start,
        }
    }

    /// One frame. While playing: the player (if present) steers toward
    /// `pointer` and feeds, otherwise the camera follows the biggest
    /// creature; each creature in turn duels the player and every later
    /// creature and chases food; absorbed entities are removed; the player
    /// is cleared once absorbed; the food is topped back up; and the end
    /// conditions are evaluated. In `Win` or `Lose` the frame is a no-op.
    pub fn update(&mut self, dt_ms: u32, pointer: Vect)
        requires
            old(self).inv(),
            pointer.wf(),
        ensures
            final(self).inv(),
            old(self).state != GameState::Playing ==> *final(self) == *old(self),
            old(self).state == GameState::Playing ==> {
                &&& final(self).world.bounds == old(self).world.bounds
                &&& final(self).world.food@.len() == food_target(old(self).world.bounds)
                &&& (final(self).world.player is Some ==> old(self).world.player is Some)
                &&& (final(self).state == GameState::Win <==> final(self).world.player is Some
                    && final(self).world.creatures@.len() == 0)
                &&& (final(self).state == GameState::Lose <==> final(self).world.player is None
                    && final(self).world.creatures@.len() == 1)
                &&& (final(self).state == GameState::Playing <==> !(final(self).world.player is Some
                    && final(self).world.creatures@.len() == 0) && !(final(self).world.player is None
                    && final(self).world.creatures@.len() == 1))
                &&& ({
                    let r = step_resolved(old(self).world, pointer, dt_ms as int);
                    &&& final(self).world.creatures@ == r.2
                    &&& final(self).world.player == r.1
                    &&& final(self).world.food@.subrange(0, r.0.len() as int) == r.0
                    &&& forall|i: int|
                        r.0.len() <= i < final(self).world.food@.len()
                            ==> (#[trigger] final(self).world.food@[i]).is_fresh(
                            old(self).world.bounds)
                })
                &&& (match old(self).world.player {
                    Some(p) => final(self).camera_target == crate::geom::move_toward_spec(
                        p.cell.center, pointer, p.speed as int, dt_ms as int),
                    None => match biggest_creature(old(self).world.creatures@) {
                        Some(j) => final(self).camera_target
                            == old(self).world.creatures@[j].cell.center,
                        None => final(self).camera_target == old(self).camera_target,
                    },
                })
            },
    {
        if self.state != GameState::Playing {
            return;
        }

        let ghost bounds0 = self.world.bounds;
        let ghost state0 = self.state;
        let pl = self.world.player;
        if pl.is_some() {
            let mut p = pl.unwrap();
            p.update(pointer, dt_ms, &mut self.world.food);
            self.camera_target = p.cell.center;
            self.world.player = Some(p);
        } else {
            let r = find_biggest_creature(&self.world.creatures);
            if let Some(i) = r {
                self.camera_target = self.world.creatures[i].cell.center;
            }
        }

        let ghost had_player = self.world.player is Some;
        let ghost fs1 = self.world.food@;
        let ghost pl1 = self.world.player;
        let ghost cs0 = self.world.creatures@;
        let ghost cam1 = self.camera_target;
        let n = self.world.creatures.len();
        let mut idx: usize = 0;
        while idx < n
            invariant
                idx <= n,
                n == self.world.creatures@.len(),
                self.world.wf(),
                self.world.bounds == bounds0,
                self.world.food@.len() == food_target(bounds0),
                self.camera_target.wf(),
                self.state == state0,
                self.world.player is Some <==> had_player,
                self.camera_target == cam1,
                cs0.len() == n as int,
                ({
                    let r = creatures_phase(fs1, pl1, cs0, idx as int, dt_ms as int);
                    self.world.food@ == r.0 && self.world.player == r.1
                        && self.world.creatures@ == r.2
                }),
            decreases n - idx,
        {
            let ghost pre = creatures_phase(fs1, pl1, cs0, idx as int, dt_ms as int);
            let mut c = self.world.creatures[idx];
            c.update(
                &mut self.world.food,
                &mut self.world.player,
                &mut self.world.creatures,
                idx + 1,
                dt_ms,
            );
            self.world.creatures.set(idx, c);
            proof {
                let u = crate::creature::update_spec(
                    pre.2[idx as int], pre.0, pre.1, pre.2, idx + 1 as int, dt_ms as int);
                assert(self.world.food@ == u.1);
                assert(self.world.player == u.2);
                assert(self.world.creatures@ == u.3.update(idx as int, u.0));
            }
            idx += 1;
        }
        proof {
            let fed = match old(self).world.player {
                Some(p) => {
                    let moved = Player {
                        cell: (crate::cell::Cell {
                            center: crate::geom::move_toward_spec(
                                p.cell.center, pointer, p.speed as int, dt_ms as int),
                            ..p.cell
                        }),
                        ..p
                    };
                    let r = crate::player::feed_prefix(
                        moved, old(self).world.food@, old(self).world.food@.len() as int);
                    (r.1, Some(r.0))
                },
                None => (old(self).world.food@, old(self).world.player),
            };
            assert(fs1 == fed.0 && pl1 == fed.1);
        }

        let ghost pre_retain_creatures = self.world.creatures@;
        let ghost pre_retain_food = self.world.food@;
        self.world.retain_live_creatures();
        self.world.retain_live_food();
        proof {
            crate::world::lemma_live_creatures_live(pre_retain_creatures);
            crate::world::lemma_live_food_live(pre_retain_food);
        }

        assert(self.world.player is Some ==> old(self).world.player is Some);
        let pl2 = self.world.player;
        if let Some(p) = pl2 {
            if p.cell.absorbed {
                self.world.player = None;
            }
        }

        let ghost retained_food = self.world.food@;
        self.world.maintain();
        proof {
            assert forall|i: int| 0 <= i < self.world.food@.len()
                implies !(#[trigger] self.world.food@[i]).cell.absorbed by {
                if i < retained_food.len() {
                    assert(self.world.food@[i] == retained_food[i]);
                    assert(retained_food[i] == live_food(pre_retain_food)[i]);
                } else {
                    assert(self.world.food@[i].is_fresh(bounds0));
                }
            }
        }

        if self.world.player.is_some() && self.world.creatures.len() == 0 {
            self.state = GameState::Win;
        } else if self.world.player.is_none() && self.world.creatures.len() == 1 {
            self.state = GameState::Lose;
        }
    }

    /// The leaderboard: one entry per creature (by position in the live
    /// collection) plus the player if present, sorted by descending radius,
    /// cut to the top `cnt`. The result is a prefix of a descending
    /// reordering of exactly those entries.
    pub fn leaderboard(&self, cnt: usize) -> (r: Vec<LeaderEntry>)
        ensures
            r@.len() == vstd::math::min(cnt as int, contenders(self.world).len() as int),
            sorted_desc(r@),
            cnt >= contenders(self.world).len()
                ==> r@.to_multiset() == contenders(self.world).to_multiset(),
            exists|full: Seq<LeaderEntry>|
                {
                    &&& full.to_multiset() == contenders(self.world).to_multiset()
                    &&& sorted_desc(full)
                    &&& r@ == full.subrange(0, r@.len() as int)
                },
    {
        let mut entries: Vec<LeaderEntry> = Vec::new();
        let n = self.world.creatures.len();
        let mut i: usize = 0;
        while i < n
            invariant
                i <= n,
                n == self.world.creatures@.len(),
                entries@ =~= Seq::new(
                    i as nat,
                    |k: int| LeaderEntry {
                        who: Contender::Creature(k as usize),
                        radius: self.world.creatures@[k].cell.radius,
                    },
                ),
            decreases n - i,
        {
            entries.push(LeaderEntry {
                who: Contender::Creature(i),
                radius: self.world.creatures[i].cell.radius,
            });
            proof {
                assert(entries@ =~= Seq::new(
                    (i + 1) as nat,
                    |k: int| LeaderEntry {
                        who: Contender::Creature(k as usize),
                        radius: self.world.creatures@[k].cell.radius,
                    },
                ));
            }
            i += 1;
        }
        let pl = self.world.player;
        if let Some(p) = pl {
            entries.push(LeaderEntry { who: Contender::Player, radius: p.cell.radius });
        }
        assert(entries@ =~= contenders(self.world));
        let mut sorted = sort_entries_desc(entries);
        let ghost full = sorted@;
        while sorted.len() > cnt
            invariant
                sorted@ =~= full.subrange(0, sorted@.len() as int),
                sorted@.len() <= full.len(),
                sorted@.len() >= cnt || sorted@.len() == full.len(),
            decreases sorted.len(),
        {
            let ghost pre = sorted@;
            let _ = sorted.pop();
            proof {
                assert(sorted@ =~= pre.drop_last());
                assert(sorted@ =~= full.subrange(0, sorted@.len() as int));
            }
        }
        proof {
            assert(sorted_desc(full));
            assert forall|i: int, j: int| 0 <= i <= j < sorted@.len()
                implies #[trigger] sorted@[i].radius >= #[trigger] sorted@[j].radius by {
                assert(sorted@[i] == full[i]);
                assert(sorted@[j] == full[j]);
            }
            if cnt >= full.len() {
                assert(sorted@ =~= full);
            }
            assert(full.to_multiset() == contenders(self.world).to_multiset()
                && sorted_desc(full) && sorted@ == full.subrange(0, sorted@.len() as int));
        }
        sorted
    }
}

} // verus!
