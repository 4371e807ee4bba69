//! The world: bounds, the food, the optional player and the creatures,
//! with the population rules (spawning and the food target count).

use vstd::prelude::*;
use crate::creature::Creature;
use crate::food::Food;
use crate::geom::{Vect, POS_LIMIT};
use crate::player::Player;

verus! {

/// How many creatures a new world starts with.
pub const CREATURE_COUNT: usize = 99;

/// The number of food entries the world keeps topped up: half the world
/// width in whole units (one unit is 1000 milliunits).
pub open spec fn food_target(bounds: Vect) -> int {
    bounds.x as int / 2000
}

/// A food sequence with the absorbed entries dropped, order kept.
pub open spec fn live_food(s: Seq<Food>) -> Seq<Food> {
    s.filter(|f: Food| !f.cell.absorbed)
}

/// A creature sequence with the absorbed entries dropped, order kept.
pub open spec fn live_creatures(s: Seq<Creature>) -> Seq<Creature> {
    s.filter(|c: Creature| !c.cell.absorbed)
}

/// Every entry left by `live_food` is live.
pub proof fn lemma_live_food_live(s: Seq<Food>)
    ensures
        forall|i: int| 0 <= i < live_food(s).len() ==> !(#[trigger] live_food(s)[i]).cell.absorbed,
{
    assert forall|i: int| 0 <= i < live_food(s).len()
        implies !(#[trigger] live_food(s)[i]).cell.absorbed by {
        s.lemma_filter_pred(|f: Food| !f.cell.absorbed, i);
    }
}

/// Every entry left by `live_creatures` is live.
pub proof fn lemma_live_creatures_live(s: Seq<Creature>)
    ensures
        forall|i: int|
            0 <= i < live_creatures(s).len() ==> !(#[trigger] live_creatures(s)[i]).cell.absorbed,
{
    assert forall|i: int| 0 <= i < live_creatures(s).len()
        implies !(#[trigger] live_creatures(s)[i]).cell.absorbed by {
        s.lemma_filter_pred(|c: Creature| !c.cell.absorbed, i);
    }
}

/// A creature sequence whose only live entry is the first one filters
/// down to exactly that entry.
pub proof fn lemma_live_creatures_singleton(s: Seq<Creature>)
    requires
        s.len() >= 1,
        !s[0].cell.absorbed,
        forall|k: int| 1 <= k < s.len() ==> (#[trigger] s[k]).cell.absorbed,
    ensures
        live_creatures(s) =~= seq![s[0]],
    decreases s.len(),
{
    reveal_with_fuel(Seq::filter, 2);
    if s.len() == 1 {
        assert(s.drop_last() =~= Seq::<Creature>::empty());
        assert(live_creatures(s) =~= seq![s[0]]);
    } else {
        lemma_live_creatures_singleton(s.drop_last());
        assert(s.last() == s[s.len() - 1]);
        assert(s.last().cell.absorbed);
        assert(live_creatures(s) =~= live_creatures(s.drop_last()));
    }
}

pub struct World {
    pub bounds: Vect,
    pub food: Vec<Food>,
    pub player: Option<Player>,
    pub creatures: Vec<Creature>,
}

impl World {
    /// Bounds are positive and in range; every entity is well-formed.
    pub open spec fn wf(self) -> bool {
        &&& 0 < self.bounds.x <= POS_LIMIT
        &&& 0 < self.bounds.y <= POS_LIMIT
        &&& forall|i: int| 0 <= i < self.food@.len() ==> (#[trigger] self.food@[i]).wf()
        &&& (self.player matches Some(p) ==> p.wf())
        &&& forall|i: int| 0 <= i < self.creatures@.len() ==> (#[trigger] self.creatures@[i]).wf()
    }

    /// The state between frames: no absorbed entity remains anywhere and
    /// the food is at its target count.
    pub open spec fn settled(self) -> bool {
        &&& forall|i: int| 0 <= i < self.food@.len() ==> !(#[trigger] self.food@[i]).cell.absorbed
        &&& forall|i: int|
            0 <= i < self.creatures@.len() ==> !(#[trigger] self.creatures@[i]).cell.absorbed
        &&& (self.player matches Some(p) ==> !p.cell.absorbed)
        &&& self.food@.len() == food_target(self.bounds)
    }

    /// A new world: food topped up to the target, one player centered on
    /// `start`, and the fixed number of creatures at random positions.
    pub fn new(bounds: Vect, start: Vect) -> (w: World)
        requires
            0 < bounds.x <= POS_LIMIT,
            0 < bounds.y <= POS_LIMIT,
            start.wf(),
        ensures
            w.wf(),
            w.settled(),
            w.bounds == bounds,
            w.food@.len() == food_target(bounds),
            forall|i: int| 0 <= i < w.food@.len() ==> (#[trigger] w.food@[i]).is_fresh(bounds),
            w.player == Some(Player::spec_new(start)),
            w.creatures@.len() == CREATURE_COUNT as int,
            forall|i: int|
                0 <= i < w.creatures@.len() ==> (#[trigger] w.creatures@[i]).is_fresh(bounds),
    {
        let target: usize = ((bounds.x as u64) / 2000) as usize;
        let mut food: Vec<Food> = Vec::new();
        while food.len() < target
            invariant
                food@.len() <= target as int,
                0 < bounds.x <= POS_LIMIT,
                0 < bounds.y <= POS_LIMIT,
                forall|i: int| 0 <= i < food@.len() ==> (#[trigger] food@[i]).wf(),
                forall|i: int| 0 <= i < food@.len() ==> (#[trigger] food@[i]).is_fresh(bounds),
            decreases target - food.len(),
        {
            food.push(Food::random(bounds));
        }
        let mut creatures: Vec<Creature> = Vec::new();
        while creatures.len() < CREATURE_COUNT
            invariant
                creatures@.len() <= CREATURE_COUNT as int,
                0 < bounds.x <= POS_LIMIT,
                0 < bounds.y <= POS_LIMIT,
                forall|i: int| 0 <= i < creatures@.len() ==> (#[trigger] creatures@[i]).wf(),
                forall|i: int|
                    0 <= i < creatures@.len() ==> (#[trigger] creatures@[i]).is_fresh(bounds),
            decreases CREATURE_COUNT - creatures.len(),
        {
            creatures.push(Creature::random(bounds));
        }
        World { bounds, food, player: Some(Player::new(start)), creatures }
    }

    /// Drop every absorbed food entry, keeping the order of the rest.
    pub fn retain_live_food(&mut self)
        requires
            old(self).wf(),
        ensures
            final(self).wf(),
            final(self).food@ == live_food(old(self).food@),
            final(self).food@.len() <= old(self).food@.len(),
            final(self).bounds == old(self).bounds,
            final(self).player == old(self).player,
            final(self).creatures == old(self).creatures,
    {
        let n = self.food.len();
        let mut kept: Vec<Food> = Vec::new();
        let mut i: usize = 0;
        while i < n
            invariant
                i <= n,
                n == self.food@.len(),
                self.wf(),
                kept@ == live_food(self.food@.subrange(0, i as int)),
                kept@.len() <= i as int,
                forall|k: int| 0 <= k < kept@.len() ==> (#[trigger] kept@[k]).wf(),
            decreases n - i,
        {
            let ghost pre = self.food@.subrange(0, i as int);
            let ghost cur = self.food@.subrange(0, (i + 1) as int);
            if !self.food[i].cell.absorbed {
                kept.push(self.food[i]);
            }
            proof {
                assert(cur.drop_last() =~= pre);
                assert(cur.last() == self.food@[i as int]);
                reveal_with_fuel(Seq::filter, 2);
                assert(kept@ == live_food(cur));
            }
            i += 1;
        }
        proof {
            assert(self.food@.subrange(0, n as int) =~= self.food@);
        }
        self.food = kept;
    }

    /// Drop every absorbed creature, keeping the order of the rest.
    pub fn retain_live_creatures(&mut self)
        requires
            old(self).wf(),
        ensures
            final(self).wf(),
            final(self).creatures@ == live_creatures(old(self).creatures@),
            final(self).bounds == old(self).bounds,
            final(self).player == old(self).player,
            final(self).food == old(self).food,
    {
        let n = self.creatures.len();
        let mut kept: Vec<Creature> = Vec::new();
        let mut i: usize = 0;
        while i < n
            invariant
                i <= n,
                n == self.creatures@.len(),
                self.wf(),
                kept@ == live_creatures(self.creatures@.subrange(0, i as int)),
                forall|k: int| 0 <= k < kept@.len() ==> (#[trigger] kept@[k]).wf(),
            decreases n - i,
        {
            let ghost pre = self.creatures@.subrange(0, i as int);
            let ghost cur = self.creatures@.subrange(0, (i + 1) as int);
            if !self.creatures[i].cell.absorbed {
                kept.push(self.creatures[i]);
            }
            proof {
                assert(cur.drop_last() =~= pre);
                assert(cur.last() == self.creatures@[i as int]);
                reveal_with_fuel(Seq::filter, 2);
                assert(kept@ == live_creatures(cur));
            }
            i += 1;
        }
        proof {
            assert(self.creatures@.subrange(0, n as int) =~= self.creatures@);
        }
        self.creatures = kept;
    }

    /// Top the food back up to the target count by spawning random food one
    /// at a time; never removes excess.
    pub fn maintain(&mut self)
        requires
            old(self).wf(),
        ensures
            final(self).wf(),
            final(self).bounds == old(self).bounds,
            final(self).player == old(self).player,
            final(self).creatures == old(self).creatures,
            final(self).food@.len() == if old(self).food@.len() < food_target(old(self).bounds) {
                food_target(old(self).bounds)
            } else {
                old(self).food@.len() as int
            },
            final(self).food@.subrange(0, old(self).food@.len() as int) == old(self).food@,
            forall|i: int|
                old(self).food@.len() <= i < final(self).food@.len()
                    ==> (#[trigger] final(self).food@[i]).is_fresh(old(self).bounds),
    {
        let ghost fs0 = self.food@;
        let target: usize = ((self.bounds.x as u64) / 2000) as usize;
        while self.food.len() < target
            invariant
                self.wf(),
                self.bounds == old(self).bounds,
                self.player == old(self).player,
                self.creatures == old(self).creatures,
                fs0.len() <= self.food@.len(),
                self.food@.len() <= target as int || self.food@.len() == fs0.len(),
                target as int == food_target(self.bounds),
                self.food@.subrange(0, fs0.len() as int) == fs0,
                forall|i: int|
                    fs0.len() <= i < self.food@.len()
                        ==> (#[trigger] self.food@[i]).is_fresh(self.bounds),
            decreases target - self.food.len(),
        {
            let f = Food::random(self.bounds);
            self.food.push(f);
            proof {
                assert(self.food@.subrange(0, fs0.len() as int) =~= fs0);
            }
        }
    }
}

} // verus!
