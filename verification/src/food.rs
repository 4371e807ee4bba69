//! Food: a small, passive circle. It never moves and never absorbs; it is
//! only ever the absorbed party.

use vstd::prelude::*;
use crate::cell::Cell;
use crate::geom::{Vect, POS_LIMIT};
use crate::rng::rand_below;

verus! {

/// Radius of every food circle, in milliunits.
pub const FOOD_RADIUS: i64 = 5_000;

#[derive(Clone, Copy, PartialEq, Eq, Structural, Debug)]
pub struct Food {
    pub cell: Cell,
}

impl Food {
    pub open spec fn wf(self) -> bool {
        self.cell.wf()
    }

    /// What a freshly spawned food looks like: live, of the fixed radius,
    /// somewhere within the bounds.
    pub open spec fn is_fresh(self, bounds: Vect) -> bool {
        &&& self.cell.radius == FOOD_RADIUS
        &&& !self.cell.absorbed
        &&& 0 <= self.cell.center.x < bounds.x
        &&& 0 <= self.cell.center.y < bounds.y
    }

    /// Spawn one food at a uniformly random position in
    /// `[0, bounds.x) x [0, bounds.y)`.
    pub fn random(bounds: Vect) -> (f: Food)
        requires
            0 < bounds.x <= POS_LIMIT,
            0 < bounds.y <= POS_LIMIT,
        ensures
            f.wf(),
            f.is_fresh(bounds),
    {
        Food {
            cell: Cell {
                center: Vect { x: rand_below(bounds.x), y: rand_below(bounds.y) },
                radius: FOOD_RADIUS,
                absorbed: false,
            },
        }
    }
}

} // verus!
