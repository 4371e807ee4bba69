use agar::cell::Cell;
use agar::creature::{Creature, CREATURE_RADIUS, CREATURE_SPEED};
use agar::food::{Food, FOOD_RADIUS};
use agar::game::{Contender, Game, GameState, LeaderEntry};
use agar::geom::{move_toward, Vect};
use agar::num::isqrt;
use agar::player::{Player, PLAYER_RADIUS, PLAYER_SPEED};
use agar::world::World;

fn cell(x: i64, y: i64, radius: i64) -> Cell {
    Cell { center: Vect { x, y }, radius, absorbed: false }
}

fn far_food() -> Food {
    Food { cell: cell(1_500_000, 1_500_000, FOOD_RADIUS) }
}

#[test]
fn isqrt_exact_values() {
    assert_eq!(isqrt(0), 0);
    assert_eq!(isqrt(1), 1);
    assert_eq!(isqrt(3), 1);
    assert_eq!(isqrt(4), 2);
    assert_eq!(isqrt(125_000_000), 11_180);
}

#[test]
fn absorb_equal_radii_never_succeeds() {
    let mut a = cell(0, 0, 7_000);
    let mut b = cell(1_000, 0, 7_000);
    assert_eq!(a.try_absorb(&mut b), None);
    assert_eq!(b.try_absorb(&mut a), None);
    assert_eq!(a, cell(0, 0, 7_000));
    assert_eq!(b, cell(1_000, 0, 7_000));
}

#[test]
fn absorb_needs_overlap() {
    let mut a = cell(0, 0, 10_000);
    let mut b = cell(100_000, 0, 1_000);
    assert_eq!(a.try_absorb(&mut b), None);
    assert_eq!(b.try_absorb(&mut a), None);
    assert!(!a.absorbed && !b.absorbed);
    assert_eq!(a.radius, 10_000);
    assert_eq!(b.radius, 1_000);
}

#[test]
fn absorb_merge_formula() {
    // 10000^2 + 5000^2 = 125_000_000; floor(sqrt) = 11180.
    let mut a = cell(0, 0, 10_000);
    let mut b = cell(1_000, 0, 5_000);
    let cost = a.try_absorb(&mut b);
    assert_eq!(a.radius, 11_180);
    assert!(b.absorbed);
    assert_eq!(b.radius, 5_000);
    assert_eq!(cost, Some(-118));
}

#[test]
fn absorb_cost_is_negative_for_small_prey() {
    // The merged radius always exceeds the old one, so the cost is
    // negative (the absorber gets faster when the cost is subtracted).
    let mut a = cell(0, 0, 10_000);
    let mut b = cell(0, 0, 5_000);
    let cost = a.try_absorb(&mut b).unwrap();
    assert!(cost < 0);
}

#[test]
fn absorbed_party_cannot_act() {
    let mut a = cell(0, 0, 10_000);
    let mut b = cell(0, 0, 5_000);
    assert!(a.try_absorb(&mut b).is_some());
    let mut c = cell(0, 0, 1_000);
    // b is absorbed: it neither absorbs nor is absorbed again.
    assert_eq!(b.try_absorb(&mut c), None);
    assert_eq!(a.try_absorb(&mut b), None);
}

#[test]
fn move_toward_exact_step() {
    let from = Vect { x: 0, y: 0 };
    let to = Vect { x: 100_000, y: 0 };
    let r = move_toward(&from, &to, 80_000, 1_000);
    assert_eq!(r, Vect { x: 80_000, y: 0 });
    // A zero distance moves nothing.
    let s = move_toward(&from, &from, 80_000, 1_000);
    assert_eq!(s, from);
    // Movement overshoots the target rather than stopping at it.
    let t = move_toward(&from, &Vect { x: 10_000, y: 0 }, 80_000, 1_000);
    assert_eq!(t, Vect { x: 80_000, y: 0 });
}

#[test]
fn world_new_population() {
    // bounds of 2048 units (2_048_000 milliunits) give a food target of 1024.
    let bounds = Vect { x: 2_048_000, y: 2_048_000 };
    let start = Vect { x: 1_024_000, y: 1_024_000 };
    let w = World::new(bounds, start);
    assert_eq!(w.food.len(), 1024);
    assert_eq!(w.creatures.len(), 99);
    let p = w.player.as_ref().unwrap();
    assert_eq!(p.cell.radius, PLAYER_RADIUS);
    assert_eq!(p.speed, PLAYER_SPEED);
    assert_eq!(p.absorbed_food, 0);
    assert_eq!(p.cell.center, start);
    for f in &w.food {
        assert_eq!(f.cell.radius, FOOD_RADIUS);
        assert!(!f.cell.absorbed);
        assert!(0 <= f.cell.center.x && f.cell.center.x < bounds.x);
        assert!(0 <= f.cell.center.y && f.cell.center.y < bounds.y);
    }
    for c in &w.creatures {
        assert_eq!(c.cell.radius, CREATURE_RADIUS);
        assert_eq!(c.speed, CREATURE_SPEED);
        assert!(!c.cell.absorbed);
        assert!(0 <= c.cell.center.x && c.cell.center.x < bounds.x);
        assert!(0 <= c.cell.center.y && c.cell.center.y < bounds.y);
    }
}

#[test]
fn spawn_stays_inside_small_bounds() {
    // Would fail if the random source ever handed back its upper bound.
    let bounds = Vect { x: 1_000, y: 1_000 };
    for _ in 0..200 {
        let f = Food::random(bounds);
        assert!(0 <= f.cell.center.x && f.cell.center.x < 1_000);
        assert!(0 <= f.cell.center.y && f.cell.center.y < 1_000);
    }
}

#[test]
fn step_restores_population() {
    let start = Vect { x: 1_024_000, y: 1_024_000 };
    let mut g = Game::new(start);
    g.update(16, Vect { x: 0, y: 0 });
    assert_eq!(g.world.food.len(), 1024);
    for f in &g.world.food {
        assert!(!f.cell.absorbed);
    }
    for c in &g.world.creatures {
        assert!(!c.cell.absorbed);
    }
    if let Some(p) = &g.world.player {
        assert!(!p.cell.absorbed);
    }
}

#[test]
fn win_when_last_creature_absorbed() {
    let world = World {
        bounds: Vect { x: 2_000, y: 2_000 },
        food: vec![far_food()],
        player: Some(Player { cell: cell(0, 0, 20_000), speed: 0, absorbed_food: 0 }),
        creatures: vec![Creature { cell: cell(0, 0, 8_000), speed: 0 }],
    };
    let mut g = Game { state: GameState::Playing, world, camera_target: Vect { x: 0, y: 0 } };
    g.update(0, Vect { x: 0, y: 0 });
    assert_eq!(g.state, GameState::Win);
    assert_eq!(g.world.creatures.len(), 0);
    let p = g.world.player.as_ref().unwrap();
    // floor(sqrt(20000^2 + 8000^2)) = floor(sqrt(464_000_000)) = 21540.
    assert_eq!(p.cell.radius, 21_540);
    // The speed cost -(1540 / 10) = -154 is subtracted: the player speeds up.
    assert_eq!(p.speed, 154);
    assert_eq!(g.world.food.len(), 1);
}

#[test]
fn lose_when_one_creature_remains() {
    let world = World {
        bounds: Vect { x: 2_000, y: 2_000 },
        food: vec![far_food()],
        player: None,
        creatures: vec![
            Creature { cell: cell(0, 0, 8_000), speed: 0 },
            Creature { cell: cell(0, 0, 10_000), speed: 0 },
        ],
    };
    let mut g = Game { state: GameState::Playing, world, camera_target: Vect { x: 0, y: 0 } };
    g.update(0, Vect { x: 0, y: 0 });
    assert_eq!(g.state, GameState::Lose);
    assert_eq!(g.world.creatures.len(), 1);
    // floor(sqrt(10000^2 + 8000^2)) = floor(sqrt(164_000_000)) = 12806.
    assert_eq!(g.world.creatures[0].cell.radius, 12_806);
    assert_eq!(g.world.creatures[0].speed, 280);
}

#[test]
fn partition_resolves_each_pair_once() {
    // Four mutually overlapping creatures with pairwise-distinct radii:
    // exactly three absorptions in one step, one survivor.
    let world = World {
        bounds: Vect { x: 2_000, y: 2_000 },
        food: vec![far_food()],
        player: None,
        creatures: vec![
            Creature { cell: cell(0, 0, 8_000), speed: 0 },
            Creature { cell: cell(0, 0, 9_000), speed: 0 },
            Creature { cell: cell(0, 0, 10_000), speed: 0 },
            Creature { cell: cell(0, 0, 12_000), speed: 0 },
        ],
    };
    let mut g = Game { state: GameState::Playing, world, camera_target: Vect { x: 0, y: 0 } };
    g.update(0, Vect { x: 0, y: 0 });
    assert_eq!(g.world.creatures.len(), 1);
    // The second creature eats the first, then the third, then the fourth:
    // 9000 -> 12041 -> 15652 -> 19722.
    assert_eq!(g.world.creatures[0].cell.radius, 19_722);
    assert_eq!(g.state, GameState::Lose);
}

#[test]
fn dominant_creature_sweeps_its_suffix() {
    // The first creature is the largest and overlaps everyone: it absorbs
    // all three opponents in its single pass.
    let world = World {
        bounds: Vect { x: 2_000, y: 2_000 },
        food: vec![far_food()],
        player: None,
        creatures: vec![
            Creature { cell: cell(0, 0, 12_000), speed: 0 },
            Creature { cell: cell(0, 0, 8_000), speed: 0 },
            Creature { cell: cell(0, 0, 9_000), speed: 0 },
            Creature { cell: cell(0, 0, 10_000), speed: 0 },
        ],
    };
    let mut g = Game { state: GameState::Playing, world, camera_target: Vect { x: 0, y: 0 } };
    g.update(0, Vect { x: 0, y: 0 });
    assert_eq!(g.world.creatures.len(), 1);
    // 12000 -> 14422 -> 16999 -> 19722.
    assert_eq!(g.world.creatures[0].cell.radius, 19_722);
    assert_eq!(g.state, GameState::Lose);
}

#[test]
fn merge_tie_blocks_absorption() {
    // Distinct radii do not guarantee one survivor: absorbing the first
    // creature turns 4000 into exactly sqrt(3000^2 + 4000^2) = 5000, the
    // tie with the third creature blocks that duel, and two survive.
    let world = World {
        bounds: Vect { x: 2_000, y: 2_000 },
        food: vec![far_food()],
        player: None,
        creatures: vec![
            Creature { cell: cell(0, 0, 3_000), speed: 0 },
            Creature { cell: cell(0, 0, 4_000), speed: 0 },
            Creature { cell: cell(0, 0, 5_000), speed: 0 },
        ],
    };
    let mut g = Game { state: GameState::Playing, world, camera_target: Vect { x: 0, y: 0 } };
    g.update(0, Vect { x: 0, y: 0 });
    assert_eq!(g.world.creatures.len(), 2);
    assert_eq!(g.world.creatures[0].cell.radius, 5_000);
    assert_eq!(g.world.creatures[1].cell.radius, 5_000);
    assert_eq!(g.state, GameState::Playing);
}

#[test]
fn terminal_states_freeze_the_world() {
    for state in [GameState::Win, GameState::Lose] {
        let world = World {
            bounds: Vect { x: 2_000, y: 2_000 },
            food: vec![far_food()],
            player: Some(Player { cell: cell(0, 0, 20_000), speed: 5, absorbed_food: 3 }),
            creatures: vec![Creature { cell: cell(10, 10, 8_000), speed: 7 }],
        };
        let snapshot_food = world.food.clone();
        let snapshot_player = world.player;
        let snapshot_creatures = world.creatures.clone();
        let mut g = Game { state, world, camera_target: Vect { x: 4, y: 5 } };
        g.update(1_000, Vect { x: 9_999, y: -3 });
        assert_eq!(g.state, state);
        assert_eq!(g.world.bounds, Vect { x: 2_000, y: 2_000 });
        assert_eq!(g.world.food, snapshot_food);
        assert_eq!(g.world.player, snapshot_player);
        assert_eq!(g.world.creatures, snapshot_creatures);
        assert_eq!(g.camera_target, Vect { x: 4, y: 5 });
    }
}

#[test]
fn leaderboard_sorts_descending_and_truncates() {
    let world = World {
        bounds: Vect { x: 2_000, y: 2_000 },
        food: vec![far_food()],
        player: Some(Player { cell: cell(0, 0, 10_000), speed: 0, absorbed_food: 0 }),
        creatures: vec![
            Creature { cell: cell(0, 0, 5_000), speed: 0 },
            Creature { cell: cell(0, 0, 12_000), speed: 0 },
            Creature { cell: cell(0, 0, 8_000), speed: 0 },
        ],
    };
    let g = Game { state: GameState::Playing, world, camera_target: Vect { x: 0, y: 0 } };
    let full = g.leaderboard(10);
    assert_eq!(full.len(), 4);
    assert_eq!(full[0], LeaderEntry { who: Contender::Creature(1), radius: 12_000 });
    assert_eq!(full[1], LeaderEntry { who: Contender::Player, radius: 10_000 });
    assert_eq!(full[2], LeaderEntry { who: Contender::Creature(2), radius: 8_000 });
    assert_eq!(full[3], LeaderEntry { who: Contender::Creature(0), radius: 5_000 });
    let top = g.leaderboard(2);
    assert_eq!(top.len(), 2);
    assert_eq!(top[0].radius, 12_000);
    assert_eq!(top[1].radius, 10_000);
}

#[test]
fn player_feeds_and_counts() {
    // Player sits on two food circles: both are absorbed, the counter
    // advances twice, and the speed rises by each (negative) cost.
    let world = World {
        bounds: Vect { x: 4_000, y: 2_000 },
        food: vec![
            Food { cell: cell(0, 0, 5_000) },
            Food { cell: cell(1_000, 0, 5_000) },
        ],
        player: Some(Player { cell: cell(0, 0, 10_000), speed: 0, absorbed_food: 0 }),
        creatures: vec![],
    };
    let mut g = Game { state: GameState::Playing, world, camera_target: Vect { x: 0, y: 0 } };
    g.update(0, Vect { x: 0, y: 0 });
    // 10000 -> 11180 (cost -118), then sqrt(11180^2 + 5000^2) = sqrt(149_992_400),
    // floor = 12247 (cost -(1067/10) = -106).
    let p = g.world.player.as_ref().unwrap();
    assert_eq!(p.absorbed_food, 2);
    assert_eq!(p.cell.radius, 12_247);
    assert_eq!(p.speed, 118 + 106);
    // Both eaten food entries were removed and respawned to the target of 2.
    assert_eq!(g.world.food.len(), 2);
    assert_eq!(g.state, GameState::Win);
}
