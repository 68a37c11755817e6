use tower_defense::components::GameState;
use tower_defense::components::TowerType;
use tower_defense::geometry::IVec2;
use tower_defense::geometry::IVec3;
use tower_defense::world::World;

fn reference_path() -> Vec<IVec2> {
    vec![
        IVec2 { x: 6000, z: 2000 },
        IVec2 { x: 6000, z: 6000 },
        IVec2 { x: 9000, z: 9000 },
    ]
}

fn in_game_world(money: u32, health: i32) -> World {
    let mut w = World::new(reference_path(), money, health);
    assert!(w.start_game());
    w
}

#[test]
fn start_game_enters_in_game_once() {
    let mut w = World::new(reference_path(), 100, 3);
    assert_eq!(w.state, GameState::MainMenu);
    assert!(w.start_game());
    assert_eq!(w.state, GameState::InGame);
    assert!(!w.start_game());
    assert_eq!(w.state, GameState::InGame);
}

/// A target on the reference path crosses waypoints 1, 2 and 3 in turn,
/// never decreasing its index, and on escaping is removed with the player
/// losing exactly one health.
#[test]
fn target_walks_reference_path_and_escapes() {
    let mut w = in_game_world(100, 3);
    w.spawn_target(450, IVec3 { x: -2000, y: 400, z: 2500 }, 3);
    let mut last_index = 0usize;
    let mut seen = vec![0usize];
    let mut ticks = 0u32;
    while !w.targets.is_empty() {
        w.tick(100);
        ticks += 1;
        assert!(ticks < 20_000, "target should finish the path");
        if let Some(t) = w.targets.first() {
            let idx = t.target.path_index;
            assert!(idx >= last_index, "waypoint index must never decrease");
            if idx != last_index {
                assert_eq!(idx, last_index + 1, "index advances one waypoint at a time");
                seen.push(idx);
                last_index = idx;
            }
            assert!(idx < 3, "an escaped target is removed in the same tick");
        }
    }
    assert_eq!(seen, vec![0, 1, 2]);
    assert_eq!(w.player.health, 2, "one escape costs exactly one health");
    assert_eq!(w.state, GameState::InGame);
}

/// Arrival is two-phase: on the tick that detects arrival the target does
/// not move but its index advances; travel towards the next waypoint
/// resumes on the following tick.
#[test]
fn arrival_advances_index_without_moving() {
    let mut w = in_game_world(100, 3);
    // 40 milli-units from the first waypoint; a 100 ms tick at speed 450
    // covers 45 milli-units, which would overshoot.
    w.spawn_target(450, IVec3 { x: 6000, y: 0, z: 1960 }, 3);
    w.tick(100);
    let t = w.targets[0];
    assert_eq!(t.target.path_index, 1);
    assert_eq!(t.pos, IVec3 { x: 6000, y: 0, z: 1960 });
    w.tick(100);
    let t = w.targets[0];
    assert_eq!(t.target.path_index, 1);
    assert_eq!(t.pos, IVec3 { x: 6000, y: 0, z: 2005 }, "travel resumes towards waypoint 2");
}

/// Movement turns the target to face its waypoint.
#[test]
fn movement_sets_heading_towards_waypoint() {
    let mut w = in_game_world(100, 3);
    w.spawn_target(450, IVec3 { x: 0, y: 0, z: 0 }, 3);
    w.tick(100);
    let t = w.targets[0];
    assert_eq!(t.heading, IVec2 { x: 6000, z: 2000 });
}

/// A target whose health reaches zero is removed within one tick and a
/// death notification is queued for that tick only.
#[test]
fn dead_target_removed_within_one_tick() {
    let mut w = in_game_world(100, 3);
    w.spawn_target(450, IVec3 { x: 0, y: 0, z: 0 }, 3);
    w.spawn_target(450, IVec3 { x: 500, y: 0, z: 0 }, 3);
    w.damage_target(0, 5);
    assert_eq!(w.targets[0].health.value, -2);
    w.tick(100);
    assert_eq!(w.targets.len(), 1, "the dead target is gone");
    assert_eq!(w.death_events.len(), 1, "one death notification");
    assert!(w.targets.iter().all(|t| t.health.value > 0));
    w.tick(100);
    assert_eq!(w.death_events.len(), 0, "the queue is cleared next tick");
    assert_eq!(w.targets.len(), 1);
}

#[test]
fn damage_saturates_at_the_integer_floor() {
    let mut w = in_game_world(100, 3);
    w.spawn_target(450, IVec3 { x: 0, y: 0, z: 0 }, 3);
    w.damage_target(0, i32::MAX);
    w.damage_target(0, i32::MAX);
    assert_eq!(w.targets[0].health.value, i32::MIN);
}

/// Two escapes in one tick cost two health; each removal debits only its
/// own single point.
#[test]
fn each_escape_costs_exactly_one_health() {
    let mut w = World::new(vec![IVec2 { x: 1000, z: 0 }], 100, 3);
    w.start_game();
    // Both targets stand exactly on the single waypoint: the next tick
    // detects arrival, the index reaches the path length and both escape.
    w.spawn_target(450, IVec3 { x: 1000, y: 0, z: 0 }, 3);
    w.spawn_target(450, IVec3 { x: 1000, y: 0, z: 0 }, 3);
    // The arrival tick advances both indices past the path's end, and the
    // escape check observes that in the same tick.
    w.tick(100);
    assert_eq!(w.targets.len(), 0, "both escaped targets are removed");
    assert_eq!(w.player.health, 1);
    assert_eq!(w.state, GameState::InGame);
}

/// Losing the last health point to an escape ends the game on that tick,
/// and afterwards no simulation logic runs at all.
#[test]
fn game_over_on_last_health_and_world_freezes() {
    let mut w = World::new(vec![IVec2 { x: 1000, z: 0 }], 100, 1);
    w.start_game();
    w.spawn_target(450, IVec3 { x: 1000, y: 0, z: 0 }, 3);
    w.try_purchase(TowerType::Tomato, IVec3 { x: 0, y: 0, z: 0 });
    w.tick(100);
    assert_eq!(w.player.health, 0);
    assert_eq!(w.state, GameState::GameOver);
    let towers_before = w.towers[0].tower.shooting_timer.elapsed_ms;
    w.spawn_target(450, IVec3 { x: 0, y: 0, z: 0 }, 3);
    w.tick(100);
    assert_eq!(w.targets.len(), 1, "no movement or reaping after game over");
    assert_eq!(w.targets[0].target.path_index, 0);
    assert_eq!(w.targets[0].pos, IVec3 { x: 0, y: 0, z: 0 });
    assert_eq!(w.towers[0].tower.shooting_timer.elapsed_ms, towers_before);
    assert_eq!(w.bullets.len(), 0);
    assert_eq!(w.player.health, 0, "health is never decremented below zero");
}

/// Health never goes below zero even when more targets escape than the
/// player has health.
#[test]
fn health_floor_is_zero() {
    let mut w = World::new(vec![IVec2 { x: 1000, z: 0 }], 100, 1);
    w.start_game();
    for _ in 0..3 {
        w.spawn_target(450, IVec3 { x: 1000, y: 0, z: 0 }, 3);
    }
    w.tick(100);
    assert_eq!(w.targets.len(), 0);
    assert_eq!(w.player.health, 0);
    assert_eq!(w.state, GameState::GameOver);
}

/// Firing selects the nearest target; the bullet's direction is the vector
/// towards that target at fire time and stays fixed afterwards.
#[test]
fn firing_picks_nearest_target_and_direction_is_fixed() {
    let mut w = World::new(vec![IVec2 { x: 100_000, z: 0 }], 200, 3);
    w.start_game();
    // Distances from the spawn point (0, 200, 0): 5000, 2000 and 8000.
    w.spawn_target(0, IVec3 { x: 5000, y: 200, z: 0 }, 3);
    w.spawn_target(0, IVec3 { x: 2000, y: 200, z: 0 }, 3);
    w.spawn_target(0, IVec3 { x: 8000, y: 200, z: 0 }, 3);
    assert!(w.try_purchase(TowerType::Tomato, IVec3 { x: 0, y: 0, z: 0 }));
    w.tick(500);
    assert_eq!(w.bullets.len(), 1);
    let b = w.bullets[0];
    assert_eq!(b.pos, IVec3 { x: 0, y: 200, z: 0 }, "spawns at tower position plus offset");
    assert_eq!(b.bullet.direction, IVec3 { x: 2000, y: 0, z: 0 }, "aimed at the nearest target");
    assert_eq!(b.bullet.speed, 3500);
    // The nearest target moves away; the bullet in flight does not follow.
    w.damage_target(1, 10);
    w.tick(500);
    let b = w.bullets[0];
    assert_eq!(b.bullet.direction, IVec3 { x: 2000, y: 0, z: 0 }, "direction fixed at launch");
    assert_eq!(b.pos, IVec3 { x: 1750, y: 200, z: 0 }, "3.5 units per second in a straight line");
}

/// A ready tower with no targets fires nothing; the cooldown still cycles.
#[test]
fn no_targets_means_no_bullets() {
    let mut w = in_game_world(200, 3);
    assert!(w.try_purchase(TowerType::Tomato, IVec3 { x: 0, y: 0, z: 0 }));
    for _ in 0..10 {
        w.tick(500);
    }
    assert_eq!(w.bullets.len(), 0);
    assert_eq!(w.towers[0].tower.shooting_timer.elapsed_ms, 0);
}

/// A tower with a 500 ms period fires exactly twice in one second of
/// elapsed time.
#[test]
fn fire_rate_is_bounded_by_the_cooldown() {
    let mut w = World::new(vec![IVec2 { x: 100_000, z: 0 }], 200, 3);
    w.start_game();
    w.spawn_target(0, IVec3 { x: 5000, y: 200, z: 0 }, 3);
    assert!(w.try_purchase(TowerType::Tomato, IVec3 { x: 0, y: 0, z: 0 }));
    for _ in 0..10 {
        w.tick(100);
    }
    assert_eq!(w.bullets.len(), 2, "at most one shot per 500 ms");
}

/// A bullet is removed exactly when its 10 s lifetime elapses, not a tick
/// earlier.
#[test]
fn bullet_expires_after_exactly_its_lifetime() {
    let mut w = World::new(vec![IVec2 { x: 100_000, z: 0 }], 200, 3);
    w.start_game();
    w.spawn_target(0, IVec3 { x: 5000, y: 200, z: 0 }, 3);
    assert!(w.try_purchase(TowerType::Tomato, IVec3 { x: 0, y: 0, z: 0 }));
    w.tick(500);
    assert_eq!(w.bullets.len(), 1);
    // Remove the target so no further bullets are fired.
    w.damage_target(0, 10);
    w.tick(500);
    assert_eq!(w.targets.len(), 0);
    assert_eq!(w.bullets.len(), 1);
    // The lifetime has counted 500 ms so far; it expires on the tick that
    // reaches 10_000 ms of flight.
    for _ in 0..18 {
        w.tick(500);
        assert_eq!(w.bullets.len(), 1);
    }
    w.tick(500);
    assert_eq!(w.bullets.len(), 0, "removed exactly at the configured lifetime");
}
