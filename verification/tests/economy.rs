use tower_defense::components::update_affordability;
use tower_defense::components::GameState;
use tower_defense::components::TowerButtonState;
use tower_defense::components::TowerType;
use tower_defense::geometry::isqrt;
use tower_defense::geometry::IVec2;
use tower_defense::geometry::IVec3;
use tower_defense::timer::Timer;
use tower_defense::timer::TimerMode;
use tower_defense::world::World;

fn fresh_world(money: u32, health: i32) -> World {
    let mut w = World::new(vec![IVec2 { x: 6000, z: 2000 }], money, health);
    w.start_game();
    w
}

/// With exactly the Tomato tower's cost in hand, the purchase succeeds and
/// empties the purse; any further purchase fails and changes nothing.
#[test]
fn purchase_with_exact_money_then_reject_everything() {
    let mut w = fresh_world(50, 3);
    assert!(w.try_purchase(TowerType::Tomato, IVec3 { x: 1000, y: 0, z: 0 }));
    assert_eq!(w.player.money, 0);
    assert_eq!(w.towers.len(), 1);
    assert_eq!(w.towers[0].kind, TowerType::Tomato);
    assert_eq!(w.towers[0].pos, IVec3 { x: 1000, y: 0, z: 0 });
    for kind in [TowerType::Tomato, TowerType::Potato, TowerType::Cabbage] {
        assert!(!w.try_purchase(kind, IVec3 { x: 2000, y: 0, z: 0 }));
        assert_eq!(w.player.money, 0, "a rejected purchase debits nothing");
        assert_eq!(w.towers.len(), 1, "a rejected purchase places nothing");
    }
}

/// A purchase debits exactly the cost and places exactly one tower of the
/// requested kind at the requested position, cooldown starting fresh.
#[test]
fn purchase_debits_cost_and_places_one_tower() {
    let mut w = fresh_world(200, 3);
    assert!(w.try_purchase(TowerType::Potato, IVec3 { x: 3000, y: 0, z: -1000 }));
    assert_eq!(w.player.money, 120);
    assert_eq!(w.towers.len(), 1);
    let tw = &w.towers[0];
    assert_eq!(tw.kind, TowerType::Potato);
    assert_eq!(tw.pos, IVec3 { x: 3000, y: 0, z: -1000 });
    assert_eq!(tw.tower.shooting_timer.duration_ms, 700);
    assert_eq!(tw.tower.shooting_timer.elapsed_ms, 0);
    assert_eq!(tw.tower.bullet_offset, IVec3 { x: 0, y: 200, z: 0 });
}

/// Purchases are part of the in-game rules: they do nothing from the menu
/// or after the game is over.
#[test]
fn purchase_rejected_outside_the_game() {
    let mut w = World::new(vec![IVec2 { x: 6000, z: 2000 }], 500, 3);
    assert!(!w.try_purchase(TowerType::Tomato, IVec3 { x: 0, y: 0, z: 0 }));
    assert_eq!(w.player.money, 500);
    assert_eq!(w.towers.len(), 0);
}

#[test]
fn tower_types_carry_their_fixed_data() {
    assert_eq!(TowerType::Tomato.cost(), 50);
    assert_eq!(TowerType::Potato.cost(), 80);
    assert_eq!(TowerType::Cabbage.cost(), 110);
    assert_eq!(TowerType::Tomato.period_ms(), 500);
    assert_eq!(TowerType::Potato.period_ms(), 700);
    assert_eq!(TowerType::Cabbage.period_ms(), 800);
    assert_eq!(TowerType::Tomato.bullet_speed(), 3500);
    assert_eq!(TowerType::Potato.bullet_speed(), 6500);
    assert_eq!(TowerType::Cabbage.bullet_speed(), 8500);
}

#[test]
fn get_tower_and_get_bullet_build_the_components() {
    let t = TowerType::Cabbage.get_tower();
    assert_eq!(t.shooting_timer.duration_ms, 800);
    assert_eq!(t.shooting_timer.elapsed_ms, 0);
    assert_eq!(t.shooting_timer.mode, TimerMode::Repeating);
    assert_eq!(t.bullet_offset, IVec3 { x: 0, y: 200, z: 0 });
    let dir = IVec3 { x: 1, y: 2, z: 3 };
    let b = TowerType::Cabbage.get_bullet(dir);
    assert_eq!(b.direction, dir);
    assert_eq!(b.speed, 8500);
}

/// The affordability projection is recomputed from money and each cost.
#[test]
fn affordability_follows_the_money() {
    let mut buttons = vec![
        TowerButtonState { cost: 50, affordable: false },
        TowerButtonState { cost: 80, affordable: true },
        TowerButtonState { cost: 110, affordable: true },
    ];
    update_affordability(&mut buttons, 80);
    assert_eq!(buttons[0].affordable, true);
    assert_eq!(buttons[1].affordable, true);
    assert_eq!(buttons[2].affordable, false);
    assert_eq!(buttons[0].cost, 50);
    update_affordability(&mut buttons, 0);
    assert!(buttons.iter().all(|b| !b.affordable));
}

#[test]
fn repeating_timer_wraps_and_reports_completion() {
    let mut t = Timer::new(500, TimerMode::Repeating);
    assert!(!t.tick(499));
    assert_eq!(t.elapsed_ms, 499);
    assert!(t.tick(1));
    assert_eq!(t.elapsed_ms, 0);
    assert!(t.tick(1200));
    assert_eq!(t.elapsed_ms, 200, "overshoot wraps modulo the period");
}

#[test]
fn one_shot_timer_completes_once_and_saturates() {
    let mut t = Timer::new(1000, TimerMode::Once);
    assert!(!t.tick(999));
    assert!(t.tick(1));
    assert_eq!(t.elapsed_ms, 1000);
    assert!(!t.tick(500), "a one-shot timer completes only once");
    assert_eq!(t.elapsed_ms, 1000);
}

#[test]
fn integer_square_root_is_exact() {
    assert_eq!(isqrt(0), 0);
    assert_eq!(isqrt(1), 1);
    assert_eq!(isqrt(3), 1);
    assert_eq!(isqrt(4), 2);
    assert_eq!(isqrt(15), 3);
    assert_eq!(isqrt(16), 4);
    assert_eq!(isqrt(999_999), 999);
    assert_eq!(isqrt(1_000_000), 1000);
    assert_eq!(isqrt(u64::MAX), 4_294_967_295);
}

/// The game state machine only moves forward: menu to game to game over.
#[test]
fn state_machine_is_one_directional() {
    let mut w = World::new(vec![IVec2 { x: 1000, z: 0 }], 100, 1);
    assert_eq!(w.state, GameState::MainMenu);
    w.tick(100);
    assert_eq!(w.state, GameState::MainMenu, "nothing runs in the menu");
    w.start_game();
    w.spawn_target(450, IVec3 { x: 1000, y: 0, z: 0 }, 1);
    w.tick(100);
    assert_eq!(w.state, GameState::GameOver);
    assert!(!w.start_game(), "no transition leaves the terminal state");
    assert_eq!(w.state, GameState::GameOver);
}
