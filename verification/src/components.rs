//! The data carried by each kind of entity, the three tower types with their
//! fixed costs, cooldown periods and bullet speeds, the player record, and
//! the top-level game state.

use crate::geometry::IVec2;
use crate::geometry::IVec3;
use crate::timer::Timer;
use crate::timer::TimerMode;
use vstd::prelude::*;

verus! {

/// A bullet expires this many milliseconds after it is fired.
pub const BULLET_LIFETIME_MS: u32 = 10_000;

/// Bullets leave a tower this far above its position, in milli-units.
pub const BULLET_SPAWN_HEIGHT: i64 = 200;

/// Path-following state of a mobile target: forward speed in milli-units per
/// second and the index of the waypoint it is currently travelling towards.
#[derive(Clone, Copy, Debug, PartialEq, Eq, Structural)]
pub struct Target {
    pub speed: u32,
    pub path_index: usize,
}

/// The ordered waypoints every target follows, planar, in milli-units.
pub struct TargetPath {
    pub waypoints: Vec<IVec2>,
}

/// Remaining time to live of a bullet.
#[derive(Clone, Copy, Debug, PartialEq, Eq, Structural)]
pub struct Lifetime {
    pub timer: Timer,
}

/// A projectile: the direction fixed when it was fired (not normalized) and
/// its speed in milli-units per second.
#[derive(Clone, Copy, Debug, PartialEq, Eq, Structural)]
pub struct Bullet {
    pub direction: IVec3,
    pub speed: u32,
}

/// A tower's firing state: the repeating cooldown timer and the local offset
/// at which its bullets spawn.
#[derive(Clone, Copy, Debug, PartialEq, Eq, Structural)]
pub struct Tower {
    pub shooting_timer: Timer,
    pub bullet_offset: IVec3,
}

/// Health of a target; the target dies when the value reaches zero or below.
#[derive(Clone, Copy, Debug, PartialEq, Eq, Structural)]
pub struct Health {
    pub value: i32,
}

/// The three tower kinds, each with a fixed cost, cooldown period and bullet
/// speed.
#[derive(Clone, Copy, Debug, PartialEq, Eq, Structural)]
pub enum TowerType {
    Tomato,
    Potato,
    Cabbage,
}

impl TowerType {
    /// Purchase cost.
    pub open spec fn cost_spec(self) -> u32 {
        match self {
            TowerType::Tomato => 50,
            TowerType::Potato => 80,
            TowerType::Cabbage => 110,
        }
    }

    pub fn cost(&self) -> (c: u32)
        ensures
            c == self.cost_spec(),
    {
        match self {
            TowerType::Tomato => 50,
            TowerType::Potato => 80,
            TowerType::Cabbage => 110,
        }
    }

    /// Cooldown period between shots, in milliseconds.
    pub open spec fn period_ms_spec(self) -> u32 {
        match self {
            TowerType::Tomato => 500,
            TowerType::Potato => 700,
            TowerType::Cabbage => 800,
        }
    }

    pub fn period_ms(&self) -> (p: u32)
        ensures
            p == self.period_ms_spec(),
    {
        match self {
            TowerType::Tomato => 500,
            TowerType::Potato => 700,
            TowerType::Cabbage => 800,
        }
    }

    /// Speed of this kind's bullets, in milli-units per second.
    pub open spec fn bullet_speed_spec(self) -> u32 {
        match self {
            TowerType::Tomato => 3500,
            TowerType::Potato => 6500,
            TowerType::Cabbage => 8500,
        }
    }

    pub fn bullet_speed(&self) -> (s: u32)
        ensures
            s == self.bullet_speed_spec(),
    {
        match self {
            TowerType::Tomato => 3500,
            TowerType::Potato => 6500,
            TowerType::Cabbage => 8500,
        }
    }

    /// The firing state of a freshly purchased tower of this kind: its
    /// cooldown starts from zero, so the first shot comes one full period
    /// after placement.
    pub open spec fn tower_spec(self) -> Tower {
        Tower {
            shooting_timer: Timer {
                duration_ms: self.period_ms_spec(),
                elapsed_ms: 0,
                mode: TimerMode::Repeating,
            },
            bullet_offset: IVec3 { x: 0, y: BULLET_SPAWN_HEIGHT, z: 0 },
        }
    }

    pub fn get_tower(&self) -> (t: Tower)
        ensures
            t == self.tower_spec(),
            t.shooting_timer.wf(),
    {
        Tower {
            shooting_timer: Timer::new(self.period_ms(), TimerMode::Repeating),
            bullet_offset: IVec3 { x: 0, y: BULLET_SPAWN_HEIGHT, z: 0 },
        }
    }

    pub open spec fn bullet_spec(self, direction: IVec3) -> Bullet {
        Bullet { direction, speed: self.bullet_speed_spec() }
    }

    pub fn get_bullet(&self, direction: IVec3) -> (b: Bullet)
        ensures
            b == self.bullet_spec(direction),
    {
        Bullet { direction, speed: self.bullet_speed() }
    }
}

/// The top-level game state; only `InGame` runs the simulation.
#[derive(Clone, Copy, Debug, PartialEq, Eq, Structural)]
pub enum GameState {
    MainMenu,
    InGame,
    GameOver,
}

/// Notification that a target died this tick; consumed by listeners outside
/// the core (scoring, audio) and cleared at the start of the next tick.
#[derive(Clone, Copy, Debug, PartialEq, Eq, Structural)]
pub struct TargetDeathEvent;

/// Read-only projection of one purchase option: its cost and whether the
/// player can currently afford it.
#[derive(Clone, Copy, Debug, PartialEq, Eq, Structural)]
pub struct TowerButtonState {
    pub cost: u32,
    pub affordable: bool,
}

/// The player's economy: money balance and remaining health.
#[derive(Clone, Copy, Debug, PartialEq, Eq, Structural)]
pub struct Player {
    pub money: u32,
    pub health: i32,
}

pub open spec fn affordable_spec(money: u32, cost: u32) -> bool {
    money >= cost
}

/// Recomputes the `affordable` flag of every purchase option from the
/// player's current money; costs are left as they are.
pub fn update_affordability(buttons: &mut Vec<TowerButtonState>, money: u32)
    ensures
        final(buttons).len() == old(buttons).len(),
        forall|i: int|
            0 <= i < old(buttons).len() ==> final(buttons)@[i] == (TowerButtonState {
                cost: old(buttons)@[i].cost,
                affordable: affordable_spec(money, old(buttons)@[i].cost),
            }),
{
    let n: usize = buttons.len();
    let mut i: usize = 0;
    while i < n
        invariant
            n == buttons.len(),
            i <= n,
            buttons.len() == old(buttons).len(),
            forall|j: int|
                0 <= j < i ==> buttons@[j] == (TowerButtonState {
                    cost: old(buttons)@[j].cost,
                    affordable: affordable_spec(money, old(buttons)@[j].cost),
                }),
            forall|j: int| i <= j < n ==> buttons@[j] == old(buttons)@[j],
        decreases n - i,
    {
        let cost: u32 = buttons[i].cost;
        let entry: TowerButtonState = TowerButtonState { cost, affordable: money >= cost };
        buttons.set(i, entry);
        i = i + 1;
    }
}

} // verus!
