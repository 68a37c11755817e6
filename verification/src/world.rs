//! The simulation itself: the entity arena (targets, towers, bullets), the
//! player economy, the game-state machine, and the per-tick systems —
//! path-following movement, death reaping, escape handling, tower targeting
//! and firing, and bullet flight and expiry.
//!
//! Every tick-phase has an exact functional specification over the world's
//! mathematical model [`WorldModel`], and [`World::tick`] is proved equal to
//! the composition [`tick_spec`] of those phase specifications.

use crate::components::Bullet;
use crate::components::GameState;
use crate::components::Health;
use crate::components::Lifetime;
use crate::components::Player;
use crate::components::Target;
use crate::components::TargetDeathEvent;
use crate::components::TargetPath;
use crate::components::Tower;
use crate::components::TowerType;
use crate::components::BULLET_LIFETIME_MS;
use crate::geometry::clamped;
use crate::geometry::clamp_coord;
use crate::geometry::compute_step;
use crate::geometry::dist_sq;
use crate::geometry::isqrt;
use crate::geometry::lemma_abs_bound_from_sq;
use crate::geometry::lemma_sq_nonneg;
use crate::geometry::planar_dist_sq;
use crate::geometry::scaled_move;
use crate::geometry::scaled_step;
use crate::geometry::sqrt_floor;
use crate::geometry::step_length;
use crate::geometry::vec2_ok;
use crate::geometry::vec3_ok;
use crate::geometry::IVec2;
use crate::geometry::IVec3;
use crate::geometry::COORD_LIMIT;
use crate::geometry::DIR_LIMIT;
use crate::geometry::OFFSET_LIMIT;
use crate::geometry::POS_LIMIT;
use crate::timer::Timer;
use crate::timer::TimerMode;
use vstd::prelude::*;

verus! {

/// A living target: a stable handle, its path-following state, its health,
/// its position and its planar heading (the direction it faces, updated to
/// point at its current waypoint while it travels).
#[derive(Clone, Copy, Debug)]
pub struct TargetUnit {
    pub id: u64,
    pub target: Target,
    pub health: Health,
    pub pos: IVec3,
    pub heading: IVec2,
}

/// A placed tower: its firing state, its kind and its position.
#[derive(Clone, Copy, Debug)]
pub struct TowerUnit {
    pub tower: Tower,
    pub kind: TowerType,
    pub pos: IVec3,
}

/// A bullet in flight: its fixed direction and speed, its remaining
/// lifetime, and its position.
#[derive(Clone, Copy, Debug)]
pub struct BulletUnit {
    pub bullet: Bullet,
    pub lifetime: Lifetime,
    pub pos: IVec3,
}

/// The mathematical model of a [`World`].
#[verifier::ext_equal]
pub ghost struct WorldModel {
    pub state: GameState,
    pub waypoints: Seq<IVec2>,
    pub targets: Seq<TargetUnit>,
    pub towers: Seq<TowerUnit>,
    pub bullets: Seq<BulletUnit>,
    pub player: Player,
    pub deaths: nat,
    pub next_target_id: u64,
}

/// The whole simulation state.
pub struct World {
    pub state: GameState,
    pub path: TargetPath,
    pub targets: Vec<TargetUnit>,
    pub towers: Vec<TowerUnit>,
    pub bullets: Vec<BulletUnit>,
    pub player: Player,
    /// Death notifications produced by the current tick; cleared when the
    /// next tick begins.
    pub death_events: Vec<TargetDeathEvent>,
    pub next_target_id: u64,
}

impl View for World {
    type V = WorldModel;

    open spec fn view(&self) -> WorldModel {
        WorldModel {
            state: self.state,
            waypoints: self.path.waypoints@,
            targets: self.targets@,
            towers: self.towers@,
            bullets: self.bullets@,
            player: self.player,
            deaths: self.death_events@.len() as nat,
            next_target_id: self.next_target_id,
        }
    }
}

pub open spec fn target_unit_ok(u: TargetUnit) -> bool {
    vec3_ok(u.pos)
}

pub open spec fn offset_ok(v: IVec3) -> bool {
    &&& -OFFSET_LIMIT <= v.x <= OFFSET_LIMIT
    &&& -OFFSET_LIMIT <= v.y <= OFFSET_LIMIT
    &&& -OFFSET_LIMIT <= v.z <= OFFSET_LIMIT
}

pub open spec fn tower_unit_ok(t: TowerUnit) -> bool {
    &&& vec3_ok(t.pos)
    &&& offset_ok(t.tower.bullet_offset)
    &&& t.tower.shooting_timer.wf()
    &&& t.tower.shooting_timer.mode == TimerMode::Repeating
}

pub open spec fn bullet_unit_ok(b: BulletUnit) -> bool {
    &&& -POS_LIMIT <= b.pos.x <= POS_LIMIT
    &&& -POS_LIMIT <= b.pos.y <= POS_LIMIT
    &&& -POS_LIMIT <= b.pos.z <= POS_LIMIT
    &&& -DIR_LIMIT <= b.bullet.direction.x <= DIR_LIMIT
    &&& -DIR_LIMIT <= b.bullet.direction.y <= DIR_LIMIT
    &&& -DIR_LIMIT <= b.bullet.direction.z <= DIR_LIMIT
    &&& b.lifetime.timer.wf()
    &&& b.lifetime.timer.mode == TimerMode::Once
    &&& b.lifetime.timer.elapsed_ms < b.lifetime.timer.duration_ms
}

impl WorldModel {
    /// Well-formedness of the model: every coordinate is in range, every
    /// timer is in a legal state, target handles are below the allocator
    /// cursor, and the player's health never goes negative.
    pub open spec fn wf(self) -> bool {
        &&& forall|i: int| 0 <= i < self.waypoints.len() ==> vec2_ok(#[trigger] self.waypoints[i])
        &&& forall|i: int| 0 <= i < self.targets.len() ==> target_unit_ok(#[trigger] self.targets[i])
        &&& forall|i: int|
            0 <= i < self.targets.len() ==> (#[trigger] self.targets[i]).id < self.next_target_id
        &&& forall|i: int| 0 <= i < self.towers.len() ==> tower_unit_ok(#[trigger] self.towers[i])
        &&& forall|i: int| 0 <= i < self.bullets.len() ==> bullet_unit_ok(#[trigger] self.bullets[i])
        &&& self.player.health >= 0
    }
}

/// One target after the movement phase of a tick of `dt` milliseconds.
///
/// A target already past the end of the path is left alone (the escape check
/// removes it in the same tick). Otherwise, if the remaining planar distance
/// to its waypoint is longer than this tick's step, it travels that step
/// towards the waypoint and turns to face it; if the step would reach or
/// overshoot the waypoint, it stays in place this tick and its waypoint
/// index advances by one.
pub open spec fn target_after_move(u: TargetUnit, path: Seq<IVec2>, dt: u32) -> TargetUnit {
    if u.target.path_index >= path.len() {
        u
    } else {
        let wp = path[u.target.path_index as int];
        let stp = step_length(u.target.speed, dt);
        let d2 = planar_dist_sq(u.pos, wp);
        if d2 > stp * stp {
            let dist = sqrt_floor(d2 as nat) as int;
            TargetUnit {
                pos: IVec3 {
                    x: (u.pos.x + scaled_step(wp.x - u.pos.x, stp, dist)) as i64,
                    y: u.pos.y,
                    z: (u.pos.z + scaled_step(wp.z - u.pos.z, stp, dist)) as i64,
                },
                heading: IVec2 { x: (wp.x - u.pos.x) as i64, z: (wp.z - u.pos.z) as i64 },
                ..u
            }
        } else {
            TargetUnit {
                target: Target { path_index: (u.target.path_index + 1) as usize, ..u.target },
                ..u
            }
        }
    }
}

/// All targets after the movement phase, in order.
pub open spec fn moved_targets(ts: Seq<TargetUnit>, path: Seq<IVec2>, dt: u32) -> Seq<TargetUnit>
    decreases ts.len(),
{
    if ts.len() == 0 {
        Seq::empty()
    } else {
        moved_targets(ts.drop_last(), path, dt).push(target_after_move(ts.last(), path, dt))
    }
}

/// The targets that survive the death check: those with positive health.
pub open spec fn living_targets(ts: Seq<TargetUnit>) -> Seq<TargetUnit>
    decreases ts.len(),
{
    if ts.len() == 0 {
        Seq::empty()
    } else {
        let rest = living_targets(ts.drop_last());
        if ts.last().health.value > 0 {
            rest.push(ts.last())
        } else {
            rest
        }
    }
}

/// How many targets the death check removes.
pub open spec fn dead_count(ts: Seq<TargetUnit>) -> nat
    decreases ts.len(),
{
    if ts.len() == 0 {
        0
    } else {
        dead_count(ts.drop_last()) + if ts.last().health.value > 0 {
            0nat
        } else {
            1nat
        }
    }
}

/// The targets still on the path: those whose waypoint index has not reached
/// the path length.
pub open spec fn on_path_targets(ts: Seq<TargetUnit>, path_len: nat) -> Seq<TargetUnit>
    decreases ts.len(),
{
    if ts.len() == 0 {
        Seq::empty()
    } else {
        let rest = on_path_targets(ts.drop_last(), path_len);
        if (ts.last().target.path_index as nat) < path_len {
            rest.push(ts.last())
        } else {
            rest
        }
    }
}

/// How many targets have escaped: their waypoint index reached the path
/// length.
pub open spec fn escaped_count(ts: Seq<TargetUnit>, path_len: nat) -> nat
    decreases ts.len(),
{
    if ts.len() == 0 {
        0
    } else {
        escaped_count(ts.drop_last(), path_len) + if (ts.last().target.path_index as nat)
            < path_len {
            0nat
        } else {
            1nat
        }
    }
}

/// The player after `n` targets escaped in one tick: health drops by one per
/// escape but never below zero; money is untouched.
pub open spec fn player_after_escapes(p: Player, n: nat) -> Player {
    Player {
        money: p.money,
        health: if p.health <= 0 {
            p.health
        } else if n >= p.health {
            0
        } else {
            (p.health - n) as i32
        },
    }
}

/// The game state after `n` targets escaped: the moment the player's health
/// is exhausted the game is over.
pub open spec fn state_after_escapes(s: GameState, p: Player, n: nat) -> GameState {
    if p.health > 0 && n >= p.health {
        GameState::GameOver
    } else {
        s
    }
}

/// All towers with their cooldown timers advanced by `dt` milliseconds.
pub open spec fn towers_ticked(tws: Seq<TowerUnit>, dt: u32) -> Seq<TowerUnit>
    decreases tws.len(),
{
    if tws.len() == 0 {
        Seq::empty()
    } else {
        towers_ticked(tws.drop_last(), dt).push(
            TowerUnit {
                tower: Tower {
                    shooting_timer: tws.last().tower.shooting_timer.ticked(dt),
                    ..tws.last().tower
                },
                ..tws.last()
            },
        )
    }
}

/// The index of the target nearest to `p`, the first one on ties.
pub open spec fn nearest_index(ts: Seq<TargetUnit>, p: IVec3) -> int
    decreases ts.len(),
{
    if ts.len() <= 1 {
        0
    } else {
        let r = nearest_index(ts.drop_last(), p);
        if dist_sq(ts.last().pos, p) < dist_sq(ts[r].pos, p) {
            ts.len() - 1
        } else {
            r
        }
    }
}

/// Where a tower's bullets appear: its position shifted by its offset.
pub open spec fn spawn_point(tw: TowerUnit) -> IVec3 {
    IVec3 {
        x: (tw.pos.x + tw.tower.bullet_offset.x) as i64,
        y: (tw.pos.y + tw.tower.bullet_offset.y) as i64,
        z: (tw.pos.z + tw.tower.bullet_offset.z) as i64,
    }
}

/// The bullet a tower fires: it appears at the tower's spawn point, aimed at
/// the nearest target, with the tower kind's bullet speed and a fresh
/// lifetime.
pub open spec fn fired_bullet(tw: TowerUnit, ts: Seq<TargetUnit>) -> BulletUnit {
    let sp = spawn_point(tw);
    let k = nearest_index(ts, sp);
    let dir = IVec3 {
        x: (ts[k].pos.x - sp.x) as i64,
        y: (ts[k].pos.y - sp.y) as i64,
        z: (ts[k].pos.z - sp.z) as i64,
    };
    BulletUnit {
        bullet: Bullet { direction: dir, speed: tw.kind.bullet_speed_spec() },
        lifetime: Lifetime {
            timer: Timer {
                duration_ms: BULLET_LIFETIME_MS,
                elapsed_ms: 0,
                mode: TimerMode::Once,
            },
        },
        pos: sp,
    }
}

/// The bullets fired this tick, in tower order: each tower whose cooldown
/// completes fires at the nearest target, and fires nothing when no target
/// exists.
pub open spec fn fired_bullets(tws: Seq<TowerUnit>, ts: Seq<TargetUnit>, dt: u32) -> Seq<
    BulletUnit,
>
    decreases tws.len(),
{
    if tws.len() == 0 {
        Seq::empty()
    } else {
        let rest = fired_bullets(tws.drop_last(), ts, dt);
        if tws.last().tower.shooting_timer.fires(dt) && ts.len() > 0 {
            rest.push(fired_bullet(tws.last(), ts))
        } else {
            rest
        }
    }
}

pub open spec fn dir_norm_sq(d: IVec3) -> int {
    d.x * d.x + d.y * d.y + d.z * d.z
}

/// One bullet after flying for `dt` milliseconds: it moves one step along
/// its fixed direction; coordinates saturate at the play-space bound. A
/// degenerate bullet with a zero direction stays in place.
pub open spec fn bullet_after_move(b: BulletUnit, dt: u32) -> BulletUnit {
    let stp = step_length(b.bullet.speed, dt);
    let n2 = dir_norm_sq(b.bullet.direction);
    if n2 == 0 {
        b
    } else {
        let nrm = sqrt_floor(n2 as nat) as int;
        BulletUnit {
            pos: IVec3 {
                x: clamped(b.pos.x + scaled_step(b.bullet.direction.x as int, stp, nrm)) as i64,
                y: clamped(b.pos.y + scaled_step(b.bullet.direction.y as int, stp, nrm)) as i64,
                z: clamped(b.pos.z + scaled_step(b.bullet.direction.z as int, stp, nrm)) as i64,
            },
            ..b
        }
    }
}

/// All bullets after the flight phase, in order.
pub open spec fn moved_bullets(bs: Seq<BulletUnit>, dt: u32) -> Seq<BulletUnit>
    decreases bs.len(),
{
    if bs.len() == 0 {
        Seq::empty()
    } else {
        moved_bullets(bs.drop_last(), dt).push(bullet_after_move(bs.last(), dt))
    }
}

/// The bullets that survive the expiry phase: each lifetime advances by
/// `dt`; a bullet whose lifetime completes during this tick is removed.
pub open spec fn retained_bullets(bs: Seq<BulletUnit>, dt: u32) -> Seq<BulletUnit>
    decreases bs.len(),
{
    if bs.len() == 0 {
        Seq::empty()
    } else {
        let rest = retained_bullets(bs.drop_last(), dt);
        let b = bs.last();
        if b.lifetime.timer.fires(dt) {
            rest
        } else {
            rest.push(
                BulletUnit { lifetime: Lifetime { timer: b.lifetime.timer.ticked(dt) }, ..b },
            )
        }
    }
}

/// One full simulation tick of `dt` milliseconds over the model.
///
/// Outside `InGame` nothing runs; the tick only clears the notification
/// queue. In game, the phases run in this order: targets move, dead targets
/// are reaped, escaped targets are reaped (hurting the player and possibly
/// ending the game), bullets fly and expire, and finally towers fire.
/// Because towers fire last, a bullet spawned this tick first moves on the
/// next tick, mirroring deferred entity creation.
pub open spec fn tick_spec(m: WorldModel, dt: u32) -> WorldModel {
    if m.state != GameState::InGame {
        WorldModel { deaths: 0, ..m }
    } else {
        let moved = moved_targets(m.targets, m.waypoints, dt);
        let alive = living_targets(moved);
        let remaining = on_path_targets(alive, m.waypoints.len());
        let nesc = escaped_count(alive, m.waypoints.len());
        WorldModel {
            state: state_after_escapes(m.state, m.player, nesc),
            waypoints: m.waypoints,
            targets: remaining,
            towers: towers_ticked(m.towers, dt),
            bullets: retained_bullets(moved_bullets(m.bullets, dt), dt) + fired_bullets(
                m.towers,
                remaining,
                dt,
            ),
            player: player_after_escapes(m.player, nesc),
            deaths: dead_count(moved),
            next_target_id: m.next_target_id,
        }
    }
}

/// Movement of a single target, exactly [`target_after_move`].
fn move_target_unit(u: &TargetUnit, path: &TargetPath, dt: u32) -> (r: TargetUnit)
    requires
        target_unit_ok(*u),
        forall|i: int| 0 <= i < path.waypoints@.len() ==> vec2_ok(#[trigger] path.waypoints@[i]),
    ensures
        r == target_after_move(*u, path.waypoints@, dt),
        target_unit_ok(r),
{
    let idx: usize = u.target.path_index;
    if idx >= path.waypoints.len() {
        return *u;
    }
    let wp: IVec2 = path.waypoints[idx];
    let step: u64 = compute_step(u.target.speed, dt);
    let dx: i64 = wp.x - u.pos.x;
    let dz: i64 = wp.z - u.pos.z;
    proof {
        lemma_sq_nonneg(dx as int);
        lemma_sq_nonneg(dz as int);
        assert((dx as int) * (dx as int) <= 2_560_000_000_000_000_000) by (nonlinear_arith)
            requires
                -1_600_000_000 <= dx <= 1_600_000_000,
        ;
        assert((dz as int) * (dz as int) <= 2_560_000_000_000_000_000) by (nonlinear_arith)
            requires
                -1_600_000_000 <= dz <= 1_600_000_000,
        ;
    }
    let d2u: u64 = (dx * dx + dz * dz) as u64;
    assert(d2u as int == planar_dist_sq(u.pos, wp));
    assert((step as int) * (step as int) <= 16_000_000_000_000_000_000) by (nonlinear_arith)
        requires
            0 <= step <= 4_000_000_000,
    ;
    let sq: u64 = step * step;
    if d2u > sq {
        let dist: u64 = isqrt(d2u);
        proof {
            assert(dist >= 1) by (nonlinear_arith)
                requires
                    (dist as int + 1) * (dist as int + 1) > d2u as int,
                    d2u >= 1,
            ;
            assert(dist <= 3_000_000_000) by (nonlinear_arith)
                requires
                    (dist as int) * (dist as int) <= d2u as int,
                    d2u <= 6_000_000_000_000_000_000,
            ;
            lemma_abs_bound_from_sq(dx as int, dist as int);
            lemma_abs_bound_from_sq(dz as int, dist as int);
            lemma_abs_bound_from_sq(step as int, dist as int);
        }
        let mx: i64 = scaled_move(dx, step, dist);
        let mz: i64 = scaled_move(dz, step, dist);
        let px: i64 = u.pos.x + mx;
        let pz: i64 = u.pos.z + mz;
        TargetUnit {
            pos: IVec3 { x: px, y: u.pos.y, z: pz },
            heading: IVec2 { x: dx, z: dz },
            ..*u
        }
    } else {
        TargetUnit { target: Target { path_index: idx + 1, ..u.target }, ..*u }
    }
}

/// Flight of a single bullet, exactly [`bullet_after_move`].
fn move_bullet_unit(b: &BulletUnit, dt: u32) -> (r: BulletUnit)
    requires
        bullet_unit_ok(*b),
    ensures
        r == bullet_after_move(*b, dt),
        bullet_unit_ok(r),
{
    let d: IVec3 = b.bullet.direction;
    proof {
        lemma_sq_nonneg(d.x as int);
        lemma_sq_nonneg(d.y as int);
        lemma_sq_nonneg(d.z as int);
        assert((d.x as int) * (d.x as int) <= 2_563_201_000_000_000_000) by (nonlinear_arith)
            requires
                -1_601_000_000 <= d.x <= 1_601_000_000,
        ;
        assert((d.y as int) * (d.y as int) <= 2_563_201_000_000_000_000) by (nonlinear_arith)
            requires
                -1_601_000_000 <= d.y <= 1_601_000_000,
        ;
        assert((d.z as int) * (d.z as int) <= 2_563_201_000_000_000_000) by (nonlinear_arith)
            requires
                -1_601_000_000 <= d.z <= 1_601_000_000,
        ;
    }
    let n2: u64 = (d.x * d.x + d.y * d.y + d.z * d.z) as u64;
    assert(n2 as int == dir_norm_sq(d));
    if n2 == 0 {
        return *b;
    }
    let step: u64 = compute_step(b.bullet.speed, dt);
    let nrm: u64 = isqrt(n2);
    proof {
        assert(nrm >= 1) by (nonlinear_arith)
            requires
                (nrm as int + 1) * (nrm as int + 1) > n2 as int,
                n2 >= 1,
        ;
        assert(nrm <= 3_000_000_000) by (nonlinear_arith)
            requires
                (nrm as int) * (nrm as int) <= n2 as int,
                n2 <= 7_689_603_000_000_000_000,
        ;
        lemma_abs_bound_from_sq(d.x as int, nrm as int);
        lemma_abs_bound_from_sq(d.y as int, nrm as int);
        lemma_abs_bound_from_sq(d.z as int, nrm as int);
    }
    let mx: i64 = scaled_move(d.x, step, nrm);
    let my: i64 = scaled_move(d.y, step, nrm);
    let mz: i64 = scaled_move(d.z, step, nrm);
    let px: i64 = clamp_coord(b.pos.x + mx);
    let py: i64 = clamp_coord(b.pos.y + my);
    let pz: i64 = clamp_coord(b.pos.z + mz);
    BulletUnit { pos: IVec3 { x: px, y: py, z: pz }, ..*b }
}

/// Squared spatial distance from a target position to a spawn point,
/// exactly [`dist_sq`].
fn target_dist_sq(a: IVec3, p: IVec3) -> (d: u64)
    requires
        vec3_ok(a),
        -(COORD_LIMIT + OFFSET_LIMIT) <= p.x <= COORD_LIMIT + OFFSET_LIMIT,
        -(COORD_LIMIT + OFFSET_LIMIT) <= p.y <= COORD_LIMIT + OFFSET_LIMIT,
        -(COORD_LIMIT + OFFSET_LIMIT) <= p.z <= COORD_LIMIT + OFFSET_LIMIT,
    ensures
        d as int == dist_sq(a, p),
{
    let dx: i64 = p.x - a.x;
    let dy: i64 = p.y - a.y;
    let dz: i64 = p.z - a.z;
    proof {
        lemma_sq_nonneg(dx as int);
        lemma_sq_nonneg(dy as int);
        lemma_sq_nonneg(dz as int);
        assert((dx as int) * (dx as int) <= 2_563_201_000_000_000_000) by (nonlinear_arith)
            requires
                -1_601_000_000 <= dx <= 1_601_000_000,
        ;
        assert((dy as int) * (dy as int) <= 2_563_201_000_000_000_000) by (nonlinear_arith)
            requires
                -1_601_000_000 <= dy <= 1_601_000_000,
        ;
        assert((dz as int) * (dz as int) <= 2_563_201_000_000_000_000) by (nonlinear_arith)
            requires
                -1_601_000_000 <= dz <= 1_601_000_000,
        ;
    }
    (dx * dx + dy * dy + dz * dz) as u64
}

/// Linear scan for the target nearest to `p`; the first one wins ties.
/// Exactly [`nearest_index`].
#[verifier::loop_isolation(false)]
fn nearest_target(ts: &Vec<TargetUnit>, p: IVec3) -> (k: usize)
    requires
        ts@.len() >= 1,
        forall|i: int| 0 <= i < ts@.len() ==> target_unit_ok(#[trigger] ts@[i]),
        -(COORD_LIMIT + OFFSET_LIMIT) <= p.x <= COORD_LIMIT + OFFSET_LIMIT,
        -(COORD_LIMIT + OFFSET_LIMIT) <= p.y <= COORD_LIMIT + OFFSET_LIMIT,
        -(COORD_LIMIT + OFFSET_LIMIT) <= p.z <= COORD_LIMIT + OFFSET_LIMIT,
    ensures
        k < ts@.len(),
        k as int == nearest_index(ts@, p),
{
    let mut best: usize = 0;
    let mut i: usize = 1;
    while i < ts.len()
        invariant
            1 <= i <= ts@.len(),
            best < i,
            best as int == nearest_index(ts@.subrange(0, i as int), p),
        decreases ts@.len() - i,
    {
        let db: u64 = target_dist_sq(ts[best].pos, p);
        let di: u64 = target_dist_sq(ts[i].pos, p);
        proof {
            let pre = ts@.subrange(0, i as int);
            let post = ts@.subrange(0, i as int + 1);
            assert(post.drop_last() =~= pre);
            assert(post.last() == ts@[i as int]);
        }
        if di < db {
            best = i;
        }
        i = i + 1;
    }
    proof {
        assert(ts@.subrange(0, ts@.len() as int) =~= ts@);
    }
    best
}

impl World {
    pub open spec fn wf(self) -> bool {
        self@.wf()
    }

    /// A fresh session: the given path, an empty arena, the given starting
    /// economy, and the main menu showing.
    pub fn new(waypoints: Vec<IVec2>, starting_money: u32, starting_health: i32) -> (w: World)
        requires
            forall|i: int| 0 <= i < waypoints@.len() ==> vec2_ok(#[trigger] waypoints@[i]),
            starting_health >= 1,
        ensures
            w.wf(),
            w@ == (WorldModel {
                state: GameState::MainMenu,
                waypoints: waypoints@,
                targets: Seq::empty(),
                towers: Seq::empty(),
                bullets: Seq::empty(),
                player: Player { money: starting_money, health: starting_health },
                deaths: 0,
                next_target_id: 0,
            }),
    {
        let w = World {
            state: GameState::MainMenu,
            path: TargetPath { waypoints },
            targets: Vec::new(),
            towers: Vec::new(),
            bullets: Vec::new(),
            player: Player { money: starting_money, health: starting_health },
            death_events: Vec::new(),
            next_target_id: 0,
        };
        proof {
            assert(w@ =~= (WorldModel {
                state: GameState::MainMenu,
                waypoints: w.path.waypoints@,
                targets: Seq::empty(),
                towers: Seq::empty(),
                bullets: Seq::empty(),
                player: Player { money: starting_money, health: starting_health },
                deaths: 0,
                next_target_id: 0,
            }));
        }
        w
    }

    /// The external "start game" request: from the main menu this enters the
    /// game; in any other state it does nothing. Returns whether the game
    /// started.
    pub fn start_game(&mut self) -> (started: bool)
        requires
            old(self).wf(),
        ensures
            final(self).wf(),
            started == (old(self)@.state == GameState::MainMenu),
            final(self)@ == (WorldModel {
                state: if started {
                    GameState::InGame
                } else {
                    old(self)@.state
                },
                ..old(self)@
            }),
    {
        if self.state == GameState::MainMenu {
            self.state = GameState::InGame;
            true
        } else {
            false
        }
    }

    /// Adds a target at the head of the path with a fresh handle; returns
    /// the handle. Targets spawn with positive health.
    pub fn spawn_target(&mut self, speed: u32, pos: IVec3, health_value: i32) -> (id: u64)
        requires
            old(self).wf(),
            vec3_ok(pos),
            health_value >= 1,
            old(self).next_target_id < u64::MAX,
        ensures
            final(self).wf(),
            id == old(self)@.next_target_id,
            final(self)@ == (WorldModel {
                targets: old(self)@.targets.push(
                    TargetUnit {
                        id,
                        target: Target { speed, path_index: 0 },
                        health: Health { value: health_value },
                        pos,
                        heading: IVec2 { x: 0, z: 0 },
                    },
                ),
                next_target_id: (old(self)@.next_target_id + 1) as u64,
                ..old(self)@
            }),
    {
        let id: u64 = self.next_target_id;
        let unit = TargetUnit {
            id,
            target: Target { speed, path_index: 0 },
            health: Health { value: health_value },
            pos,
            heading: IVec2 { x: 0, z: 0 },
        };
        self.targets.push(unit);
        self.next_target_id = self.next_target_id + 1;
        id
    }

    /// Applies `amount` damage reported by the external collision
    /// collaborator to the target at `index`; health saturates downward.
    /// The death check removes the target on the next tick.
    pub fn damage_target(&mut self, index: usize, amount: i32)
        requires
            old(self).wf(),
            index < old(self)@.targets.len(),
            amount >= 0,
        ensures
            final(self).wf(),
            final(self)@ == (WorldModel {
                targets: old(self)@.targets.update(
                    index as int,
                    TargetUnit {
                        health: Health {
                            value: if old(self)@.targets[index as int].health.value - amount
                                < i32::MIN {
                                i32::MIN
                            } else {
                                (old(self)@.targets[index as int].health.value - amount) as i32
                            },
                        },
                        ..old(self)@.targets[index as int]
                    },
                ),
                ..old(self)@
            }),
    {
        let u = self.targets[index];
        let h: i64 = u.health.value as i64 - amount as i64;
        let nh: i32 = if h < i32::MIN as i64 {
            i32::MIN
        } else {
            h as i32
        };
        let updated = TargetUnit { health: Health { value: nh }, ..u };
        self.targets.set(index, updated);
    }

    /// The purchase operation: in game, with money at least the kind's cost,
    /// it debits exactly the cost and places exactly one tower of that kind
    /// at `pos`, its cooldown starting fresh. Otherwise it is a no-op.
    /// Returns whether the purchase happened.
    pub fn try_purchase(&mut self, kind: TowerType, pos: IVec3) -> (purchased: bool)
        requires
            old(self).wf(),
            vec3_ok(pos),
        ensures
            final(self).wf(),
            purchased == (old(self)@.state == GameState::InGame && old(self)@.player.money
                >= kind.cost_spec()),
            purchased ==> final(self)@ == (WorldModel {
                player: Player {
                    money: (old(self)@.player.money - kind.cost_spec()) as u32,
                    ..old(self)@.player
                },
                towers: old(self)@.towers.push(
                    TowerUnit { tower: kind.tower_spec(), kind, pos },
                ),
                ..old(self)@
            }),
            !purchased ==> final(self)@ == old(self)@,
    {
        if self.state == GameState::InGame && self.player.money >= kind.cost() {
            self.player.money = self.player.money - kind.cost();
            let tower = kind.get_tower();
            self.towers.push(TowerUnit { tower, kind, pos });
            true
        } else {
            false
        }
    }

    /// Movement phase: every target takes one step along the path.
    #[verifier::loop_isolation(false)]
    pub fn move_targets(&mut self, dt: u32)
        requires
            old(self).wf(),
        ensures
            final(self).wf(),
            final(self)@ == (WorldModel {
                targets: moved_targets(old(self)@.targets, old(self)@.waypoints, dt),
                ..old(self)@
            }),
    {
        let n: usize = self.targets.len();
        let mut out: Vec<TargetUnit> = Vec::new();
        let mut i: usize = 0;
        while i < n
            invariant
                i <= n,
                out@ == moved_targets(self.targets@.subrange(0, i as int), self.path.waypoints@, dt),
                forall|j: int| 0 <= j < out@.len() ==> target_unit_ok(#[trigger] out@[j]),
                forall|j: int|
                    0 <= j < out@.len() ==> (#[trigger] out@[j]).id < self.next_target_id,
            decreases n - i,
        {
            let u: TargetUnit = self.targets[i];
            let m: TargetUnit = move_target_unit(&u, &self.path, dt);
            proof {
                let pre = self.targets@.subrange(0, i as int);
                let post = self.targets@.subrange(0, i as int + 1);
                assert(post.drop_last() =~= pre);
                assert(post.last() == u);
            }
            out.push(m);
            i = i + 1;
        }
        proof {
            assert(self.targets@.subrange(0, n as int) =~= self.targets@);
        }
        self.targets = out;
        proof {
            assert(self@ =~= (WorldModel {
                targets: moved_targets(old(self)@.targets, old(self)@.waypoints, dt),
                ..old(self)@
            }));
        }
    }

    /// Death check: every target whose health has reached zero or below is
    /// removed, and one death notification per removal is queued.
    #[verifier::loop_isolation(false)]
    pub fn target_death(&mut self)
        requires
            old(self).wf(),
        ensures
            final(self).wf(),
            final(self)@ == (WorldModel {
                targets: living_targets(old(self)@.targets),
                deaths: old(self)@.deaths + dead_count(old(self)@.targets),
                ..old(self)@
            }),
    {
        let n: usize = self.targets.len();
        let mut out: Vec<TargetUnit> = Vec::new();
        let mut i: usize = 0;
        while i < n
            invariant
                i <= n,
                n == self.targets@.len(),
                out@ == living_targets(self.targets@.subrange(0, i as int)),
                forall|j: int|
                    0 <= j < out@.len() ==> exists|l: int|
                        0 <= l < self.targets@.len() && #[trigger] out@[j] == self.targets@[l],
                self@ == (WorldModel {
                    deaths: old(self)@.deaths + dead_count(
                        old(self)@.targets.subrange(0, i as int),
                    ),
                    ..old(self)@
                }),
            decreases n - i,
        {
            let u: TargetUnit = self.targets[i];
            proof {
                let pre = self.targets@.subrange(0, i as int);
                let post = self.targets@.subrange(0, i as int + 1);
                assert(post.drop_last() =~= pre);
                assert(post.last() == u);
            }
            if u.health.value > 0 {
                out.push(u);
            } else {
                self.death_events.push(TargetDeathEvent);
                proof {
                    assert(self@ =~= (WorldModel {
                        deaths: old(self)@.deaths + dead_count(
                            old(self)@.targets.subrange(0, i as int + 1),
                        ),
                        ..old(self)@
                    }));
                }
            }
            i = i + 1;
        }
        proof {
            assert(self.targets@.subrange(0, n as int) =~= self.targets@);
        }
        self.targets = out;
        proof {
            assert(self@ =~= (WorldModel {
                targets: living_targets(old(self)@.targets),
                deaths: old(self)@.deaths + dead_count(old(self)@.targets),
                ..old(self)@
            }));
        }
    }

    /// Escape check: every target whose waypoint index has reached the path
    /// length is removed; each removal costs the player one health (never
    /// below zero), and the game ends the moment health is exhausted.
    #[verifier::loop_isolation(false)]
    pub fn hurt_player(&mut self)
        requires
            old(self).wf(),
        ensures
            final(self).wf(),
            final(self)@ == (WorldModel {
                targets: on_path_targets(old(self)@.targets, old(self)@.waypoints.len()),
                player: player_after_escapes(
                    old(self)@.player,
                    escaped_count(old(self)@.targets, old(self)@.waypoints.len()),
                ),
                state: state_after_escapes(
                    old(self)@.state,
                    old(self)@.player,
                    escaped_count(old(self)@.targets, old(self)@.waypoints.len()),
                ),
                ..old(self)@
            }),
    {
        let plen: usize = self.path.waypoints.len();
        let n: usize = self.targets.len();
        let mut out: Vec<TargetUnit> = Vec::new();
        let mut i: usize = 0;
        while i < n
            invariant
                i <= n,
                n == self.targets@.len(),
                out@ == on_path_targets(self.targets@.subrange(0, i as int), plen as nat),
                forall|j: int|
                    0 <= j < out@.len() ==> exists|l: int|
                        0 <= l < self.targets@.len() && #[trigger] out@[j] == self.targets@[l],
                self@ == (WorldModel {
                    player: player_after_escapes(
                        old(self)@.player,
                        escaped_count(old(self)@.targets.subrange(0, i as int), plen as nat),
                    ),
                    state: state_after_escapes(
                        old(self)@.state,
                        old(self)@.player,
                        escaped_count(old(self)@.targets.subrange(0, i as int), plen as nat),
                    ),
                    ..old(self)@
                }),
            decreases n - i,
        {
            let u: TargetUnit = self.targets[i];
            proof {
                let pre = self.targets@.subrange(0, i as int);
                let post = self.targets@.subrange(0, i as int + 1);
                assert(post.drop_last() =~= pre);
                assert(post.last() == u);
            }
            if u.target.path_index >= plen {
                if self.player.health > 0 {
                    self.player.health = self.player.health - 1;
                    if self.player.health == 0 {
                        self.state = GameState::GameOver;
                    }
                }
                proof {
                    assert(self@ =~= (WorldModel {
                        player: player_after_escapes(
                            old(self)@.player,
                            escaped_count(
                                old(self)@.targets.subrange(0, i as int + 1),
                                plen as nat,
                            ),
                        ),
                        state: state_after_escapes(
                            old(self)@.state,
                            old(self)@.player,
                            escaped_count(
                                old(self)@.targets.subrange(0, i as int + 1),
                                plen as nat,
                            ),
                        ),
                        ..old(self)@
                    }));
                }
            } else {
                out.push(u);
            }
            i = i + 1;
        }
        proof {
            assert(self.targets@.subrange(0, n as int) =~= self.targets@);
        }
        self.targets = out;
        proof {
            assert(self@ =~= (WorldModel {
                targets: on_path_targets(old(self)@.targets, old(self)@.waypoints.len()),
                player: player_after_escapes(
                    old(self)@.player,
                    escaped_count(old(self)@.targets, old(self)@.waypoints.len()),
                ),
                state: state_after_escapes(
                    old(self)@.state,
                    old(self)@.player,
                    escaped_count(old(self)@.targets, old(self)@.waypoints.len()),
                ),
                ..old(self)@
            }));
        }
    }

    /// Flight phase: every bullet takes one step along its fixed direction.
    #[verifier::loop_isolation(false)]
    pub fn move_bullets(&mut self, dt: u32)
        requires
            old(self).wf(),
        ensures
            final(self).wf(),
            final(self)@ == (WorldModel {
                bullets: moved_bullets(old(self)@.bullets, dt),
                ..old(self)@
            }),
    {
        let n: usize = self.bullets.len();
        let mut out: Vec<BulletUnit> = Vec::new();
        let mut i: usize = 0;
        while i < n
            invariant
                i <= n,
                out@ == moved_bullets(self.bullets@.subrange(0, i as int), dt),
                forall|j: int| 0 <= j < out@.len() ==> bullet_unit_ok(#[trigger] out@[j]),
            decreases n - i,
        {
            let b: BulletUnit = self.bullets[i];
            let m: BulletUnit = move_bullet_unit(&b, dt);
            proof {
                let pre = self.bullets@.subrange(0, i as int);
                let post = self.bullets@.subrange(0, i as int + 1);
                assert(post.drop_last() =~= pre);
                assert(post.last() == b);
            }
            out.push(m);
            i = i + 1;
        }
        proof {
            assert(self.bullets@.subrange(0, n as int) =~= self.bullets@);
        }
        self.bullets = out;
        proof {
            assert(self@ =~= (WorldModel {
                bullets: moved_bullets(old(self)@.bullets, dt),
                ..old(self)@
            }));
        }
    }

    /// Expiry phase: every bullet's lifetime advances; a bullet whose
    /// lifetime completes during this tick is removed.
    #[verifier::loop_isolation(false)]
    pub fn bullet_despawn(&mut self, dt: u32)
        requires
            old(self).wf(),
        ensures
            final(self).wf(),
            final(self)@ == (WorldModel {
                bullets: retained_bullets(old(self)@.bullets, dt),
                ..old(self)@
            }),
    {
        let n: usize = self.bullets.len();
        let mut out: Vec<BulletUnit> = Vec::new();
        let mut i: usize = 0;
        while i < n
            invariant
                i <= n,
                out@ == retained_bullets(self.bullets@.subrange(0, i as int), dt),
                forall|j: int| 0 <= j < out@.len() ==> bullet_unit_ok(#[trigger] out@[j]),
            decreases n - i,
        {
            let b0: BulletUnit = self.bullets[i];
            let mut b: BulletUnit = b0;
            let expired: bool = b.lifetime.timer.tick(dt);
            proof {
                let pre = self.bullets@.subrange(0, i as int);
                let post = self.bullets@.subrange(0, i as int + 1);
                assert(post.drop_last() =~= pre);
                assert(post.last() == b0);
            }
            if !expired {
                assert(b == (BulletUnit {
                    lifetime: Lifetime { timer: b0.lifetime.timer.ticked(dt) },
                    ..b0
                }));
                out.push(b);
            }
            i = i + 1;
        }
        proof {
            assert(self.bullets@.subrange(0, n as int) =~= self.bullets@);
        }
        self.bullets = out;
        proof {
            assert(self@ =~= (WorldModel {
                bullets: retained_bullets(old(self)@.bullets, dt),
                ..old(self)@
            }));
        }
    }

    /// Targeting phase: every tower's cooldown advances; each tower whose
    /// cooldown completes fires one bullet at the nearest living target, or
    /// none when no target exists. Fired bullets join the arena at the end
    /// of the phase.
    #[verifier::loop_isolation(false)]
    pub fn tower_shooting(&mut self, dt: u32)
        requires
            old(self).wf(),
        ensures
            final(self).wf(),
            final(self)@ == (WorldModel {
                towers: towers_ticked(old(self)@.towers, dt),
                bullets: old(self)@.bullets + fired_bullets(
                    old(self)@.towers,
                    old(self)@.targets,
                    dt,
                ),
                ..old(self)@
            }),
    {
        let n: usize = self.towers.len();
        let mut new_towers: Vec<TowerUnit> = Vec::new();
        let mut fresh: Vec<BulletUnit> = Vec::new();
        let mut i: usize = 0;
        while i < n
            invariant
                i <= n,
                new_towers@ == towers_ticked(self.towers@.subrange(0, i as int), dt),
                fresh@ == fired_bullets(self.towers@.subrange(0, i as int), self.targets@, dt),
                forall|j: int| 0 <= j < new_towers@.len() ==> tower_unit_ok(#[trigger] new_towers@[j]),
                forall|j: int| 0 <= j < fresh@.len() ==> bullet_unit_ok(#[trigger] fresh@[j]),
            decreases n - i,
        {
            let tw0: TowerUnit = self.towers[i];
            let mut tw: TowerUnit = tw0;
            let completed: bool = tw.tower.shooting_timer.tick(dt);
            proof {
                let pre = self.towers@.subrange(0, i as int);
                let post = self.towers@.subrange(0, i as int + 1);
                assert(post.drop_last() =~= pre);
                assert(post.last() == tw0);
                assert(tw == (TowerUnit {
                    tower: Tower {
                        shooting_timer: tw0.tower.shooting_timer.ticked(dt),
                        ..tw0.tower
                    },
                    ..tw0
                }));
            }
            new_towers.push(tw);
            if completed && self.targets.len() > 0 {
                let sp: IVec3 = IVec3 {
                    x: tw0.pos.x + tw0.tower.bullet_offset.x,
                    y: tw0.pos.y + tw0.tower.bullet_offset.y,
                    z: tw0.pos.z + tw0.tower.bullet_offset.z,
                };
                assert(sp == spawn_point(tw0));
                let k: usize = nearest_target(&self.targets, sp);
                let t: TargetUnit = self.targets[k];
                let dir: IVec3 = IVec3 { x: t.pos.x - sp.x, y: t.pos.y - sp.y, z: t.pos.z - sp.z };
                let bullet: Bullet = tw0.kind.get_bullet(dir);
                let lt: Lifetime = Lifetime { timer: Timer::new(BULLET_LIFETIME_MS, TimerMode::Once) };
                let unit: BulletUnit = BulletUnit { bullet, lifetime: lt, pos: sp };
                assert(unit == fired_bullet(tw0, self.targets@));
                fresh.push(unit);
            }
            i = i + 1;
        }
        proof {
            assert(self.towers@.subrange(0, n as int) =~= self.towers@);
        }
        self.towers = new_towers;
        let m: usize = fresh.len();
        let mut j: usize = 0;
        while j < m
            invariant
                j <= m,
                m == fresh@.len(),
                forall|l: int| 0 <= l < fresh@.len() ==> bullet_unit_ok(#[trigger] fresh@[l]),
                fresh@ == fired_bullets(old(self)@.towers, old(self)@.targets, dt),
                self@ == (WorldModel {
                    towers: towers_ticked(old(self)@.towers, dt),
                    bullets: old(self)@.bullets + fresh@.subrange(0, j as int),
                    ..old(self)@
                }),
            decreases m - j,
        {
            let b: BulletUnit = fresh[j];
            self.bullets.push(b);
            proof {
                assert((old(self)@.bullets + fresh@.subrange(0, j as int)).push(fresh@[j as int])
                    =~= old(self)@.bullets + fresh@.subrange(0, j as int + 1));
                assert(self@ =~= (WorldModel {
                    towers: towers_ticked(old(self)@.towers, dt),
                    bullets: old(self)@.bullets + fresh@.subrange(0, j as int + 1),
                    ..old(self)@
                }));
            }
            j = j + 1;
        }
        proof {
            assert(fresh@.subrange(0, m as int) =~= fresh@);
            assert(self@ =~= (WorldModel {
                towers: towers_ticked(old(self)@.towers, dt),
                bullets: old(self)@.bullets + fired_bullets(
                    old(self)@.towers,
                    old(self)@.targets,
                    dt,
                ),
                ..old(self)@
            }));
        }
    }

    /// One simulation tick of `dt` milliseconds, exactly [`tick_spec`]:
    /// outside `InGame` it only clears the notification queue; in game it
    /// runs movement, the death check, the escape check, bullet flight and
    /// expiry, and tower fire, in that order. Towers fire last so that a
    /// bullet spawned this tick first moves on the next tick, mirroring
    /// deferred entity creation.
    pub fn tick(&mut self, dt: u32)
        requires
            old(self).wf(),
        ensures
            final(self).wf(),
            final(self)@ == tick_spec(old(self)@, dt),
    {
        self.death_events = Vec::new();
        if self.state != GameState::InGame {
            proof {
                assert(self@ =~= (WorldModel { deaths: 0, ..old(self)@ }));
            }
            return;
        }
        self.move_targets(dt);
        self.target_death();
        self.hurt_player();
        self.move_bullets(dt);
        self.bullet_despawn(dt);
        self.tower_shooting(dt);
        proof {
            assert(self@ =~= tick_spec(old(self)@, dt));
        }
    }
}

} // verus!
