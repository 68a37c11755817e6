//! The guarantees of the simulation, stated and proved over the model:
//! waypoint indices never decrease, dead and escaped targets are gone after
//! one tick, escapes cost exactly one health each down to a floor of zero,
//! exhausting the player's health ends the game and freezes the world,
//! cooldowns bound the fire rate, and bullets keep their course and expire
//! exactly on time.

use crate::components::GameState;
use crate::components::Lifetime;
use crate::geometry::IVec2;
use crate::timer::Timer;
use crate::timer::TimerMode;
use crate::world::bullet_after_move;
use crate::world::bullet_unit_ok;
use crate::world::dead_count;
use crate::world::escaped_count;
use crate::world::fired_bullets;
use crate::world::living_targets;
use crate::world::moved_bullets;
use crate::world::moved_targets;
use crate::world::on_path_targets;
use crate::world::retained_bullets;
use crate::world::target_after_move;
use crate::world::tick_spec;
use crate::world::towers_ticked;
use crate::world::BulletUnit;
use crate::world::TargetUnit;
use crate::world::TowerUnit;
use crate::world::WorldModel;
use vstd::arithmetic::div_mod::lemma_div_is_ordered;
use vstd::arithmetic::div_mod::lemma_div_multiples_vanish;
use vstd::arithmetic::div_mod::lemma_fundamental_div_mod;
use vstd::arithmetic::div_mod::lemma_small_mod;
use vstd::arithmetic::mul::lemma_mul_inequality;
use vstd::prelude::*;

verus! {

/// Movement changes each target in place: the moved sequence has the same
/// length, and each element is exactly the moved original.
pub proof fn lemma_moved_targets_elementwise(ts: Seq<TargetUnit>, path: Seq<IVec2>, dt: u32)
    ensures
        moved_targets(ts, path, dt).len() == ts.len(),
        forall|i: int|
            0 <= i < ts.len() ==> #[trigger] moved_targets(ts, path, dt)[i] == target_after_move(
                ts[i],
                path,
                dt,
            ),
    decreases ts.len(),
{
    if ts.len() == 0 {
    } else {
        lemma_moved_targets_elementwise(ts.drop_last(), path, dt);
        assert forall|i: int|
            0 <= i < ts.len() implies #[trigger] moved_targets(ts, path, dt)[i]
            == target_after_move(ts[i], path, dt) by {
            if i < ts.len() - 1 {
                assert(ts.drop_last()[i] == ts[i]);
                assert(moved_targets(ts, path, dt)[i] == moved_targets(ts.drop_last(), path, dt)[i]);
            } else {
                assert(ts.last() == ts[i]);
            }
        }
    }
}

/// Movement never touches a target's handle, health or speed, and advances
/// its waypoint index by at most one, never backwards.
pub proof fn lemma_target_after_move_fields(u: TargetUnit, path: Seq<IVec2>, dt: u32)
    requires
        path.len() <= usize::MAX,
    ensures
        target_after_move(u, path, dt).id == u.id,
        target_after_move(u, path, dt).health == u.health,
        target_after_move(u, path, dt).target.speed == u.target.speed,
        u.target.path_index <= target_after_move(u, path, dt).target.path_index <= u.target.path_index
            + 1,
{
}

/// The death check keeps exactly the targets with positive health, each one
/// an unchanged member of the input.
pub proof fn lemma_living_targets_props(ts: Seq<TargetUnit>)
    ensures
        living_targets(ts).len() + dead_count(ts) == ts.len(),
        forall|j: int|
            0 <= j < living_targets(ts).len() ==> (#[trigger] living_targets(ts)[j]).health.value
                > 0,
        forall|j: int|
            0 <= j < living_targets(ts).len() ==> exists|l: int|
                0 <= l < ts.len() && #[trigger] living_targets(ts)[j] == ts[l],
    decreases ts.len(),
{
    if ts.len() == 0 {
    } else {
        lemma_living_targets_props(ts.drop_last());
        let s = living_targets(ts);
        let sp = living_targets(ts.drop_last());
        assert forall|j: int| 0 <= j < s.len() implies exists|l: int|
            0 <= l < ts.len() && #[trigger] s[j] == ts[l] by {
            if j < sp.len() {
                assert(s[j] == sp[j]);
                let l = choose|l: int| 0 <= l < ts.drop_last().len() && sp[j] == ts.drop_last()[l];
                assert(ts.drop_last()[l] == ts[l]);
                assert(0 <= l < ts.len() && s[j] == ts[l]);
            } else {
                assert(s[j] == ts.last());
                assert(s[j] == ts[ts.len() - 1]);
            }
        }
    }
}

/// The escape check keeps exactly the targets still short of the path's
/// end, each one an unchanged member of the input.
pub proof fn lemma_on_path_targets_props(ts: Seq<TargetUnit>, path_len: nat)
    ensures
        on_path_targets(ts, path_len).len() + escaped_count(ts, path_len) == ts.len(),
        forall|j: int|
            0 <= j < on_path_targets(ts, path_len).len() ==> (#[trigger] on_path_targets(
                ts,
                path_len,
            )[j]).target.path_index < path_len,
        forall|j: int|
            0 <= j < on_path_targets(ts, path_len).len() ==> exists|l: int|
                0 <= l < ts.len() && #[trigger] on_path_targets(ts, path_len)[j] == ts[l],
    decreases ts.len(),
{
    if ts.len() == 0 {
    } else {
        lemma_on_path_targets_props(ts.drop_last(), path_len);
        let s = on_path_targets(ts, path_len);
        let sp = on_path_targets(ts.drop_last(), path_len);
        assert forall|j: int| 0 <= j < s.len() implies exists|l: int|
            0 <= l < ts.len() && #[trigger] s[j] == ts[l] by {
            if j < sp.len() {
                assert(s[j] == sp[j]);
                let l = choose|l: int|
                    0 <= l < ts.drop_last().len() && sp[j] == ts.drop_last()[l];
                assert(ts.drop_last()[l] == ts[l]);
                assert(0 <= l < ts.len() && s[j] == ts[l]);
            } else {
                assert(s[j] == ts[ts.len() - 1]);
            }
        }
    }
}

/// Waypoint indices never decrease: every target that survives a tick is a
/// moved original whose waypoint index is at least what it was before the
/// tick. Applied tick after tick (matching survivors by their stable
/// handles), indices are non-decreasing across any sequence of ticks.
pub proof fn lemma_waypoint_index_monotonic(m: WorldModel, dt: u32)
    requires
        m.waypoints.len() <= usize::MAX,
    ensures
        forall|i: int|
            0 <= i < tick_spec(m, dt).targets.len() ==> exists|j: int|
                0 <= j < m.targets.len() && (#[trigger] tick_spec(m, dt).targets[i]).id
                    == m.targets[j].id && m.targets[j].target.path_index <= tick_spec(
                    m,
                    dt,
                ).targets[i].target.path_index,
{
    let post = tick_spec(m, dt).targets;
    if m.state != GameState::InGame {
        assert forall|i: int| 0 <= i < post.len() implies exists|j: int|
            0 <= j < m.targets.len() && (#[trigger] post[i]).id == m.targets[j].id
                && m.targets[j].target.path_index <= post[i].target.path_index by {
            assert(post[i] == m.targets[i]);
            assert(0 <= i < m.targets.len() && post[i].id == m.targets[i].id
                && m.targets[i].target.path_index <= post[i].target.path_index);
        }
    } else {
        let moved = moved_targets(m.targets, m.waypoints, dt);
        let alive = living_targets(moved);
        lemma_moved_targets_elementwise(m.targets, m.waypoints, dt);
        lemma_living_targets_props(moved);
        lemma_on_path_targets_props(alive, m.waypoints.len());
        assert forall|i: int| 0 <= i < post.len() implies exists|j: int|
            0 <= j < m.targets.len() && (#[trigger] post[i]).id == m.targets[j].id
                && m.targets[j].target.path_index <= post[i].target.path_index by {
            let l1 = choose|l: int| 0 <= l < alive.len() && post[i] == alive[l];
            let l2 = choose|l: int| 0 <= l < moved.len() && alive[l1] == moved[l];
            assert(moved[l2] == target_after_move(m.targets[l2], m.waypoints, dt));
            lemma_target_after_move_fields(m.targets[l2], m.waypoints, dt);
            assert(0 <= l2 < m.targets.len() && post[i].id == m.targets[l2].id
                && m.targets[l2].target.path_index <= post[i].target.path_index);
        }
    }
}

/// The world after a whole sequence of ticks.
pub open spec fn ticks_spec(m: WorldModel, dts: Seq<u32>) -> WorldModel
    decreases dts.len(),
{
    if dts.len() == 0 {
        m
    } else {
        ticks_spec(tick_spec(m, dts[0]), dts.subrange(1, dts.len() as int))
    }
}

/// Waypoint indices are non-decreasing across any sequence of ticks:
/// every target surviving the whole sequence descends, handle intact, from
/// a starting target whose waypoint index was no larger.
pub proof fn lemma_waypoint_index_monotonic_over_ticks(m: WorldModel, dts: Seq<u32>)
    requires
        m.waypoints.len() <= usize::MAX,
    ensures
        forall|i: int|
            0 <= i < ticks_spec(m, dts).targets.len() ==> exists|j: int|
                0 <= j < m.targets.len() && (#[trigger] ticks_spec(m, dts).targets[i]).id
                    == m.targets[j].id && m.targets[j].target.path_index <= ticks_spec(
                    m,
                    dts,
                ).targets[i].target.path_index,
    decreases dts.len(),
{
    let fin = ticks_spec(m, dts);
    if dts.len() == 0 {
        assert forall|i: int| 0 <= i < fin.targets.len() implies exists|j: int|
            0 <= j < m.targets.len() && (#[trigger] fin.targets[i]).id == m.targets[j].id
                && m.targets[j].target.path_index <= fin.targets[i].target.path_index by {
            assert(0 <= i < m.targets.len() && fin.targets[i].id == m.targets[i].id
                && m.targets[i].target.path_index <= fin.targets[i].target.path_index);
        }
    } else {
        let m1 = tick_spec(m, dts[0]);
        let rest = dts.subrange(1, dts.len() as int);
        assert(m1.waypoints == m.waypoints);
        lemma_waypoint_index_monotonic(m, dts[0]);
        lemma_waypoint_index_monotonic_over_ticks(m1, rest);
        assert(fin == ticks_spec(m1, rest));
        assert forall|i: int| 0 <= i < fin.targets.len() implies exists|j: int|
            0 <= j < m.targets.len() && (#[trigger] fin.targets[i]).id == m.targets[j].id
                && m.targets[j].target.path_index <= fin.targets[i].target.path_index by {
            assert(0 <= i < ticks_spec(m1, rest).targets.len());
            let j1 = choose|j: int|
                0 <= j < m1.targets.len() && ticks_spec(m1, rest).targets[i].id == m1.targets[j].id
                    && m1.targets[j].target.path_index <= ticks_spec(
                    m1,
                    rest,
                ).targets[i].target.path_index;
            let j0 = choose|j: int|
                0 <= j < m.targets.len() && tick_spec(m, dts[0]).targets[j1].id == m.targets[j].id
                    && m.targets[j].target.path_index <= tick_spec(
                    m,
                    dts[0],
                ).targets[j1].target.path_index;
            assert(0 <= j0 < m.targets.len() && fin.targets[i].id == m.targets[j0].id
                && m.targets[j0].target.path_index <= fin.targets[i].target.path_index);
        }
    }
}

/// After an in-game tick every remaining target has positive health and is
/// still short of the path's end: dead and escaped targets are removed
/// within the tick that observes them.
pub proof fn lemma_tick_reaps(m: WorldModel, dt: u32)
    requires
        m.state == GameState::InGame,
    ensures
        forall|i: int|
            0 <= i < tick_spec(m, dt).targets.len() ==> (#[trigger] tick_spec(
                m,
                dt,
            ).targets[i]).health.value > 0,
        forall|i: int|
            0 <= i < tick_spec(m, dt).targets.len() ==> (#[trigger] tick_spec(
                m,
                dt,
            ).targets[i]).target.path_index < m.waypoints.len(),
{
    let moved = moved_targets(m.targets, m.waypoints, dt);
    let alive = living_targets(moved);
    lemma_living_targets_props(moved);
    lemma_on_path_targets_props(alive, m.waypoints.len());
    let post = tick_spec(m, dt).targets;
    assert forall|i: int| 0 <= i < post.len() implies (#[trigger] post[i]).health.value > 0 by {
        let l = choose|l: int| 0 <= l < alive.len() && post[i] == alive[l];
        assert(alive[l].health.value > 0);
    }
}

/// A dead target is removed within one tick and can never be a member of a
/// later in-game tick's target set, whose members all have positive health.
pub proof fn lemma_dead_target_removed(m: WorldModel, dt: u32, u: TargetUnit)
    requires
        m.state == GameState::InGame,
        u.health.value <= 0,
    ensures
        forall|i: int| 0 <= i < tick_spec(m, dt).targets.len() ==> tick_spec(m, dt).targets[i] != u,
{
    lemma_tick_reaps(m, dt);
}

/// Once dead, gone for good: after an in-game tick, a target with
/// non-positive health is absent from the target set of that tick and of
/// every later tick, however many follow.
pub proof fn lemma_dead_target_stays_removed(m: WorldModel, dts: Seq<u32>, u: TargetUnit)
    requires
        m.state == GameState::InGame,
        u.health.value <= 0,
        dts.len() >= 1,
    ensures
        forall|i: int|
            0 <= i < ticks_spec(m, dts).targets.len() ==> ticks_spec(m, dts).targets[i] != u,
    decreases dts.len(),
{
    let m1 = tick_spec(m, dts[0]);
    let rest = dts.subrange(1, dts.len() as int);
    lemma_tick_reaps(m, dts[0]);
    assert(ticks_spec(m, dts) == ticks_spec(m1, rest));
    lemma_healthy_targets_stay_healthy(m1, rest);
}

/// A world whose targets all have positive health keeps that property
/// through any sequence of ticks: in-game ticks reap anything else, and
/// other states freeze the target set.
pub proof fn lemma_healthy_targets_stay_healthy(m: WorldModel, dts: Seq<u32>)
    requires
        forall|i: int| 0 <= i < m.targets.len() ==> (#[trigger] m.targets[i]).health.value > 0,
    ensures
        forall|i: int|
            0 <= i < ticks_spec(m, dts).targets.len() ==> (#[trigger] ticks_spec(
                m,
                dts,
            ).targets[i]).health.value > 0,
    decreases dts.len(),
{
    if dts.len() == 0 {
    } else {
        let m1 = tick_spec(m, dts[0]);
        if m.state == GameState::InGame {
            lemma_tick_reaps(m, dts[0]);
        } else {
            assert(m1.targets == m.targets);
        }
        lemma_healthy_targets_stay_healthy(m1, dts.subrange(1, dts.len() as int));
    }
}

/// Escape handling debits exactly one health per escaped target, with a
/// floor of zero, and touches nothing else in the player's economy.
pub proof fn lemma_escapes_debit_health(m: WorldModel, dt: u32)
    requires
        m.state == GameState::InGame,
        m.player.health >= 0,
    ensures
        tick_spec(m, dt).player.money == m.player.money,
        ({
            let nesc = escaped_count(
                living_targets(moved_targets(m.targets, m.waypoints, dt)),
                m.waypoints.len(),
            );
            &&& (nesc >= m.player.health ==> tick_spec(m, dt).player.health == 0)
            &&& (nesc < m.player.health ==> tick_spec(m, dt).player.health == m.player.health
                - nesc)
        }),
{
}

/// The moment the last health point is lost to an escape, the same tick
/// ends the game.
pub proof fn lemma_game_over_transition(m: WorldModel, dt: u32)
    requires
        m.state == GameState::InGame,
        m.player.health >= 1,
        escaped_count(
            living_targets(moved_targets(m.targets, m.waypoints, dt)),
            m.waypoints.len(),
        ) >= m.player.health,
    ensures
        tick_spec(m, dt).state == GameState::GameOver,
        tick_spec(m, dt).player.health == 0,
{
}

/// Outside `InGame` a tick runs no simulation logic at all: targets,
/// towers, bullets, the player and the state are all left untouched.
pub proof fn lemma_halted_outside_game(m: WorldModel, dt: u32)
    requires
        m.state != GameState::InGame,
    ensures
        tick_spec(m, dt).targets == m.targets,
        tick_spec(m, dt).towers == m.towers,
        tick_spec(m, dt).bullets == m.bullets,
        tick_spec(m, dt).player == m.player,
        tick_spec(m, dt).state == m.state,
{
}

/// The total elapsed time of a sequence of ticks, in milliseconds.
pub open spec fn total_millis(dts: Seq<u32>) -> int
    decreases dts.len(),
{
    if dts.len() == 0 {
        0
    } else {
        dts[0] + total_millis(dts.subrange(1, dts.len() as int))
    }
}

/// How many times a timer completes over a sequence of ticks.
pub open spec fn fire_count(t: Timer, dts: Seq<u32>) -> nat
    decreases dts.len(),
{
    if dts.len() == 0 {
        0
    } else {
        (if t.fires(dts[0]) {
            1nat
        } else {
            0nat
        }) + fire_count(t.ticked(dts[0]), dts.subrange(1, dts.len() as int))
    }
}

/// A repeating timer with period `T` completes at most once per `T`
/// milliseconds of elapsed time: over any sequence of ticks, the number of
/// completions times the period never exceeds the elapsed time (plus the
/// phase the timer started with). A tower therefore fires at most once per
/// cooldown period.
pub proof fn lemma_fire_rate(t: Timer, dts: Seq<u32>)
    requires
        t.wf(),
        t.mode == TimerMode::Repeating,
    ensures
        fire_count(t, dts) * t.duration_ms <= t.elapsed_ms + total_millis(dts),
    decreases dts.len(),
{
    if dts.len() == 0 {
        assert(fire_count(t, dts) * t.duration_ms == 0) by (nonlinear_arith)
            requires
                fire_count(t, dts) == 0,
        ;
    } else {
        let d = dts[0];
        let rest = dts.subrange(1, dts.len() as int);
        let t2 = t.ticked(d);
        let big_d = t.duration_ms as int;
        let x = t.elapsed_ms + d;
        lemma_fire_rate(t2, rest);
        let c2 = fire_count(t2, rest);
        if t.fires(d) {
            assert(x >= big_d);
            lemma_fundamental_div_mod(x, big_d);
            lemma_div_is_ordered(big_d, x, big_d);
            lemma_div_multiples_vanish(1, big_d);
            assert(x / big_d >= 1);
            lemma_mul_inequality(1, x / big_d, big_d);
            assert(big_d * (x / big_d) >= big_d);
            assert(t2.elapsed_ms == x % big_d);
            assert(x % big_d <= x - big_d);
            assert(fire_count(t, dts) == 1 + c2);
            assert((1 + c2) * big_d == big_d + c2 * big_d) by (nonlinear_arith);
            assert(c2 * big_d <= t2.elapsed_ms + total_millis(rest));
            assert(fire_count(t, dts) * big_d <= t.elapsed_ms + total_millis(dts));
        } else {
            assert(x < big_d);
            lemma_small_mod(x as nat, big_d as nat);
            assert(t2.elapsed_ms == x);
            assert(fire_count(t, dts) == c2);
        }
    }
}

/// A tick advances each tower's cooldown in place: same length, same tower
/// otherwise, its timer advanced by the tick. Together with the fire-rate
/// bound this carries a tower's cooldown guarantee across any sequence of
/// ticks.
pub proof fn lemma_towers_ticked_elementwise(tws: Seq<TowerUnit>, dt: u32)
    ensures
        towers_ticked(tws, dt).len() == tws.len(),
        forall|i: int|
            0 <= i < tws.len() ==> (#[trigger] towers_ticked(tws, dt)[i]).tower.shooting_timer
                == tws[i].tower.shooting_timer.ticked(dt) && towers_ticked(tws, dt)[i].pos
                == tws[i].pos && towers_ticked(tws, dt)[i].kind == tws[i].kind && towers_ticked(
                tws,
                dt,
            )[i].tower.bullet_offset == tws[i].tower.bullet_offset,
    decreases tws.len(),
{
    if tws.len() == 0 {
    } else {
        lemma_towers_ticked_elementwise(tws.drop_last(), dt);
        assert forall|i: int|
            0 <= i < tws.len() implies (#[trigger] towers_ticked(tws, dt)[i]).tower.shooting_timer
            == tws[i].tower.shooting_timer.ticked(dt) && towers_ticked(tws, dt)[i].pos
            == tws[i].pos && towers_ticked(tws, dt)[i].kind == tws[i].kind && towers_ticked(
            tws,
            dt,
        )[i].tower.bullet_offset == tws[i].tower.bullet_offset by {
            if i < tws.len() - 1 {
                assert(tws.drop_last()[i] == tws[i]);
                assert(towers_ticked(tws, dt)[i] == towers_ticked(tws.drop_last(), dt)[i]);
            } else {
                assert(tws.last() == tws[i]);
            }
        }
    }
}

/// A tower fires at most one bullet per tick, and none at all when there is
/// no target during its ready window.
pub proof fn lemma_fired_bullets_bounds(tws: Seq<TowerUnit>, ts: Seq<TargetUnit>, dt: u32)
    ensures
        fired_bullets(tws, ts, dt).len() <= tws.len(),
        ts.len() == 0 ==> fired_bullets(tws, ts, dt).len() == 0,
    decreases tws.len(),
{
    if tws.len() == 0 {
    } else {
        lemma_fired_bullets_bounds(tws.drop_last(), ts, dt);
    }
}

/// Bullet flight changes each bullet in place: same length, each element
/// the moved original; a bullet's direction, speed and lifetime are never
/// changed by flight.
pub proof fn lemma_moved_bullets_elementwise(bs: Seq<BulletUnit>, dt: u32)
    ensures
        moved_bullets(bs, dt).len() == bs.len(),
        forall|i: int|
            0 <= i < bs.len() ==> #[trigger] moved_bullets(bs, dt)[i] == bullet_after_move(
                bs[i],
                dt,
            ),
        forall|i: int|
            0 <= i < bs.len() ==> (#[trigger] moved_bullets(bs, dt)[i]).bullet == bs[i].bullet
                && moved_bullets(bs, dt)[i].lifetime == bs[i].lifetime,
    decreases bs.len(),
{
    if bs.len() == 0 {
    } else {
        lemma_moved_bullets_elementwise(bs.drop_last(), dt);
        assert forall|i: int|
            0 <= i < bs.len() implies #[trigger] moved_bullets(bs, dt)[i] == bullet_after_move(
            bs[i],
            dt,
        ) by {
            if i < bs.len() - 1 {
                assert(bs.drop_last()[i] == bs[i]);
                assert(moved_bullets(bs, dt)[i] == moved_bullets(bs.drop_last(), dt)[i]);
            } else {
                assert(bs.last() == bs[i]);
            }
        }
    }
}

/// A bullet is removed exactly when its lifetime countdown completes: its
/// one-shot timer fires on the tick where the accumulated flight time first
/// reaches the configured lifetime, and not before.
pub proof fn lemma_bullet_expiry_exact(b: BulletUnit, dt: u32)
    requires
        bullet_unit_ok(b),
    ensures
        b.lifetime.timer.fires(dt) <==> b.lifetime.timer.elapsed_ms + dt
            >= b.lifetime.timer.duration_ms,
{
}

/// The expiry phase keeps exactly the bullets whose lifetime has time left:
/// every survivor is an unexpired input bullet with its lifetime advanced,
/// and every unexpired input bullet survives.
#[verifier::rlimit(60)]
pub proof fn lemma_retained_bullets_props(bs: Seq<BulletUnit>, dt: u32)
    ensures
        retained_bullets(bs, dt).len() <= bs.len(),
        forall|j: int|
            0 <= j < retained_bullets(bs, dt).len() ==> exists|l: int|
                0 <= l < bs.len() && !bs[l].lifetime.timer.fires(dt) && #[trigger] retained_bullets(
                    bs,
                    dt,
                )[j] == (BulletUnit {
                    lifetime: Lifetime { timer: bs[l].lifetime.timer.ticked(dt) },
                    ..bs[l]
                }),
        forall|l: int|
            0 <= l < bs.len() && !(#[trigger] bs[l]).lifetime.timer.fires(dt) ==> exists|j: int|
                0 <= j < retained_bullets(bs, dt).len() && retained_bullets(bs, dt)[j]
                    == (BulletUnit {
                    lifetime: Lifetime { timer: bs[l].lifetime.timer.ticked(dt) },
                    ..bs[l]
                }),
    decreases bs.len(),
{
    if bs.len() == 0 {
    } else {
        lemma_retained_bullets_props(bs.drop_last(), dt);
        let s = retained_bullets(bs, dt);
        let sp = retained_bullets(bs.drop_last(), dt);
        assert forall|j: int| 0 <= j < s.len() implies exists|l: int|
            0 <= l < bs.len() && !bs[l].lifetime.timer.fires(dt) && #[trigger] s[j] == (BulletUnit {
                lifetime: Lifetime { timer: bs[l].lifetime.timer.ticked(dt) },
                ..bs[l]
            }) by {
            if j < sp.len() {
                assert(s[j] == sp[j]);
                let l = choose|l: int|
                    0 <= l < bs.drop_last().len() && !bs.drop_last()[l].lifetime.timer.fires(dt)
                        && sp[j] == (BulletUnit {
                        lifetime: Lifetime { timer: bs.drop_last()[l].lifetime.timer.ticked(dt) },
                        ..bs.drop_last()[l]
                    });
                assert(bs.drop_last()[l] == bs[l]);
                assert(0 <= l < bs.len() && !bs[l].lifetime.timer.fires(dt) && s[j] == (BulletUnit {
                    lifetime: Lifetime { timer: bs[l].lifetime.timer.ticked(dt) },
                    ..bs[l]
                }));
            } else {
                let l = bs.len() - 1;
                assert(!bs[l].lifetime.timer.fires(dt) && s[j] == (BulletUnit {
                    lifetime: Lifetime { timer: bs[l].lifetime.timer.ticked(dt) },
                    ..bs[l]
                }));
            }
        }
        assert forall|l: int|
            0 <= l < bs.len() && !(#[trigger] bs[l]).lifetime.timer.fires(dt) implies exists|j: int|
            0 <= j < s.len() && s[j] == (BulletUnit {
                lifetime: Lifetime { timer: bs[l].lifetime.timer.ticked(dt) },
                ..bs[l]
            }) by {
            if l < bs.len() - 1 {
                assert(bs.drop_last()[l] == bs[l]);
                let j = choose|j: int|
                    0 <= j < sp.len() && sp[j] == (BulletUnit {
                        lifetime: Lifetime {
                            timer: bs.drop_last()[l].lifetime.timer.ticked(dt),
                        },
                        ..bs.drop_last()[l]
                    });
                assert(s[j] == sp[j]);
                assert(0 <= j < s.len() && s[j] == (BulletUnit {
                    lifetime: Lifetime { timer: bs[l].lifetime.timer.ticked(dt) },
                    ..bs[l]
                }));
            } else {
                assert(bs[l] == bs.last());
                let j = s.len() - 1;
                assert(0 <= j < s.len() && s[j] == (BulletUnit {
                    lifetime: Lifetime { timer: bs[l].lifetime.timer.ticked(dt) },
                    ..bs[l]
                }));
            }
        }
    }
}

} // verus!
