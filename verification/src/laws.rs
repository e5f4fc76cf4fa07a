//! The laws of the simulation core, stated and proved over the same spec
//! functions the systems' contracts use: cooldown periodicity, the no-op
//! command guarantee, and stop-then-restart semantics.

use vstd::prelude::*;

use vstd::arithmetic::div_mod::lemma_fundamental_div_mod;
use vstd::arithmetic::div_mod::lemma_fundamental_div_mod_converse;
use vstd::arithmetic::div_mod::lemma_mod_bound;
use vstd::arithmetic::div_mod::lemma_mod_self_0;
use vstd::arithmetic::div_mod::lemma_small_mod;

use crate::bulletspawner_system::fired_before;
use crate::bulletspawner_system::fires_at;
use crate::bulletspawner_system::lemma_fired_before_le;
use crate::bulletspawner_system::lemma_spawn_applied_wf;
use crate::bulletspawner_system::lemma_spawned_bullet_visible;
use crate::bulletspawner_system::pending_added;
use crate::bulletspawner_system::spawn_applied;
use crate::bulletspawner_system::spawner_fires;
use crate::bulletspawner_system::spawner_joined;
use crate::bulletspawner_system::stepped_spawner;
use crate::bulletspawner_system::stepped_spawners;
use crate::components::Angle;
use crate::components::AngularVelocity;
use crate::components::BulletSpawner;
use crate::components::KeyboardControlled;
use crate::components::Rotation;
use crate::components::Velocity;
use crate::keyboard::apply_movement;
use crate::keyboard::apply_rotation;
use crate::physics::lemma_physics_applied_wf;
use crate::physics::moves_at;
use crate::physics::physics_applied;
use crate::physics::physics_fits;
use crate::tick::inputs_applied;
use crate::tick::lemma_inputs_applied_wf;
use crate::tick::pre_integration;
use crate::tick::tick_view;
use crate::world::flushed;
use crate::world::grown;
use crate::world::lemma_flushed_low;
use crate::world::lemma_flushed_wf;
use crate::world::WorldView;
use crate::FireCommand;
use crate::MovementCommand;
use crate::RotationCommand;

verus! {

/// The spawner state after `k` ticks of the cooldown state machine,
/// stepped once per tick.
pub open spec fn spawner_after(s: BulletSpawner, k: nat) -> BulletSpawner
    decreases k,
{
    if k == 0 {
        s
    } else {
        stepped_spawner(spawner_after(s, (k - 1) as nat))
    }
}

proof fn lemma_cooldown_state(s: BulletSpawner, k: nat)
    requires
        s.spawning,
        s.cooldown_rem == 0,
    ensures
        spawner_after(s, k).spawning,
        spawner_after(s, k).cooldown == s.cooldown,
        spawner_after(s, k).bullet_speed == s.bullet_speed,
        spawner_after(s, k).cooldown_rem as int == ((s.cooldown + 1) - (k as int % (
        s.cooldown + 1))) % (s.cooldown + 1),
    decreases k,
{
    let cycle = s.cooldown as int + 1;
    if k == 0 {
        lemma_mod_self_0(cycle);
        lemma_small_mod(0, cycle as nat);
    } else {
        lemma_cooldown_state(s, (k - 1) as nat);
        let kk = k as int - 1;
        let j = kk % cycle;
        lemma_mod_bound(kk, cycle);
        lemma_fundamental_div_mod(kk, cycle);
        let q = kk / cycle;
        if j + 1 < cycle {
            assert(kk + 1 == q * cycle + (j + 1)) by (nonlinear_arith)
                requires kk == cycle * q + j;
            lemma_fundamental_div_mod_converse(kk + 1, cycle, q, j + 1);
        } else {
            assert(kk + 1 == (q + 1) * cycle + 0) by (nonlinear_arith)
                requires kk == cycle * q + j, j + 1 == cycle;
            lemma_fundamental_div_mod_converse(kk + 1, cycle, q + 1, 0);
        }
        let prev = spawner_after(s, (k - 1) as nat);
        if j == 0 {
            lemma_mod_self_0(cycle);
            assert(prev.cooldown_rem == 0);
            assert(spawner_fires(prev));
            if cycle == 1 {
                lemma_mod_self_0(cycle);
            } else {
                lemma_small_mod((cycle - 1) as nat, cycle as nat);
            }
        } else {
            lemma_small_mod((cycle - j) as nat, cycle as nat);
            assert(prev.cooldown_rem as int == cycle - j);
            assert(!spawner_fires(prev));
            if j + 1 < cycle {
                lemma_small_mod((cycle - j - 1) as nat, cycle as nat);
            } else {
                lemma_mod_self_0(cycle);
            }
        }
    }
}

/// Cooldown determinism: a spawner left continuously active with nothing
/// remaining fires exactly once every `period + 1` ticks — on the ticks
/// that are multiples of `period + 1`, hence every tick when the period
/// is zero.
pub proof fn lemma_cooldown_periodic(s: BulletSpawner, k: nat)
    requires
        s.spawning,
        s.cooldown_rem == 0,
    ensures
        spawner_fires(spawner_after(s, k)) <==> k as int % (s.cooldown + 1) == 0,
{
    lemma_cooldown_state(s, k);
    let cycle = s.cooldown as int + 1;
    let j = k as int % cycle;
    lemma_mod_bound(k as int, cycle);
    if j == 0 {
        lemma_mod_self_0(cycle);
    } else {
        lemma_small_mod((cycle - j) as nat, cycle as nat);
    }
}

/// Stop semantics for movement: `Stop` zeroes only the speed field and
/// keeps the direction; a later `Move(d)` yields exactly the velocities a
/// direct `Move(d)` would, whatever the pre-stop directions were.
pub proof fn lemma_stop_then_move(
    controls: Seq<Option<KeyboardControlled>>,
    velocities: Seq<Option<Velocity>>,
    d: Angle,
)
    requires
        controls.len() == velocities.len(),
    ensures
        apply_movement(
            Some(MovementCommand::Move(d)),
            controls,
            apply_movement(Some(MovementCommand::Stop), controls, velocities),
        ) == apply_movement(Some(MovementCommand::Move(d)), controls, velocities),
        forall|i: int|
            0 <= i < velocities.len() && controls[i] is Some && velocities[i] is Some
                ==> #[trigger] apply_movement(
                Some(MovementCommand::Stop),
                controls,
                velocities,
            )[i] == Some(Velocity { speed: 0, direction: velocities[i].unwrap().direction }),
{
    assert(apply_movement(
        Some(MovementCommand::Move(d)),
        controls,
        apply_movement(Some(MovementCommand::Stop), controls, velocities),
    ) =~= apply_movement(Some(MovementCommand::Move(d)), controls, velocities));
}

/// Stop semantics for rotation, in the same shape.
pub proof fn lemma_stop_then_rotate(
    controls: Seq<Option<KeyboardControlled>>,
    angular_velocities: Seq<Option<AngularVelocity>>,
    r: Rotation,
)
    requires
        controls.len() == angular_velocities.len(),
    ensures
        apply_rotation(
            Some(RotationCommand::Move(r)),
            controls,
            apply_rotation(Some(RotationCommand::Stop), controls, angular_velocities),
        ) == apply_rotation(Some(RotationCommand::Move(r)), controls, angular_velocities),
        forall|i: int|
            0 <= i < angular_velocities.len() && controls[i] is Some
                && angular_velocities[i] is Some ==> #[trigger] apply_rotation(
                Some(RotationCommand::Stop),
                controls,
                angular_velocities,
            )[i] == Some(
                AngularVelocity { speed: 0, rotation: angular_velocities[i].unwrap().rotation },
            ),
{
    assert(apply_rotation(
        Some(RotationCommand::Move(r)),
        controls,
        apply_rotation(Some(RotationCommand::Stop), controls, angular_velocities),
    ) =~= apply_rotation(Some(RotationCommand::Move(r)), controls, angular_velocities));
}

/// `n` ticks with `None` on every command channel.
pub open spec fn ticks_idle(w: WorldView, n: nat) -> WorldView
    decreases n,
{
    if n == 0 {
        w
    } else {
        tick_view(ticks_idle(w, (n - 1) as nat), None, None, None)
    }
}

/// What idle ticks may do to a spawner: its activation flag, period and
/// bullet speed never change; only the remaining cooldown moves, and
/// never above the larger of its starting value and the period.
pub open spec fn spawner_kept(a: Option<BulletSpawner>, b: Option<BulletSpawner>) -> bool {
    match (a, b) {
        (Option::None, Option::None) => true,
        (Option::Some(x), Option::Some(y)) => {
            &&& y.spawning == x.spawning
            &&& y.cooldown == x.cooldown
            &&& y.bullet_speed == x.bullet_speed
            &&& (y.cooldown_rem <= x.cooldown_rem || y.cooldown_rem <= x.cooldown)
        },
        _ => false,
    }
}

/// One idle tick: every table slot below `lo` — a bound no pending
/// request names and no fresh bullet can reach — keeps its velocity and
/// angular velocity, and its spawner moves exactly by the cooldown state
/// machine.
proof fn lemma_idle_tick(w: WorldView, lo: int)
    requires
        w.wf(),
        w.next + w.live() <= usize::MAX,
        0 <= lo <= w.live(),
        forall|k: int|
            0 <= k < w.pending.len() ==> ((#[trigger] w.pending[k]).entity as nat) >= lo as nat,
    ensures
        tick_view(w, None, None, None).wf(),
        tick_view(w, None, None, None).live() >= w.live(),
        forall|i: int|
            0 <= i < lo ==> #[trigger] tick_view(w, None, None, None).velocities[i]
                == w.velocities[i],
        forall|i: int|
            0 <= i < lo ==> #[trigger] tick_view(w, None, None, None).angular_velocities[i]
                == w.angular_velocities[i],
        forall|i: int|
            0 <= i < lo ==> #[trigger] tick_view(w, None, None, None).spawners[i]
                == stepped_spawners(w)[i],
        forall|i: int|
            0 <= i < lo ==> ((#[trigger] tick_view(w, None, None, None).positions[i]) is Some
                <==> w.positions[i] is Some),
        forall|i: int|
            0 <= i < lo ==> ((#[trigger] tick_view(w, None, None, None).angles[i]) is Some
                <==> w.angles[i] is Some),
        forall|k: int|
            0 <= k < tick_view(w, None, None, None).pending.len() ==> ((#[trigger] tick_view(
                w,
                None,
                None,
                None,
            ).pending[k]).entity as nat) >= lo as nat,
{
    assert(inputs_applied(w, None, None, None) == w);
    let sa = spawn_applied(w);
    lemma_spawn_applied_wf(w);
    if physics_fits(sa) {
        let pa = physics_applied(sa);
        lemma_physics_applied_wf(sa);
        lemma_flushed_wf(pa);
        assert forall|k: int|
            0 <= k < pa.pending.len() implies ((#[trigger] pa.pending[k]).entity as nat)
            >= lo as nat by {
            if k < w.pending.len() {
                assert(pa.pending[k] == w.pending[k]);
            } else {
                assert(pa.pending[k] == pending_added(w, w.live() as int)[k
                    - w.pending.len()]);
            }
        }
        assert forall|i: int|
            0 <= i < lo implies #[trigger] tick_view(w, None, None, None).velocities[i]
            == w.velocities[i] by {
            lemma_flushed_low(pa, i);
        }
        assert forall|i: int|
            0 <= i < lo implies #[trigger] tick_view(w, None, None, None).angular_velocities[i]
            == w.angular_velocities[i] by {
            lemma_flushed_low(pa, i);
        }
        assert forall|i: int|
            0 <= i < lo implies #[trigger] tick_view(w, None, None, None).spawners[i]
            == stepped_spawners(w)[i] by {
            lemma_flushed_low(pa, i);
        }
        assert forall|i: int|
            0 <= i < lo implies ((#[trigger] tick_view(w, None, None, None).positions[i])
            is Some <==> w.positions[i] is Some) by {
            lemma_flushed_low(pa, i);
            if crate::physics::moves_at(sa, i) {
                assert(pa.positions[i] is Some);
            } else {
                assert(pa.positions[i] == w.positions[i]);
            }
        }
        assert forall|i: int|
            0 <= i < lo implies ((#[trigger] tick_view(w, None, None, None).angles[i]) is Some
            <==> w.angles[i] is Some) by {
            lemma_flushed_low(pa, i);
            if crate::physics::turns_at(sa, i) {
                assert(pa.angles[i] is Some);
            } else {
                assert(pa.angles[i] == w.angles[i]);
            }
        }
    } else {
    }
}

/// Cooldown determinism lifted to whole ticks: under idle ticks, the
/// spawner of an entity that carries a position, an orientation and a
/// spawner evolves exactly by the cooldown state machine, one step per
/// tick, and the entity stays in the spawner system's join.
pub proof fn lemma_spawner_steps_under_idle_ticks(w: WorldView, i: int, n: nat)
    requires
        w.wf(),
        w.pending.len() == 0,
        forall|k: nat|
            k < n ==> (#[trigger] ticks_idle(w, k)).next + ticks_idle(w, k).live()
                <= usize::MAX,
        spawner_joined(w, i),
    ensures
        ticks_idle(w, n).spawners[i] == Some(spawner_after(w.spawners[i].unwrap(), n)),
        spawner_joined(ticks_idle(w, n), i),
    decreases n,
{
    if n > 0 {
        lemma_spawner_steps_under_idle_ticks(w, i, (n - 1) as nat);
        lemma_noop_commands(w, (n - 1) as nat);
        let wp = ticks_idle(w, (n - 1) as nat);
        lemma_idle_tick(wp, w.live() as int);
        assert(ticks_idle(w, n).spawners[i] == stepped_spawners(wp)[i]);
        assert(stepped_spawners(wp)[i] == Some(stepped_spawner(wp.spawners[i].unwrap())));
    }
}

/// The no-op command guarantee: feeding `None` on every channel for `n`
/// consecutive ticks leaves every pre-existing velocity and angular
/// velocity unchanged and every pre-existing spawner's activation flag,
/// period and bullet speed unchanged; only remaining cooldowns move. The
/// hypothesis bounds identity allocation, as the machine word does.
pub proof fn lemma_noop_commands(w: WorldView, n: nat)
    requires
        w.wf(),
        w.pending.len() == 0,
        forall|k: nat|
            k < n ==> (#[trigger] ticks_idle(w, k)).next + ticks_idle(w, k).live()
                <= usize::MAX,
    ensures
        ticks_idle(w, n).wf(),
        ticks_idle(w, n).live() >= w.live(),
        forall|i: int|
            0 <= i < w.live() ==> #[trigger] ticks_idle(w, n).velocities[i] == w.velocities[i],
        forall|i: int|
            0 <= i < w.live() ==> #[trigger] ticks_idle(w, n).angular_velocities[i]
                == w.angular_velocities[i],
        forall|i: int|
            0 <= i < w.live() ==> spawner_kept(w.spawners[i], #[trigger] ticks_idle(
                w,
                n,
            ).spawners[i]),
        forall|k: int|
            0 <= k < ticks_idle(w, n).pending.len() ==> ((#[trigger] ticks_idle(
                w,
                n,
            ).pending[k]).entity as nat) >= w.live(),
    decreases n,
{
    if n > 0 {
        lemma_noop_commands(w, (n - 1) as nat);
        let wp = ticks_idle(w, (n - 1) as nat);
        assert(wp.next + wp.live() <= usize::MAX);
        lemma_idle_tick(wp, w.live() as int);
        assert forall|i: int|
            0 <= i < w.live() implies spawner_kept(w.spawners[i], #[trigger] ticks_idle(
            w,
            n,
        ).spawners[i]) by {
            assert(ticks_idle(w, n).spawners[i] == stepped_spawners(wp)[i]);
            assert(spawner_kept(wp.spawners[i], stepped_spawners(wp)[i]));
        }
    }
}

/// Deferred visibility: a bullet the spawner system creates during tick N
/// is absent from the integration system's working set during that same
/// tick — its identity lies past every live table — and present in it
/// from the flushed world on, carrying a position and a velocity.
pub proof fn lemma_deferred_visibility(
    w: WorldView,
    movement: Option<MovementCommand>,
    rotation: Option<RotationCommand>,
    fire: Option<FireCommand>,
    e: int,
)
    requires
        w.wf(),
        w.pending.len() == 0,
        w.next + w.live() <= usize::MAX,
        movement matches Some(c) ==> c.wf(),
        fires_at(inputs_applied(w, movement, rotation, fire), e),
        physics_fits(pre_integration(w, movement, rotation, fire)),
    ensures
        ({
            let iw = inputs_applied(w, movement, rotation, fire);
            let b = (iw.next + fired_before(iw, e)) as int;
            &&& b >= w.live()
            &&& !moves_at(pre_integration(w, movement, rotation, fire), b)
            &&& moves_at(tick_view(w, movement, rotation, fire), b)
        }),
{
    let iw = inputs_applied(w, movement, rotation, fire);
    lemma_inputs_applied_wf(w, movement, rotation, fire);
    let sa = spawn_applied(iw);
    lemma_spawn_applied_wf(iw);
    let b = (iw.next + fired_before(iw, e)) as int;
    lemma_fired_before_le(iw, e);
    assert(sa.live() == w.live());
    assert(b >= w.live());
    assert(!moves_at(sa, b));
    let pa = physics_applied(sa);
    lemma_physics_applied_wf(sa);
    lemma_flushed_wf(pa);
    let g = grown(pa);
    assert(g.live() == pa.next);
    assert(pa.pending =~= pending_added(iw, iw.live() as int));
    lemma_spawned_bullet_visible(g, iw, e);
    assert(flushed(pa).positions[b] is Some);
    assert(flushed(pa).velocities[b] is Some);
    assert(moves_at(tick_view(w, movement, rotation, fire), b));
}

} // verus!
