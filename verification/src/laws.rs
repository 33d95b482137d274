//! The engine's global guarantees, stated over the tick model that
//! `Simulation::tick` and `Simulation::tick_with_draws` are specified
//! against: population conservation, monotonic death, absence of
//! self-targeting, kill idempotence, reach correctness, and determinism
//! modulo the random draws.

use vstd::prelude::*;

use crate::geom::{dist2, spec_step_toward};
use crate::sim::{
    action_ok, lemma_apply_all_preserves, lemma_apply_preserves, lemma_decisions_ok,
    retargeted, spec_apply, spec_apply_all, spec_apply_opt, spec_decide, spec_decisions,
    spec_step_len, spec_tick, unit_ok, units_ok, Unit, UnitAction, REACH,
};

verus! {

/// A whole run: the population after a sequence of ticks, the i-th with
/// elapsed time `dts[i]` and per-unit draws `drawss[i]`.
pub open spec fn spec_run(units: Seq<Unit>, dts: Seq<u64>, drawss: Seq<Seq<usize>>) -> Seq<Unit>
    decreases dts.len(),
{
    if dts.len() == 0 {
        units
    } else {
        spec_tick(spec_run(units, dts.drop_last(), drawss.drop_last()), dts.last(), drawss.last())
    }
}

/// One tick of a valid population yields a valid population of the same
/// size; every slot keeps its id, team and speed, and a dead unit stays
/// dead.
pub proof fn lemma_tick_preserves(units: Seq<Unit>, dt_ms: u64, draws: Seq<usize>)
    requires
        units_ok(units),
    ensures
        units_ok(spec_tick(units, dt_ms, draws)),
        spec_tick(units, dt_ms, draws).len() == units.len(),
        forall|k: int|
            0 <= k < units.len() ==> (#[trigger] spec_tick(units, dt_ms, draws)[k]).id
                == units[k].id && spec_tick(units, dt_ms, draws)[k].team_id == units[k].team_id
                && spec_tick(units, dt_ms, draws)[k].speed == units[k].speed && (!units[k].alive
                ==> !spec_tick(units, dt_ms, draws)[k].alive),
{
    lemma_decisions_ok(units, dt_ms, draws);
    lemma_apply_all_preserves(units, spec_decisions(units, dt_ms, draws));
}

/// Population conservation: across any run, the unit count and the id set
/// are unchanged — slot `k` always holds the unit with id `k`, on its
/// original team and at its original speed. Only `alive`, `position` and
/// `target_id` may differ.
pub proof fn lemma_population_conservation(
    units: Seq<Unit>,
    dts: Seq<u64>,
    drawss: Seq<Seq<usize>>,
)
    requires
        units_ok(units),
    ensures
        units_ok(spec_run(units, dts, drawss)),
        spec_run(units, dts, drawss).len() == units.len(),
        forall|k: int|
            0 <= k < units.len() ==> (#[trigger] spec_run(units, dts, drawss)[k]).id
                == units[k].id && spec_run(units, dts, drawss)[k].team_id == units[k].team_id
                && spec_run(units, dts, drawss)[k].speed == units[k].speed,
    decreases dts.len(),
{
    if dts.len() > 0 {
        lemma_population_conservation(units, dts.drop_last(), drawss.drop_last());
        lemma_tick_preserves(spec_run(units, dts.drop_last(), drawss.drop_last()), dts.last(),
            drawss.last());
    }
}

/// Monotonic death: once a unit is dead, it is dead after every later tick,
/// whatever the elapsed times and random draws.
pub proof fn lemma_monotonic_death(
    units: Seq<Unit>,
    dts: Seq<u64>,
    drawss: Seq<Seq<usize>>,
    k: int,
)
    requires
        units_ok(units),
        0 <= k < units.len(),
        !units[k].alive,
    ensures
        !spec_run(units, dts, drawss)[k].alive,
    decreases dts.len(),
{
    if dts.len() > 0 {
        lemma_monotonic_death(units, dts.drop_last(), drawss.drop_last(), k);
        lemma_population_conservation(units, dts.drop_last(), drawss.drop_last());
        lemma_tick_preserves(spec_run(units, dts.drop_last(), drawss.drop_last()), dts.last(),
            drawss.last());
    }
}

/// No self-targeting: after a tick of a valid population, no unit's target
/// is its own id.
pub proof fn lemma_no_self_target(units: Seq<Unit>, dt_ms: u64, draws: Seq<usize>, k: int)
    requires
        units_ok(units),
        0 <= k < units.len(),
    ensures
        spec_tick(units, dt_ms, draws)[k].target_id != Some(spec_tick(units, dt_ms, draws)[k].id),
{
    lemma_tick_preserves(units, dt_ms, draws);
    assert(unit_ok(spec_tick(units, dt_ms, draws)[k], units.len()));
}

/// Kill idempotence: applying a kill action whose target is already dead
/// changes nothing but the killer's target, which is cleared.
pub proof fn lemma_kill_idempotent(units: Seq<Unit>, killer: usize, target: usize)
    requires
        killer < units.len(),
        target < units.len(),
        !units[target as int].alive,
    ensures
        spec_apply(units, UnitAction::Kill(killer, target)) == units.update(
            killer as int,
            retargeted(units[killer as int], None),
        ),
{
    let u1 = units.update(killer as int, retargeted(units[killer as int], None));
    assert(spec_apply(units, UnitAction::Kill(killer, target)) =~= u1);
}

/// Reach correctness: a live unit holding a live target kills it on this
/// tick exactly when the squared distance is within the reach threshold;
/// otherwise it moves toward it and does not kill.
pub proof fn lemma_reach_correctness(
    u: Unit,
    units: Seq<Unit>,
    dt_ms: u64,
    draw: usize,
    t: usize,
)
    requires
        u.alive,
        u.target_id == Some(t),
        t < units.len(),
        units[t as int].alive,
    ensures
        dist2(u.position, units[t as int].position) <= (REACH as int) * (REACH as int)
            ==> spec_decide(u, units, dt_ms, draw) == Some(UnitAction::Kill(u.id, t)),
        dist2(u.position, units[t as int].position) > (REACH as int) * (REACH as int)
            ==> spec_decide(u, units, dt_ms, draw) == Some(
            UnitAction::Displace(
                u.id,
                spec_step_toward(u.position, units[t as int].position, spec_step_len(u.speed, dt_ms)),
            ),
        ),
{
}

/// A kill somewhere in the action list leaves its target dead once all
/// actions are applied: later actions cannot revive it.
proof fn lemma_kill_lands(
    units: Seq<Unit>,
    actions: Seq<Option<UnitAction>>,
    i: int,
    killer: usize,
    t: usize,
)
    requires
        units_ok(units),
        forall|j: int| 0 <= j < actions.len() ==> action_ok(#[trigger] actions[j], units.len()),
        0 <= i < actions.len(),
        actions[i] == Some(UnitAction::Kill(killer, t)),
        t < units.len(),
    ensures
        !spec_apply_all(units, actions)[t as int].alive,
    decreases actions.len(),
{
    let prefix = actions.drop_last();
    assert(forall|j: int| 0 <= j < prefix.len() ==> prefix[j] == actions[j]);
    lemma_apply_all_preserves(units, prefix);
    let before = spec_apply_all(units, prefix);
    if i == actions.len() - 1 {
        assert(spec_apply_all(units, actions) == spec_apply_opt(before, actions.last()));
    } else {
        lemma_kill_lands(units, prefix, i, killer, t);
        lemma_apply_preserves(before, actions.last());
    }
}

/// Reach correctness, applied: a live unit within reach of its live target
/// leaves that target dead once the tick's actions are applied.
pub proof fn lemma_in_reach_target_dies(
    units: Seq<Unit>,
    dt_ms: u64,
    draws: Seq<usize>,
    k: int,
    t: usize,
)
    requires
        units_ok(units),
        0 <= k < units.len(),
        units[k].alive,
        units[k].target_id == Some(t),
        t < units.len(),
        units[t as int].alive,
        dist2(units[k].position, units[t as int].position) <= (REACH as int) * (REACH as int),
    ensures
        !spec_tick(units, dt_ms, draws)[t as int].alive,
{
    lemma_decisions_ok(units, dt_ms, draws);
    let actions = spec_decisions(units, dt_ms, draws);
    assert(actions[k] == Some(UnitAction::Kill(units[k].id, t)));
    lemma_kill_lands(units, actions, k, units[k].id, t);
}

/// Determinism modulo randomness: a run is a pure function of the starting
/// population, the elapsed-time sequence and the random draws — two runs
/// from equal configurations with equal inputs produce equal trajectories.
pub proof fn lemma_run_deterministic(
    a: Seq<Unit>,
    b: Seq<Unit>,
    dts: Seq<u64>,
    drawss: Seq<Seq<usize>>,
)
    requires
        a == b,
    ensures
        spec_run(a, dts, drawss) == spec_run(b, dts, drawss),
{
}

} // verus!
