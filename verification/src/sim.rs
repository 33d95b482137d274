//! The combat engine: teams, units, and the two-phase tick.
//!
//! A tick first computes, in parallel against a frozen snapshot, one intended
//! action per live unit (`Unit::tick`), then applies the collected actions
//! sequentially in unit-id order. Randomness — target selection, spawn
//! placement, per-unit speed — is drawn through a single trusted wrapper
//! around the `rand` crate and threaded into the decision logic as explicit
//! arguments, so the decision and apply steps themselves are deterministic
//! and carry exact contracts.

use vstd::prelude::*;

use crate::geom::{
    clamp_add, clamp_coord, dist2, dist2_u, in_arena, isqrt, lemma_square_bound,
    spec_step_toward, step_toward, V2, POS_LIMIT,
};

use rand::Rng;
use rayon::iter::{IndexedParallelIterator, IntoParallelRefIterator, ParallelIterator};

verus! {

/// A unit may kill its target when the squared distance is at most
/// `REACH * REACH`.
pub const REACH: u64 = 10;

/// Base movement speed, in grid units per second.
pub const SPEED: u64 = 20;

/// Least per-unit speed: the base speed minus half of it.
pub const SPEED_MIN: u64 = 10;

/// Greatest per-unit speed: the base speed plus half of it.
pub const SPEED_MAX: u64 = 30;

/// A display color, carried along for the rendering layer.
#[derive(Clone, Copy, PartialEq, Eq, Structural, Debug)]
pub struct Rgb {
    pub r: u8,
    pub g: u8,
    pub b: u8,
}

/// Immutable per-run team descriptor. A team is identified by its index in
/// the simulation's team sequence.
#[derive(Clone, Debug)]
pub struct Team {
    pub initial_unit_count: usize,
    pub initial_position: V2,
    pub initial_radius: u64,
    pub color: Rgb,
}

impl Team {
    pub fn new(color: Rgb, initial_position: V2, initial_radius: u64, initial_unit_count: usize)
        -> (t: Team)
        ensures
            t == (Team { initial_unit_count, initial_position, initial_radius, color }),
    {
        Team { color, initial_position, initial_radius, initial_unit_count }
    }
}

/// An intended effect, produced by the decide phase and applied afterwards.
#[derive(Clone, Copy, Debug)]
pub enum UnitAction {
    /// Move the named unit by the given displacement.
    Displace(usize, V2),
    /// Overwrite the named unit's target (possibly with "no target").
    SetTarget(usize, Option<usize>),
    /// `Kill(killer, target)`: clear the killer's target and mark the target
    /// dead.
    Kill(usize, usize),
}

/// One simulated combatant. `id` equals its index in the unit sequence and
/// never changes; a dead unit keeps its slot so ids stay valid forever.
#[derive(Clone, Copy, Debug)]
pub struct Unit {
    pub id: usize,
    pub team_id: usize,
    pub position: V2,
    pub target_id: Option<usize>,
    pub alive: bool,
    pub speed: u64,
}

/// Basic validity of one unit within a population of `n` units.
pub open spec fn unit_ok(u: Unit, n: nat) -> bool {
    &&& u.id < n
    &&& in_arena(u.position)
    &&& SPEED_MIN <= u.speed <= SPEED_MAX
    &&& match u.target_id {
        Some(t) => t < n && t != u.id,
        None => true,
    }
}

/// Validity of a whole population: every unit is valid and sits at the index
/// its id names.
pub open spec fn units_ok(s: Seq<Unit>) -> bool {
    forall|i: int|
        0 <= i < s.len() ==> unit_ok(#[trigger] s[i], s.len()) && s[i].id == i
}

/// An enemy that may be chosen as a target: alive and on another team.
pub open spec fn eligible(o: Unit, team: usize) -> bool {
    o.team_id != team && o.alive
}

/// The ids of all eligible enemies of `team`, in population order.
pub open spec fn candidate_ids(units: Seq<Unit>, team: usize) -> Seq<usize>
    decreases units.len(),
{
    if units.len() == 0 {
        Seq::empty()
    } else {
        let prefix = candidate_ids(units.drop_last(), team);
        if eligible(units.last(), team) {
            prefix.push(units.last().id)
        } else {
            prefix
        }
    }
}

/// The retargeting decision: pick one eligible enemy by the random draw, or
/// "no target" when no enemy is alive.
pub open spec fn spec_retarget(u: Unit, units: Seq<Unit>, draw: usize) -> UnitAction {
    let c = candidate_ids(units, u.team_id);
    if c.len() == 0 {
        UnitAction::SetTarget(u.id, None)
    } else {
        UnitAction::SetTarget(u.id, Some(c[draw as int % c.len() as int]))
    }
}

/// The length of one movement step: speed (units per second) times the
/// elapsed milliseconds, in whole grid units.
pub open spec fn spec_step_len(speed: u64, dt_ms: u64) -> int {
    ((speed as int) * (dt_ms as int)) / 1000
}

/// The decision policy: what a unit intends, given a read-only population
/// snapshot, the elapsed time, and one random draw.
///
/// A dead unit does nothing. A live unit with a live target kills it when it
/// is within reach and walks toward it otherwise; a unit whose target is
/// gone — absent or dead in the snapshot — selects a new one.
pub open spec fn spec_decide(u: Unit, units: Seq<Unit>, dt_ms: u64, draw: usize) -> Option<
    UnitAction,
> {
    if !u.alive {
        None
    } else {
        match u.target_id {
            Some(t) => {
                if units[t as int].alive {
                    if dist2(u.position, units[t as int].position) <= (REACH as int) * (
                    REACH as int) {
                        Some(UnitAction::Kill(u.id, t))
                    } else {
                        Some(
                            UnitAction::Displace(
                                u.id,
                                spec_step_toward(
                                    u.position,
                                    units[t as int].position,
                                    spec_step_len(u.speed, dt_ms),
                                ),
                            ),
                        )
                    }
                } else {
                    Some(spec_retarget(u, units, draw))
                }
            },
            None => Some(spec_retarget(u, units, draw)),
        }
    }
}

/// Relies on `rand`: `thread_rng().gen_range(0..n)` returns a value drawn
/// uniformly from `[0, n)`; it panics only on an empty range, which the
/// precondition rules out.
#[verifier::external_body]
fn rand_below(n: usize) -> (r: usize)
    requires
        n > 0,
    ensures
        r < n,
{
    rand::thread_rng().gen_range(0..n)
}

/// Draws a per-unit speed uniformly from the band of half the base speed
/// around the base speed.
fn rand_speed() -> (s: u64)
    ensures
        SPEED_MIN <= s <= SPEED_MAX,
{
    let off = rand_below((SPEED_MAX - SPEED_MIN + 1) as usize);
    SPEED_MIN + off as u64
}

impl Unit {
    pub fn new(team_id: usize, id: usize, position: V2) -> (u: Unit)
        ensures
            u.id == id,
            u.team_id == team_id,
            u.position == position,
            u.target_id == None::<usize>,
            u.alive,
            SPEED_MIN <= u.speed <= SPEED_MAX,
    {
        Unit { id, alive: true, position, target_id: None, team_id, speed: rand_speed() }
    }

    /// Builds a unit with an explicitly chosen speed, for callers that
    /// provide their own draw.
    pub fn with_speed(team_id: usize, id: usize, position: V2, speed: u64) -> (u: Unit)
        ensures
            u == (Unit { id, team_id, position, target_id: None, alive: true, speed }),
    {
        Unit { id, alive: true, position, target_id: None, team_id, speed }
    }

    pub fn displace(&mut self, movement: V2)
        ensures
            *final(self) == moved(*old(self), movement),
    {
        let x = clamp_add(self.position.x, movement.x);
        let y = clamp_add(self.position.y, movement.y);
        self.position = V2 { x, y };
    }

    pub fn set_target(&mut self, target: Option<usize>)
        ensures
            *final(self) == retargeted(*old(self), target),
    {
        self.target_id = target;
    }

    pub fn kill(&mut self)
        ensures
            *final(self) == killed(*old(self)),
    {
        self.alive = false;
    }

    /// The decide phase for one unit: a pure function of the snapshot, the
    /// elapsed time, and the random draw. It mutates nothing.
    pub fn tick(&self, units: &Vec<Unit>, dt_ms: u64, draw: usize) -> (r: Option<UnitAction>)
        requires
            unit_ok(*self, units@.len()),
            forall|i: int| 0 <= i < units@.len() ==> in_arena((#[trigger] units@[i]).position),
        ensures
            r == spec_decide(*self, units@, dt_ms, draw),
    {
        if !self.alive {
            return None;
        }
        if let Some(t) = self.target_id {
            let other = &units[t];
            if other.alive {
                let d2 = dist2_u(self.position, other.position);
                if d2 <= REACH * REACH {
                    return Some(UnitAction::Kill(self.id, t));
                } else {
                    let step = step_len(self.speed, dt_ms);
                    let disp = step_toward(self.position, other.position, step);
                    return Some(UnitAction::Displace(self.id, disp));
                }
            }
        }
        Some(self.select_target(units, draw))
    }

    /// Collects all eligible enemy ids and picks one by the draw.
    fn select_target(&self, units: &Vec<Unit>, draw: usize) -> (r: UnitAction)
        ensures
            r == spec_retarget(*self, units@, draw),
    {
        let team = self.team_id;
        let mut cands: Vec<usize> = Vec::new();
        let mut i: usize = 0;
        while i < units.len()
            invariant
                i <= units@.len(),
                cands@ == candidate_ids(units@.take(i as int), team),
            decreases units@.len() - i,
        {
            let u = &units[i];
            if u.team_id != team && u.alive {
                cands.push(u.id);
            }
            proof {
                assert(units@.take((i + 1) as int).drop_last() =~= units@.take(i as int));
                assert(units@.take((i + 1) as int).last() == units@[i as int]);
            }
            i = i + 1;
        }
        proof {
            assert(units@.take(units@.len() as int) =~= units@);
        }
        if cands.len() == 0 {
            UnitAction::SetTarget(self.id, None)
        } else {
            let idx = draw % cands.len();
            UnitAction::SetTarget(self.id, Some(cands[idx]))
        }
    }

    pub fn position(&self) -> (r: &V2)
        ensures
            *r == self.position,
    {
        &self.position
    }

    pub fn color<'a>(&self, teams: &'a Vec<Team>) -> (c: &'a Rgb)
        requires
            self.team_id < teams@.len(),
        ensures
            *c == teams@[self.team_id as int].color,
    {
        &teams[self.team_id].color
    }

    pub fn is_alive(&self) -> (r: bool)
        ensures
            r == self.alive,
    {
        self.alive
    }
}

/// Computes the step length `speed * dt_ms / 1000` without overflow.
fn step_len(speed: u64, dt_ms: u64) -> (r: u64)
    requires
        speed <= SPEED_MAX,
    ensures
        r as int == spec_step_len(speed, dt_ms),
        r <= 0x7fff_ffff_ffff_ffff,
{
    proof {
        assert(0 <= (speed as int) * (dt_ms as int) <= 30 * 0xffff_ffff_ffff_ffffi128)
            by (nonlinear_arith)
            requires
                0 <= speed <= 30,
                0 <= dt_ms <= 0xffff_ffff_ffff_ffffi128,
        ;
        vstd::arithmetic::div_mod::lemma_div_is_ordered(
            (speed as int) * (dt_ms as int),
            30 * 0xffff_ffff_ffff_ffffi128 as int,
            1000,
        );
        vstd::arithmetic::div_mod::lemma_div_pos_is_pos((speed as int) * (dt_ms as int), 1000);
    }
    let prod: u128 = (speed as u128) * (dt_ms as u128);
    (prod / 1000) as u64
}

/// Relies on `rayon`: `par_iter().enumerate().map(..).collect::<Vec<_>>()`
/// applies the closure to every element independently and collects the
/// results in index order. The closure only calls the verified `Unit::tick`
/// with the snapshot, so each collected slot holds that unit's decision.
#[verifier::external_body]
fn par_decide(units: &Vec<Unit>, dt_ms: u64, draws: &Vec<usize>) -> (r: Vec<Option<UnitAction>>)
    requires
        draws@.len() == units@.len(),
        units_ok(units@),
    ensures
        r@.len() == units@.len(),
        forall|i: int|
            0 <= i < units@.len() ==> r@[i] == spec_decide(units@[i], units@, dt_ms, draws@[i]),
{
    units.par_iter().enumerate().map(|(i, u)| u.tick(units, dt_ms, draws[i])).collect()
}

/// A unit after a displacement: the position moves, clamped to the arena;
/// everything else is unchanged.
pub open spec fn moved(u: Unit, d: V2) -> Unit {
    Unit {
        position: V2 {
            x: clamp_coord(u.position.x + d.x) as i64,
            y: clamp_coord(u.position.y + d.y) as i64,
        },
        ..u
    }
}

/// A unit after its target was overwritten.
pub open spec fn retargeted(u: Unit, t: Option<usize>) -> Unit {
    Unit { target_id: t, ..u }
}

/// A unit after being killed.
pub open spec fn killed(u: Unit) -> Unit {
    Unit { alive: false, ..u }
}

/// The effect of one action on the population. Actions naming an id outside
/// the population leave it unchanged (the engine never produces them).
pub open spec fn spec_apply(units: Seq<Unit>, a: UnitAction) -> Seq<Unit> {
    match a {
        UnitAction::Displace(id, d) => if id < units.len() {
            units.update(id as int, moved(units[id as int], d))
        } else {
            units
        },
        UnitAction::SetTarget(id, t) => if id < units.len() {
            units.update(id as int, retargeted(units[id as int], t))
        } else {
            units
        },
        UnitAction::Kill(id, t) => {
            let u1 = if id < units.len() {
                units.update(id as int, retargeted(units[id as int], None))
            } else {
                units
            };
            if t < u1.len() {
                u1.update(t as int, killed(u1[t as int]))
            } else {
                u1
            }
        },
    }
}

/// The effect of one optional action: `None` (a dead unit's slot) changes
/// nothing.
pub open spec fn spec_apply_opt(units: Seq<Unit>, a: Option<UnitAction>) -> Seq<Unit> {
    match a {
        Some(act) => spec_apply(units, act),
        None => units,
    }
}

/// The apply phase: all collected actions, in unit-id order.
pub open spec fn spec_apply_all(units: Seq<Unit>, actions: Seq<Option<UnitAction>>) -> Seq<Unit>
    decreases actions.len(),
{
    if actions.len() == 0 {
        units
    } else {
        spec_apply_opt(spec_apply_all(units, actions.drop_last()), actions.last())
    }
}

/// The decide phase: one decision per unit, all against the same snapshot.
pub open spec fn spec_decisions(units: Seq<Unit>, dt_ms: u64, draws: Seq<usize>) -> Seq<
    Option<UnitAction>,
> {
    Seq::new(units.len(), |i: int| spec_decide(units[i], units, dt_ms, draws[i]))
}

/// One whole tick: decide against the snapshot, then apply in order.
pub open spec fn spec_tick(units: Seq<Unit>, dt_ms: u64, draws: Seq<usize>) -> Seq<Unit> {
    spec_apply_all(units, spec_decisions(units, dt_ms, draws))
}

/// An action only names ids inside the population, and never a self-target.
pub open spec fn action_ok(a: Option<UnitAction>, n: nat) -> bool {
    match a {
        None => true,
        Some(UnitAction::Displace(id, _)) => id < n,
        Some(UnitAction::SetTarget(id, t)) => id < n && match t {
            Some(x) => x < n && x != id,
            None => true,
        },
        Some(UnitAction::Kill(id, t)) => id < n && t < n && t != id,
    }
}

/// Every candidate id names an in-range, alive unit of another team.
proof fn lemma_candidates_valid(units: Seq<Unit>, team: usize)
    requires
        forall|i: int| 0 <= i < units.len() ==> (#[trigger] units[i]).id == i,
    ensures
        forall|j: int|
            0 <= j < candidate_ids(units, team).len() ==> #[trigger] candidate_ids(units, team)[j]
                < units.len() && units[candidate_ids(units, team)[j] as int].team_id != team
                && units[candidate_ids(units, team)[j] as int].alive,
    decreases units.len(),
{
    if units.len() > 0 {
        let prefix = units.drop_last();
        lemma_candidates_valid(prefix, team);
        assert(forall|i: int| 0 <= i < prefix.len() ==> prefix[i] == units[i]);
        if eligible(units.last(), team) {
            assert(candidate_ids(units, team) == candidate_ids(prefix, team).push(
                units.last().id,
            ));
        }
    }
}

/// A retargeting action is well-formed: the chosen id, if any, is in range
/// and is never the unit itself.
proof fn lemma_retarget_ok(units: Seq<Unit>, draw: usize, i: int)
    requires
        units_ok(units),
        0 <= i < units.len(),
    ensures
        action_ok(Some(spec_retarget(units[i], units, draw)), units.len()),
{
    let u = units[i];
    lemma_candidates_valid(units, u.team_id);
    let c = candidate_ids(units, u.team_id);
    if c.len() > 0 {
        let j = draw as int % c.len() as int;
        assert(0 <= j < c.len());
        let x = c[j];
        assert(x < units.len() && units[x as int].team_id != u.team_id && units[x as int].alive);
        assert(x != u.id);
    }
}

/// Every decision the policy produces is a well-formed action.
proof fn lemma_decide_ok(units: Seq<Unit>, dt_ms: u64, draw: usize, i: int)
    requires
        units_ok(units),
        0 <= i < units.len(),
    ensures
        action_ok(spec_decide(units[i], units, dt_ms, draw), units.len()),
{
    let u = units[i];
    if u.alive {
        match u.target_id {
            Some(t) => {
                if !units[t as int].alive {
                    lemma_retarget_ok(units, draw, i);
                }
            },
            None => {
                lemma_retarget_ok(units, draw, i);
            },
        }
    }
}

/// Applying one well-formed action keeps the population valid and preserves
/// length, ids, team assignments and speeds; it never revives a dead unit.
pub proof fn lemma_apply_preserves(units: Seq<Unit>, a: Option<UnitAction>)
    requires
        units_ok(units),
        action_ok(a, units.len()),
    ensures
        spec_apply_opt(units, a).len() == units.len(),
        units_ok(spec_apply_opt(units, a)),
        forall|k: int|
            0 <= k < units.len() ==> (#[trigger] spec_apply_opt(units, a)[k]).id == units[k].id
                && spec_apply_opt(units, a)[k].team_id == units[k].team_id && spec_apply_opt(
                units,
                a,
            )[k].speed == units[k].speed && (!units[k].alive ==> !spec_apply_opt(
                units,
                a,
            )[k].alive),
{
}

/// Applying any sequence of well-formed actions keeps the population valid
/// and conserves its size, ids, team assignments and speeds; death is
/// monotone.
pub proof fn lemma_apply_all_preserves(units: Seq<Unit>, actions: Seq<Option<UnitAction>>)
    requires
        units_ok(units),
        forall|i: int| 0 <= i < actions.len() ==> action_ok(#[trigger] actions[i], units.len()),
    ensures
        spec_apply_all(units, actions).len() == units.len(),
        units_ok(spec_apply_all(units, actions)),
        forall|k: int|
            0 <= k < units.len() ==> (#[trigger] spec_apply_all(units, actions)[k]).id
                == units[k].id && spec_apply_all(units, actions)[k].team_id == units[k].team_id
                && spec_apply_all(units, actions)[k].speed == units[k].speed && (!units[k].alive
                ==> !spec_apply_all(units, actions)[k].alive),
    decreases actions.len(),
{
    if actions.len() > 0 {
        let prefix = actions.drop_last();
        assert(forall|i: int| 0 <= i < prefix.len() ==> prefix[i] == actions[i]);
        lemma_apply_all_preserves(units, prefix);
        lemma_apply_preserves(spec_apply_all(units, prefix), actions.last());
    }
}

/// Every slot of the decide phase holds a well-formed action.
pub proof fn lemma_decisions_ok(units: Seq<Unit>, dt_ms: u64, draws: Seq<usize>)
    requires
        units_ok(units),
    ensures
        spec_decisions(units, dt_ms, draws).len() == units.len(),
        forall|i: int|
            0 <= i < units.len() ==> action_ok(
                #[trigger] spec_decisions(units, dt_ms, draws)[i],
                units.len(),
            ),
{
    assert forall|i: int| 0 <= i < units.len() implies action_ok(
        #[trigger] spec_decisions(units, dt_ms, draws)[i],
        units.len(),
    ) by {
        lemma_decide_ok(units, dt_ms, draws[i], i);
    }
}

/// The total unit count of a team roster.
pub open spec fn total_count(teams: Seq<Team>) -> nat
    decreases teams.len(),
{
    if teams.len() == 0 {
        0
    } else {
        total_count(teams.drop_last()) + teams.last().initial_unit_count as nat
    }
}

/// Which team the unit at population index `i` belongs to: units are created
/// in one contiguous block per team, in roster order.
pub open spec fn team_of(teams: Seq<Team>, i: int) -> int
    decreases teams.len(),
{
    if teams.len() == 0 {
        0
    } else if i < total_count(teams.drop_last()) {
        team_of(teams.drop_last(), i)
    } else {
        teams.len() - 1
    }
}

/// The spawn radius actually used: the requested one, capped at the arena
/// half-width so that offsets stay representable.
pub open spec fn eff_radius(t: Team) -> int {
    if t.initial_radius > POS_LIMIT as u64 {
        POS_LIMIT as int
    } else {
        t.initial_radius as int
    }
}

/// The offset `(ox, oy)` lies within a disc of radius `r`.
pub open spec fn offset_within(ox: int, oy: int, r: int) -> bool {
    ox * ox + oy * oy <= r * r
}

/// A freshly spawned unit: alive, untargeted, with a speed from the random
/// band, placed within its team's spawn disc (clamped to the arena).
pub open spec fn spec_placed(u: Unit, teams: Seq<Team>, i: int) -> bool {
    &&& u.id == i
    &&& u.alive
    &&& u.target_id == None::<usize>
    &&& SPEED_MIN <= u.speed <= SPEED_MAX
    &&& u.team_id < teams.len()
    &&& exists|ox: int, oy: int|
        #[trigger] offset_within(ox, oy, eff_radius(teams[u.team_id as int])) && u.position.x
            as int == clamp_coord(teams[u.team_id as int].initial_position.x + ox)
            && u.position.y as int == clamp_coord(teams[u.team_id as int].initial_position.y + oy)
}

/// A freshly spawned unit in the team block its index falls in.
pub open spec fn spec_scattered(u: Unit, teams: Seq<Team>, i: int) -> bool {
    &&& spec_placed(u, teams, i)
    &&& u.team_id as int == team_of(teams, i)
}

/// What construction guarantees: the roster is kept as given, one unit per
/// requested slot, scattered team block by team block.
pub open spec fn spec_population(s: Simulation, teams: Seq<Team>) -> bool {
    &&& s.teams@ == teams
    &&& s.units@.len() == total_count(teams)
    &&& forall|i: int| 0 <= i < s.units@.len() ==> spec_scattered(#[trigger] s.units@[i], teams, i)
}

/// Extending a roster prefix by one team leaves earlier blocks as they were
/// and assigns the new indices to the new team.
proof fn lemma_team_of_extend(teams: Seq<Team>, k: int)
    requires
        0 <= k < teams.len(),
    ensures
        forall|i: int|
            0 <= i < total_count(teams.take(k)) ==> team_of(teams.take(k + 1), i) == #[trigger]
            team_of(teams.take(k), i),
        forall|i: int| i >= total_count(teams.take(k)) ==> #[trigger] team_of(teams.take(k + 1), i) == k,
        total_count(teams.take(k + 1)) == total_count(teams.take(k))
            + teams[k].initial_unit_count,
{
    assert(teams.take(k + 1).drop_last() =~= teams.take(k));
    assert(teams.take(k + 1).last() == teams[k]);
}

/// Draws a position uniformly-at-random-by-axis within the disc of the given
/// radius around `center`, clamped to the arena.
fn random_nearby_pos(center: V2, radius: u64) -> (r: V2)
    requires
        radius <= POS_LIMIT as u64,
    ensures
        in_arena(r),
        exists|ox: int, oy: int|
            #[trigger] offset_within(ox, oy, radius as int) && r.x as int == clamp_coord(
                center.x + ox,
            ) && r.y as int == clamp_coord(center.y + oy),
{
    proof {
        lemma_square_bound(radius as int, POS_LIMIT as int);
    }
    let side: usize = (2 * radius + 1) as usize;
    let roll_x = rand_below(side);
    let dx: i64 = roll_x as i64 - radius as i64;
    let adx: u64 = if dx >= 0 {
        dx as u64
    } else {
        (-dx) as u64
    };
    proof {
        assert((adx as int) * (adx as int) <= (radius as int) * (radius as int))
            by (nonlinear_arith)
            requires
                0 <= adx <= radius,
        ;
    }
    let rem: u64 = radius * radius - adx * adx;
    let s: u64 = isqrt(rem);
    proof {
        assert(s as int <= radius as int) by (nonlinear_arith)
            requires
                (s as int) * (s as int) <= rem as int,
                rem as int <= (radius as int) * (radius as int),
                0 <= s,
                0 <= radius,
        ;
    }
    let side_y: usize = (2 * s + 1) as usize;
    let roll_y = rand_below(side_y);
    let dy: i64 = roll_y as i64 - s as i64;
    let x = clamp_add(center.x, dx);
    let y = clamp_add(center.y, dy);
    proof {
        assert((dx as int) * (dx as int) + (dy as int) * (dy as int) <= (radius as int) * (
        radius as int)) by (nonlinear_arith)
            requires
                dx as int == adx as int || dx as int == -(adx as int),
                -(s as int) <= dy as int <= s as int,
                (s as int) * (s as int) <= rem as int,
                rem as int == (radius as int) * (radius as int) - (adx as int) * (adx as int),
                0 <= s,
                0 <= adx,
        ;
        assert(offset_within(dx as int, dy as int, radius as int));
    }
    V2 { x, y }
}

/// Owns the unit population and the team roster; `tick` is the sole mutator.
#[derive(Debug)]
pub struct Simulation {
    pub teams: Vec<Team>,
    pub units: Vec<Unit>,
}

impl Simulation {
    /// The simulation's invariant: a valid population whose team ids all
    /// name a team of the roster.
    pub open spec fn wf(self) -> bool {
        &&& units_ok(self.units@)
        &&& forall|i: int|
            0 <= i < self.units@.len() ==> (#[trigger] self.units@[i]).team_id
                < self.teams@.len()
    }

    /// Builds the initial population: for each team of the roster, in order,
    /// `initial_unit_count` units scattered at random within
    /// `initial_radius` of the team's spawn center, all alive, untargeted,
    /// and with ids equal to their indices.
    pub fn new(desired_teams: Vec<Team>) -> (s: Simulation)
        ensures
            s.wf(),
            spec_population(s, desired_teams@),
    {
        let ghost teams_seq = desired_teams@;
        let mut units: Vec<Unit> = Vec::new();
        let mut k: usize = 0;
        while k < desired_teams.len()
            invariant
                k <= teams_seq.len(),
                desired_teams@ == teams_seq,
                units@.len() == total_count(teams_seq.take(k as int)),
                forall|i: int|
                    0 <= i < units@.len() ==> spec_placed(#[trigger] units@[i], teams_seq, i)
                        && units@[i].team_id as int == team_of(teams_seq.take(k as int), i),
            decreases teams_seq.len() - k,
        {
            let t_pos = desired_teams[k].initial_position;
            let t_rad = desired_teams[k].initial_radius;
            let count = desired_teams[k].initial_unit_count;
            let rad: u64 = if t_rad > POS_LIMIT as u64 {
                POS_LIMIT as u64
            } else {
                t_rad
            };
            let ghost len0 = units@.len();
            let mut j: usize = 0;
            while j < count
                invariant
                    j <= count,
                    k < teams_seq.len(),
                    desired_teams@ == teams_seq,
                    units@.len() == len0 + j,
                    len0 == total_count(teams_seq.take(k as int)),
                    count == teams_seq[k as int].initial_unit_count,
                    rad as int == eff_radius(teams_seq[k as int]),
                    rad <= POS_LIMIT as u64,
                    t_pos == teams_seq[k as int].initial_position,
                    forall|i: int|
                        0 <= i < len0 ==> spec_placed(#[trigger] units@[i], teams_seq, i)
                            && units@[i].team_id as int == team_of(teams_seq.take(k as int), i),
                    forall|i: int|
                        len0 <= i < units@.len() ==> spec_placed(
                            #[trigger] units@[i],
                            teams_seq,
                            i,
                        ) && units@[i].team_id == k,
                decreases count - j,
            {
                let pos = random_nearby_pos(t_pos, rad);
                let id = units.len();
                let u = Unit::new(k, id, pos);
                units.push(u);
                proof {
                    let (ox, oy) = choose|ox: int, oy: int|
                        #[trigger] offset_within(ox, oy, rad as int) && pos.x as int
                            == clamp_coord(t_pos.x + ox) && pos.y as int == clamp_coord(
                            t_pos.y + oy,
                        );
                    assert(offset_within(ox, oy, eff_radius(teams_seq[k as int])));
                    assert(spec_placed(u, teams_seq, id as int));
                }
                j = j + 1;
            }
            proof {
                lemma_team_of_extend(teams_seq, k as int);
            }
            k = k + 1;
        }
        proof {
            assert(teams_seq.take(teams_seq.len() as int) =~= teams_seq);
        }
        let s = Simulation { teams: desired_teams, units };
        proof {
            assert forall|i: int| 0 <= i < s.units@.len() implies unit_ok(
                #[trigger] s.units@[i],
                s.units@.len(),
            ) && s.units@[i].id == i by {
                assert(spec_placed(s.units@[i], teams_seq, i));
                let u = s.units@[i];
                let (ox, oy) = choose|ox: int, oy: int|
                    #[trigger] offset_within(ox, oy, eff_radius(teams_seq[u.team_id as int]))
                        && u.position.x as int == clamp_coord(
                        teams_seq[u.team_id as int].initial_position.x + ox,
                    ) && u.position.y as int == clamp_coord(
                        teams_seq[u.team_id as int].initial_position.y + oy,
                    );
                assert(in_arena(u.position));
            }
        }
        s
    }

    /// Applies one action to the population.
    fn apply_action(units: &mut Vec<Unit>, a: UnitAction)
        requires
            action_ok(Some(a), old(units)@.len()),
        ensures
            final(units)@ == spec_apply(old(units)@, a),
    {
        match a {
            UnitAction::Displace(id, d) => {
                let mut u = units[id];
                u.displace(d);
                units[id] = u;
            },
            UnitAction::SetTarget(id, t) => {
                let mut u = units[id];
                u.set_target(t);
                units[id] = u;
            },
            UnitAction::Kill(id, t) => {
                let mut k = units[id];
                k.set_target(None);
                units[id] = k;
                let mut v = units[t];
                v.kill();
                units[t] = v;
            },
        }
    }

    /// Advances the population by one step with the given per-unit random
    /// draws: the deterministic heart of `tick`, pinned down exactly by
    /// `spec_tick`.
    pub fn tick_with_draws(&mut self, dt_ms: u64, draws: &Vec<usize>)
        requires
            old(self).wf(),
            draws@.len() == old(self).units@.len(),
        ensures
            final(self).wf(),
            final(self).teams@ == old(self).teams@,
            final(self).units@ == spec_tick(old(self).units@, dt_ms, draws@),
            final(self).units@.len() == old(self).units@.len(),
    {
        let ghost units0 = self.units@;
        let ghost teams0 = self.teams@;
        let actions = par_decide(&self.units, dt_ms, draws);
        proof {
            lemma_decisions_ok(units0, dt_ms, draws@);
            assert(actions@ =~= spec_decisions(units0, dt_ms, draws@));
        }
        let n = actions.len();
        let mut i: usize = 0;
        while i < n
            invariant
                i <= n,
                n == actions@.len(),
                actions@.len() == units0.len(),
                units_ok(units0),
                forall|k: int|
                    0 <= k < actions@.len() ==> action_ok(#[trigger] actions@[k], units0.len()),
                self.units@ == spec_apply_all(units0, actions@.take(i as int)),
                self.teams@ == teams0,
            decreases n - i,
        {
            proof {
                lemma_apply_all_preserves(units0, actions@.take(i as int));
                assert(actions@.take((i + 1) as int).drop_last() =~= actions@.take(i as int));
                assert(actions@.take((i + 1) as int).last() == actions@[i as int]);
            }
            if let Some(a) = actions[i] {
                Self::apply_action(&mut self.units, a);
            }
            i = i + 1;
        }
        proof {
            assert(actions@.take(n as int) =~= actions@);
            lemma_apply_all_preserves(units0, actions@);
        }
    }

    /// Advances the whole population by one step of `dt_ms` milliseconds,
    /// drawing one random value per unit for target selection.
    pub fn tick(&mut self, dt_ms: u64)
        requires
            old(self).wf(),
        ensures
            final(self).wf(),
            final(self).teams@ == old(self).teams@,
            final(self).units@.len() == old(self).units@.len(),
            exists|draws: Seq<usize>|
                draws.len() == old(self).units@.len() && final(self).units@ == spec_tick(
                    old(self).units@,
                    dt_ms,
                    draws,
                ),
    {
        let ghost units0 = self.units@;
        let n = self.units.len();
        let mut draws: Vec<usize> = Vec::new();
        let mut i: usize = 0;
        while i < n
            invariant
                i <= n,
                draws@.len() == i,
            decreases n - i,
        {
            draws.push(rand_below(usize::MAX));
            i = i + 1;
        }
        self.tick_with_draws(dt_ms, &draws);
        proof {
            assert(self.units@ == spec_tick(units0, dt_ms, draws@));
        }
    }

    pub fn units(&self) -> (r: &Vec<Unit>)
        ensures
            r@ == self.units@,
    {
        &self.units
    }

    pub fn teams(&self) -> (r: &Vec<Team>)
        ensures
            r@ == self.teams@,
    {
        &self.teams
    }
}

} // verus!
