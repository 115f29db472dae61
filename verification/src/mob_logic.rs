//! Mob behaviour: choosing where to walk and the attack cycle.
//!
//! Distances and directions between positions are measured by the caller;
//! this module decides, from what was measured, how a mob turns, whom it
//! targets and how its attacks proceed from tick to tick.
use vstd::prelude::*;

use crate::object::{all_directions_8, spec_all_directions_8, spec_to_direction4, Direction4, Direction8, ObjectId};
use crate::tick::{Tick, TickDuration};

verus! {

// ---------------------------------------------------------------------------
// Random choices
// ---------------------------------------------------------------------------

/// A random number below `n`, drawn with `fastrand::Rng::u8` on a fresh
/// generator; the contract claims only that it is below `n` (the crate
/// panics on an empty range, which `requires` excludes).
#[verifier::external_body]
fn random_below(n: u8) -> (r: u8)
    requires
        n > 0,
    ensures
        r < n,
{
    fastrand::Rng::new().u8(0..n)
}

/// A random element of `items`, drawn with `fastrand::Rng::choice` on a
/// fresh generator; the contract claims that it is `None` exactly when
/// `items` is empty and otherwise one of the items.
#[verifier::external_body]
fn random_choice(items: &Vec<Direction8>) -> (r: Option<Direction8>)
    ensures
        r is None <==> items@.len() == 0,
        r matches Some(d) ==> items@.contains(d),
{
    fastrand::Rng::new().choice(items).copied()
}

/// Picks one of a mob's attacks at random.
pub fn choose_attack(attack_count: u8) -> (r: u8)
    requires
        attack_count > 0,
    ensures
        r < attack_count,
{
    random_below(attack_count)
}

/// Picks at random a direction to walk in among those whose neighbouring
/// cell is in the mob's range and free (`allowed[i]` for the `i`-th of the
/// eight directions clockwise from right); `None` if there is none.
pub fn choose_direction(allowed: [bool; 8]) -> (r: Option<Direction8>)
    ensures
        r is None <==> forall|i: int| 0 <= i < 8 ==> !allowed@[i],
        r matches Some(d) ==> exists|i: int|
            0 <= i < 8 && allowed@[i] && #[trigger] spec_all_directions_8()[i] == d,
{
    let all = all_directions_8();
    let mut candidates: Vec<Direction8> = Vec::new();
    let mut i: usize = 0;
    while i < 8
        invariant
            i <= 8,
            all@ == spec_all_directions_8(),
            forall|k: int| #![trigger candidates@[k]] 0 <= k < candidates@.len() ==> exists|j: int|
                0 <= j < i && allowed@[j] && #[trigger] all@[j] == candidates@[k],
            candidates@.len() == 0 <==> forall|j: int| 0 <= j < i ==> !allowed@[j],
        decreases 8 - i,
    {
        if allowed[i] {
            let ghost before = candidates@;
            candidates.push(all[i]);
            assert forall|k: int| #![trigger candidates@[k]] 0 <= k < candidates@.len() implies exists|j: int|
                0 <= j < i + 1 && allowed@[j] && #[trigger] all@[j] == candidates@[k] by {
                if k < before.len() {
                    assert(candidates@[k] == before[k]);
                } else {
                    assert(all@[i as int] == candidates@[k]);
                }
            }
        }
        i = i + 1;
    }
    let r = random_choice(&candidates);
    proof {
        if let Some(d) = r {
            let k = choose|k: int| 0 <= k < candidates@.len() && candidates@[k] == d;
            assert(candidates@[k] == d);
        }
    }
    r
}

// ---------------------------------------------------------------------------
// Turning
// ---------------------------------------------------------------------------

/// How a mob moves and faces.
#[derive(Debug, Clone, Copy, PartialEq, Eq, Structural)]
pub struct Heading {
    pub direction: Option<Direction8>,
    pub look_direction: Direction4,
}

/// The heading of a mob that has just chosen `direction` to walk in: it
/// faces that way, or down when it stands still.
pub fn heading_after_choice(direction: Option<Direction8>) -> (h: Heading)
    ensures
        h.direction == direction,
        h.look_direction == match direction {
            Some(d) => spec_to_direction4(d),
            None => Direction4::Down,
        },
{
    let look_direction = match direction {
        Some(d) => d.to_direction4(),
        None => Direction4::Down,
    };
    Heading { direction, look_direction }
}

/// The heading of a mob about to attack: it stops and faces the target,
/// which lies in `attack_direction`. The flag tells whether it changed.
pub fn change_direction_for_attack(heading: Heading, attack_direction: Direction4) -> (r: (Heading, bool))
    ensures
        r.0 == (Heading { direction: None, look_direction: attack_direction }),
        r.1 == (heading.direction is Some || heading.look_direction != attack_direction),
{
    let mut changed = false;
    let mut h = heading;
    if h.direction.is_some() {
        h.direction = None;
        changed = true;
    }
    if h.look_direction != attack_direction {
        h.look_direction = attack_direction;
        changed = true;
    }
    (h, changed)
}

/// The heading of a mob chasing a target that lies in `direction`: it walks
/// that way if the next cell is free (`can_move`), else it stops. The flag
/// tells whether it changed.
pub fn change_direction_to_target(heading: Heading, direction: Direction8, can_move: bool) -> (r: (Heading, bool))
    ensures
        can_move && heading.direction != Some(direction) ==> r == (
        Heading { direction: Some(direction), look_direction: spec_to_direction4(direction) },
        true,
        ),
        can_move && heading.direction == Some(direction) ==> r == (heading, false),
        !can_move && heading.direction is Some ==> r == (
        Heading { direction: None, look_direction: heading.look_direction },
        true,
        ),
        !can_move && heading.direction is None ==> r == (heading, false),
{
    if can_move {
        if heading.direction != Some(direction) {
            (Heading { direction: Some(direction), look_direction: direction.to_direction4() }, true)
        } else {
            (heading, false)
        }
    } else if heading.direction.is_some() {
        (Heading { direction: None, look_direction: heading.look_direction }, true)
    } else {
        (heading, false)
    }
}

// ---------------------------------------------------------------------------
// The attack cycle
// ---------------------------------------------------------------------------

/// Where a mob is in its attack cycle; `P` is a position, which the cycle
/// only carries along.
#[derive(Debug, Clone, Copy, PartialEq, Eq)]
pub enum MobAttackState<P> {
    /// A target is chosen, with the attack to use on it.
    Targeting { target_id: ObjectId, attack_index: u8 },
    /// The attack was announced at `attack_started_at` and aims at
    /// `attack_position`.
    Telegraphed { target_id: ObjectId, attack_index: u8, attack_started_at: Tick, attack_position: P },
    /// The attack hit; the mob recovers until the attack's length is over.
    DamageDealt { attack_index: u8, attack_started_at: Tick },
}

/// What the room measured about a mob's surroundings at this tick.
#[derive(Debug, Clone, Copy)]
pub struct AttackObservation<P> {
    /// Without a target: the first player within the mob's range, if any.
    pub new_target: Option<ObjectId>,
    /// The attack drawn for a new target.
    pub chosen_attack: u8,
    /// With a target: whether it is still in the room and within the mob's
    /// range.
    pub target_valid: bool,
    /// With a valid target: whether it is within reach of the attack.
    pub in_attack_range: bool,
    /// With a valid target: where it stands.
    pub target_position: P,
}

/// The timing of the attack that the mob's state names.
#[derive(Debug, Clone, Copy, PartialEq, Eq, Structural)]
pub struct AttackTiming {
    pub telegraph_length: TickDuration,
    pub length: TickDuration,
}

/// What the room does for a mob after an attack step.
#[derive(Debug, Clone, Copy, PartialEq, Eq, Structural)]
pub enum AttackAction {
    /// Nothing.
    Idle,
    /// A target was chosen.
    Acquire,
    /// The target is in reach: face it; if `start`, announce the attack.
    Face { start: bool },
    /// The target is out of reach: walk towards it.
    Chase,
    /// The target was lost.
    Drop,
    /// The announced attack is still coming.
    Wait,
    /// The announced attack lands now.
    Strike,
    /// The attack is over.
    Finish,
}

/// The result of an attack step.
#[derive(Debug, Clone, Copy)]
pub struct AttackStep<P> {
    pub state: Option<MobAttackState<P>>,
    pub last_attacked_at: Tick,
    pub action: AttackAction,
}

/// The ticks since an earlier tick are at least `d`.
pub open spec fn at_least(tick: Tick, since: Tick, d: TickDuration) -> bool {
    tick.0 - since.0 >= d.0
}

/// The attack step of a mob at `tick`.
pub open spec fn spec_attack_step<P>(
    state: Option<MobAttackState<P>>,
    tick: Tick,
    last_attacked_at: Tick,
    cooldown: TickDuration,
    timing: AttackTiming,
    obs: AttackObservation<P>,
) -> AttackStep<P> {
    match state {
        None => match obs.new_target {
            Some(target_id) => AttackStep {
                state: Some(MobAttackState::Targeting { target_id, attack_index: obs.chosen_attack }),
                last_attacked_at,
                action: AttackAction::Acquire,
            },
            None => AttackStep { state, last_attacked_at, action: AttackAction::Idle },
        },
        Some(MobAttackState::Targeting { target_id, attack_index }) => if !obs.target_valid {
            AttackStep { state: None, last_attacked_at, action: AttackAction::Drop }
        } else if !obs.in_attack_range {
            AttackStep { state, last_attacked_at, action: AttackAction::Chase }
        } else if at_least(tick, last_attacked_at, cooldown) {
            AttackStep {
                state: Some(
                    MobAttackState::Telegraphed {
                        target_id,
                        attack_index,
                        attack_started_at: tick,
                        attack_position: obs.target_position,
                    },
                ),
                last_attacked_at: tick,
                action: AttackAction::Face { start: true },
            }
        } else {
            AttackStep { state, last_attacked_at, action: AttackAction::Face { start: false } }
        },
        Some(MobAttackState::Telegraphed { attack_index, attack_started_at, .. }) => if at_least(
            tick,
            attack_started_at,
            timing.telegraph_length,
        ) {
            AttackStep {
                state: Some(MobAttackState::DamageDealt { attack_index, attack_started_at }),
                last_attacked_at,
                action: AttackAction::Strike,
            }
        } else {
            AttackStep { state, last_attacked_at, action: AttackAction::Wait }
        },
        Some(MobAttackState::DamageDealt { attack_started_at, .. }) => if at_least(
            tick,
            attack_started_at,
            timing.length,
        ) {
            AttackStep { state: None, last_attacked_at, action: AttackAction::Finish }
        } else {
            AttackStep { state, last_attacked_at, action: AttackAction::Wait }
        },
    }
}

/// No tick in the mob's state or its last attack lies after `tick`.
pub open spec fn ticks_not_after<P>(state: Option<MobAttackState<P>>, tick: Tick, last_attacked_at: Tick) -> bool {
    &&& last_attacked_at.0 <= tick.0
    &&& match state {
        Some(MobAttackState::Telegraphed { attack_started_at, .. }) => attack_started_at.0 <= tick.0,
        Some(MobAttackState::DamageDealt { attack_started_at, .. }) => attack_started_at.0 <= tick.0,
        _ => true,
    }
}

/// The tick counts that the step subtracts do not run backwards: the last
/// attack where a target in reach is faced, the start of the attack where
/// one is under way.
pub open spec fn step_fits<P>(state: Option<MobAttackState<P>>, tick: Tick, last_attacked_at: Tick, obs: AttackObservation<P>) -> bool {
    match state {
        None => true,
        Some(MobAttackState::Targeting { .. }) => obs.target_valid && obs.in_attack_range ==> last_attacked_at.0 <= tick.0,
        Some(MobAttackState::Telegraphed { attack_started_at, .. }) => attack_started_at.0 <= tick.0,
        Some(MobAttackState::DamageDealt { attack_started_at, .. }) => attack_started_at.0 <= tick.0,
    }
}

/// Advances a mob's attack cycle by one tick. Without a target, the mob
/// takes `obs.new_target` if there is one. With a target that is gone, it
/// drops it; out of reach, it chases it; in reach, it faces it and, once
/// `cooldown` ticks passed since its last attack, announces the attack.
/// An announced attack lands after its telegraph length, and the mob is
/// free again after the attack's length.
pub fn attack_step<P: Copy>(
    state: Option<MobAttackState<P>>,
    tick: Tick,
    last_attacked_at: Tick,
    cooldown: TickDuration,
    timing: AttackTiming,
    obs: AttackObservation<P>,
) -> (r: AttackStep<P>)
    requires
        step_fits(state, tick, last_attacked_at, obs),
    ensures
        r == spec_attack_step(state, tick, last_attacked_at, cooldown, timing, obs),
{
    match state {
        None => match obs.new_target {
            Some(target_id) => AttackStep {
                state: Some(MobAttackState::Targeting { target_id, attack_index: obs.chosen_attack }),
                last_attacked_at,
                action: AttackAction::Acquire,
            },
            None => AttackStep { state, last_attacked_at, action: AttackAction::Idle },
        },
        Some(MobAttackState::Targeting { target_id, attack_index }) => {
            if !obs.target_valid {
                AttackStep { state: None, last_attacked_at, action: AttackAction::Drop }
            } else if !obs.in_attack_range {
                AttackStep { state, last_attacked_at, action: AttackAction::Chase }
            } else if (tick - last_attacked_at).0 >= cooldown.0 {
                AttackStep {
                    state: Some(
                        MobAttackState::Telegraphed {
                            target_id,
                            attack_index,
                            attack_started_at: tick,
                            attack_position: obs.target_position,
                        },
                    ),
                    last_attacked_at: tick,
                    action: AttackAction::Face { start: true },
                }
            } else {
                AttackStep { state, last_attacked_at, action: AttackAction::Face { start: false } }
            }
        },
        Some(MobAttackState::Telegraphed { attack_index, attack_started_at, .. }) => {
            if (tick - attack_started_at).0 >= timing.telegraph_length.0 {
                AttackStep {
                    state: Some(MobAttackState::DamageDealt { attack_index, attack_started_at }),
                    last_attacked_at,
                    action: AttackAction::Strike,
                }
            } else {
                AttackStep { state, last_attacked_at, action: AttackAction::Wait }
            }
        },
        Some(MobAttackState::DamageDealt { attack_started_at, .. }) => {
            if (tick - attack_started_at).0 >= timing.length.0 {
                AttackStep { state: None, last_attacked_at, action: AttackAction::Finish }
            } else {
                AttackStep { state, last_attacked_at, action: AttackAction::Wait }
            }
        },
    }
}

/// A mob announces an attack only once `cooldown` ticks have passed since
/// its last attack, and its last attack then becomes the current tick;
/// otherwise its last attack stays as it was.
pub proof fn law_attack_respects_cooldown<P>(
    state: Option<MobAttackState<P>>,
    tick: Tick,
    last_attacked_at: Tick,
    cooldown: TickDuration,
    timing: AttackTiming,
    obs: AttackObservation<P>,
)
    ensures
        ({
            let r = spec_attack_step(state, tick, last_attacked_at, cooldown, timing, obs);
            &&& r.action == AttackAction::Face { start: true } ==> at_least(tick, last_attacked_at, cooldown)
                && r.last_attacked_at == tick
            &&& r.action != AttackAction::Face { start: true } ==> r.last_attacked_at == last_attacked_at
        }),
{
}

/// A mob whose target is no longer valid (it left the room or the mob's
/// range) forgets it and drops it, whether or not it was in reach.
pub proof fn law_invalid_target_is_dropped<P>(
    target_id: ObjectId,
    attack_index: u8,
    tick: Tick,
    last_attacked_at: Tick,
    cooldown: TickDuration,
    timing: AttackTiming,
    obs: AttackObservation<P>,
)
    requires
        !obs.target_valid,
    ensures
        ({
            let r = spec_attack_step(
                Some(MobAttackState::Targeting { target_id, attack_index }),
                tick,
                last_attacked_at,
                cooldown,
                timing,
                obs,
            );
            &&& r.state is None
            &&& r.action == AttackAction::Drop
            &&& r.last_attacked_at == last_attacked_at
        }),
{
}

/// An attack lands only when it was announced and its telegraph length has
/// passed; the mob then keeps the attack and its start.
pub proof fn law_strike_follows_telegraph<P>(
    state: Option<MobAttackState<P>>,
    tick: Tick,
    last_attacked_at: Tick,
    cooldown: TickDuration,
    timing: AttackTiming,
    obs: AttackObservation<P>,
)
    ensures
        ({
            let r = spec_attack_step(state, tick, last_attacked_at, cooldown, timing, obs);
            r.action == AttackAction::Strike ==> match state {
                Some(MobAttackState::Telegraphed { attack_index, attack_started_at, .. }) => {
                    &&& at_least(tick, attack_started_at, timing.telegraph_length)
                    &&& r.state == Some(MobAttackState::<P>::DamageDealt { attack_index, attack_started_at })
                },
                _ => false,
            }
        }),
{
}

/// The attack cycle goes from no target to targeting, from targeting to an
/// announced attack on the same target (or back to no target), from an
/// announced attack to recovery, and from recovery to no target; a state
/// otherwise stays as it was.
pub proof fn law_attack_cycle<P>(
    state: Option<MobAttackState<P>>,
    tick: Tick,
    last_attacked_at: Tick,
    cooldown: TickDuration,
    timing: AttackTiming,
    obs: AttackObservation<P>,
)
    ensures
        ({
            let next = spec_attack_step(state, tick, last_attacked_at, cooldown, timing, obs).state;
            next == state || match (state, next) {
                (None, Some(MobAttackState::Targeting { .. })) => true,
                (Some(MobAttackState::Targeting { .. }), None) => true,
                (
                    Some(MobAttackState::Targeting { target_id, attack_index }),
                    Some(MobAttackState::Telegraphed { target_id: t2, attack_index: a2, attack_started_at, .. }),
                ) => t2 == target_id && a2 == attack_index && attack_started_at == tick,
                (
                    Some(MobAttackState::Telegraphed { attack_index, attack_started_at, .. }),
                    Some(MobAttackState::DamageDealt { attack_index: a2, attack_started_at: s2 }),
                ) => a2 == attack_index && s2 == attack_started_at,
                (Some(MobAttackState::DamageDealt { .. }), None) => true,
                _ => false,
            }
        }),
{
}

/// After a step at `tick`, no tick in the mob's state lies after any later
/// tick, so that the next step's subtractions fit too.
pub proof fn law_attack_step_keeps_ticks_ordered<P>(
    state: Option<MobAttackState<P>>,
    tick: Tick,
    later: Tick,
    last_attacked_at: Tick,
    cooldown: TickDuration,
    timing: AttackTiming,
    obs: AttackObservation<P>,
)
    requires
        ticks_not_after(state, tick, last_attacked_at),
        tick.0 <= later.0,
    ensures
        ({
            let r = spec_attack_step(state, tick, last_attacked_at, cooldown, timing, obs);
            &&& ticks_not_after(r.state, later, r.last_attacked_at)
            &&& forall|o: AttackObservation<P>| #[trigger] step_fits(r.state, later, r.last_attacked_at, o)
        }),
{
}

} // verus!
