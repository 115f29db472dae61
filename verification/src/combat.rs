//! Health of players and mobs: damage, healing and death.
use vstd::prelude::*;

use crate::object::ObjectId;
use crate::tick::{Tick, TickDuration, TickRate};

verus! {

/// The health of a player and when it was last damaged.
#[derive(Debug, Clone, Copy, PartialEq, Eq, Structural)]
pub struct PlayerVitals {
    pub id: ObjectId,
    pub health: i32,
    pub max_health: i32,
    pub last_damaged_at: Tick,
}

/// A change of an object's health, as told to the players in the room.
#[derive(Debug, Clone, Copy, PartialEq, Eq, Structural)]
pub struct HealthChange {
    pub object_id: ObjectId,
    pub change: i32,
    pub health: i32,
}

/// Health after taking `damage`: never below zero.
pub open spec fn spec_hurt(health: i32, damage: i32) -> int {
    if health - damage >= 0 {
        health - damage
    } else {
        0
    }
}

/// Taking `damage` does not overflow.
pub open spec fn hurt_fits(health: i32, damage: i32) -> bool {
    i32::MIN <= health - damage <= i32::MAX && damage != i32::MIN
}

/// The health left after taking `damage`.
pub fn apply_damage(health: i32, damage: i32) -> (r: i32)
    requires
        hurt_fits(health, damage),
    ensures
        r == spec_hurt(health, damage),
{
    let h = health - damage;
    if h >= 0 {
        h
    } else {
        0
    }
}

/// Damages a player at `tick`.
pub fn hurt_player(player: &mut PlayerVitals, damage: i32, tick: Tick) -> (event: HealthChange)
    requires
        hurt_fits(old(player).health, damage),
    ensures
        final(player).health == spec_hurt(old(player).health, damage),
        final(player).last_damaged_at == tick,
        final(player).id == old(player).id,
        final(player).max_health == old(player).max_health,
        event == (HealthChange { object_id: old(player).id, change: (-damage) as i32, health: final(player).health }),
{
    player.health = apply_damage(player.health, damage);
    player.last_damaged_at = tick;
    HealthChange { object_id: player.id, change: -damage, health: player.health }
}

/// A mob as a player's attack reads it: its id and health.
#[derive(Debug, Clone, Copy, PartialEq, Eq, Structural)]
pub struct MobVitals {
    pub id: ObjectId,
    pub health: i32,
}

/// What a player's attack tells the room about a mob it hit.
#[derive(Debug, Clone, Copy, PartialEq, Eq, Structural)]
pub enum MobHitEvent {
    /// The mob's health changed.
    HealthChanged(HealthChange),
    /// The mob has no health left and disappears.
    Disappeared(ObjectId),
}

/// A mob after an attack of `damage` that hit it or not.
pub open spec fn spec_hit_mob(m: MobVitals, hit: bool, damage: i32) -> MobVitals {
    if hit {
        MobVitals { health: spec_hurt(m.health, damage) as i32, ..m }
    } else {
        m
    }
}

/// What the room is told about one mob: for a hit, its new health, then,
/// if none is left, that it disappears.
pub open spec fn spec_hit_events(m: MobVitals, hit: bool, damage: i32) -> Seq<MobHitEvent> {
    if !hit {
        Seq::empty()
    } else {
        let health = spec_hurt(m.health, damage) as i32;
        let changed = MobHitEvent::HealthChanged(HealthChange { object_id: m.id, change: (-damage) as i32, health });
        if health == 0 {
            seq![changed, MobHitEvent::Disappeared(m.id)]
        } else {
            seq![changed]
        }
    }
}

/// The events of an attack on the first `n` mobs, in order.
pub open spec fn spec_attack_events(mobs: Seq<MobVitals>, hits: Seq<bool>, damage: i32, n: int) -> Seq<MobHitEvent>
    decreases n,
{
    if n <= 0 {
        Seq::empty()
    } else {
        spec_attack_events(mobs, hits, damage, n - 1) + spec_hit_events(mobs[n - 1], hits[n - 1], damage)
    }
}

/// A player's attack of `damage` on the mobs of a room: each mob that it
/// hits (`hits[i]` for the `i`-th) loses `damage` health, down to zero, and
/// the room is told of each hit mob's new health and, once it has none
/// left, that it disappears.
pub fn attack_mobs(mobs: &mut Vec<MobVitals>, hits: &Vec<bool>, damage: i32) -> (events: Vec<MobHitEvent>)
    requires
        hits@.len() == old(mobs)@.len(),
        forall|i: int| 0 <= i < hits@.len() && hits@[i] ==> hurt_fits(#[trigger] old(mobs)@[i].health, damage),
    ensures
        final(mobs)@.len() == old(mobs)@.len(),
        forall|i: int|
            0 <= i < old(mobs)@.len() ==> #[trigger] final(mobs)@[i] == spec_hit_mob(old(mobs)@[i], hits@[i], damage),
        events@ == spec_attack_events(old(mobs)@, hits@, damage, old(mobs)@.len() as int),
{
    let ghost old_ms = mobs@;
    let mut events: Vec<MobHitEvent> = Vec::new();
    let mut i: usize = 0;
    while i < mobs.len()
        invariant
            old_ms == old(mobs)@,
            hits@.len() == old_ms.len(),
            mobs@.len() == old_ms.len(),
            forall|j: int| 0 <= j < hits@.len() && hits@[j] ==> hurt_fits(#[trigger] old_ms[j].health, damage),
            i <= mobs.len(),
            forall|j: int| 0 <= j < i ==> #[trigger] mobs@[j] == spec_hit_mob(old_ms[j], hits@[j], damage),
            forall|j: int| i <= j < mobs@.len() ==> #[trigger] mobs@[j] == old_ms[j],
            events@ == spec_attack_events(old_ms, hits@, damage, i as int),
        decreases mobs.len() - i,
    {
        let m = mobs[i];
        assert(m == old_ms[i as int]);
        let ghost before = events@;
        if hits[i] {
            assert(hurt_fits(old_ms[i as int].health, damage));
            let health = apply_damage(m.health, damage);
            mobs.set(i, MobVitals { health, ..m });
            events.push(MobHitEvent::HealthChanged(HealthChange { object_id: m.id, change: -damage, health }));
            if health == 0 {
                events.push(MobHitEvent::Disappeared(m.id));
            }
        }
        assert(events@ =~= before + spec_hit_events(old_ms[i as int], hits@[i as int], damage));
        i = i + 1;
    }
    events
}

/// How much a player heals by: `heal_amount` (as a signed number), but not
/// beyond its maximum health.
pub open spec fn spec_heal(p: PlayerVitals, heal_amount: u32) -> int {
    let amount = heal_amount as i32;
    if amount <= p.max_health - p.health {
        amount as int
    } else {
        p.max_health - p.health
    }
}

/// Whether a player heals at `tick`: it is below its maximum health and was
/// last damaged more than `heal_after` ticks ago.
pub open spec fn heals(p: PlayerVitals, tick: Tick, heal_after: TickDuration) -> bool {
    p.health < p.max_health && tick.0 - p.last_damaged_at.0 > heal_after.0
}

/// Healing a player that is below its maximum does not overflow.
pub open spec fn heal_fits(p: PlayerVitals, tick: Tick, heal_amount: u32) -> bool {
    p.health < p.max_health ==> {
        &&& tick.0 >= p.last_damaged_at.0
        &&& p.max_health - p.health <= i32::MAX
        &&& p.health + spec_heal(p, heal_amount) >= i32::MIN
    }
}

/// A player after the healing step of `tick`.
pub open spec fn spec_heal_player(p: PlayerVitals, tick: Tick, heal_after: TickDuration, heal_amount: u32) -> PlayerVitals {
    if heals(p, tick, heal_after) {
        PlayerVitals { health: (p.health + spec_heal(p, heal_amount)) as i32, ..p }
    } else {
        p
    }
}

/// The health changes that the healing step of `tick` reports, in order.
pub open spec fn spec_heal_events(ps: Seq<PlayerVitals>, tick: Tick, heal_after: TickDuration, heal_amount: u32) -> Seq<HealthChange>
    decreases ps.len(),
{
    if ps.len() == 0 {
        Seq::empty()
    } else {
        let prev = spec_heal_events(ps.drop_last(), tick, heal_after, heal_amount);
        let p = ps.last();
        if heals(p, tick, heal_after) {
            prev.push(
                HealthChange {
                    object_id: p.id,
                    change: spec_heal(p, heal_amount) as i32,
                    health: spec_heal_player(p, tick, heal_after, heal_amount).health,
                },
            )
        } else {
            prev
        }
    }
}

/// Heals the players of a room: on every `heal_rate`-th tick, each player
/// below its maximum health that was not damaged for more than `heal_after`
/// ticks gains `heal_amount`, up to its maximum.
pub fn heal_players(
    tick: Tick,
    heal_rate: TickRate,
    heal_after: TickDuration,
    heal_amount: u32,
    players: &mut Vec<PlayerVitals>,
) -> (events: Vec<HealthChange>)
    requires
        heal_rate.0 != 0,
        tick.0 % heal_rate.0 == 0 ==> forall|i: int|
            0 <= i < old(players)@.len() ==> #[trigger] heal_fits(old(players)@[i], tick, heal_amount),
    ensures
        tick.0 % heal_rate.0 == 0 ==> {
            &&& final(players)@ == old(players)@.map_values(
                |p: PlayerVitals| spec_heal_player(p, tick, heal_after, heal_amount),
            )
            &&& events@ == spec_heal_events(old(players)@, tick, heal_after, heal_amount)
        },
        tick.0 % heal_rate.0 != 0 ==> final(players)@ == old(players)@ && events@.len() == 0,
{
    let mut events: Vec<HealthChange> = Vec::new();
    if !tick.is_nth(heal_rate) {
        return events;
    }
    let ghost old_ps = players@;
    let mut i: usize = 0;
    assert(old_ps.take(0) =~= Seq::<PlayerVitals>::empty());
    while i < players.len()
        invariant
            old_ps == old(players)@,
            players@.len() == old_ps.len(),
            forall|j: int| 0 <= j < old_ps.len() ==> #[trigger] heal_fits(old_ps[j], tick, heal_amount),
            i <= players.len(),
            forall|j: int|
                0 <= j < i ==> #[trigger] players@[j] == spec_heal_player(old_ps[j], tick, heal_after, heal_amount),
            forall|j: int| i <= j < players@.len() ==> #[trigger] players@[j] == old_ps[j],
            events@ == spec_heal_events(old_ps.take(i as int), tick, heal_after, heal_amount),
        decreases players.len() - i,
    {
        let p = players[i];
        assert(p == old_ps[i as int]);
        assert(heal_fits(old_ps[i as int], tick, heal_amount));
        assert(old_ps.take(i + 1).drop_last() =~= old_ps.take(i as int));
        assert(old_ps.take(i + 1).last() == p);
        if p.health < p.max_health && (tick - p.last_damaged_at).0 > heal_after.0 {
            let amount = heal_amount as i32;
            let room = p.max_health - p.health;
            let heal = if amount <= room { amount } else { room };
            let healed = PlayerVitals { health: p.health + heal, ..p };
            players.set(i, healed);
            events.push(HealthChange { object_id: p.id, change: heal, health: healed.health });
        }
        i = i + 1;
    }
    assert(old_ps.take(old_ps.len() as int) =~= old_ps);
    assert(players@ =~= old_ps.map_values(|p: PlayerVitals| spec_heal_player(p, tick, heal_after, heal_amount)));
    events
}

/// A player's health lies between zero and its maximum.
pub open spec fn health_in_range(p: PlayerVitals) -> bool {
    0 <= p.health <= p.max_health
}

/// Taking damage keeps a player's health between zero and its maximum.
pub proof fn law_hurt_keeps_health_in_range(p: PlayerVitals, damage: i32)
    requires
        health_in_range(p),
        0 <= damage,
    ensures
        0 <= spec_hurt(p.health, damage) <= p.max_health,
{
}

/// Healing keeps a player's health between zero and its maximum, and never
/// lowers it, as long as the heal amount is a valid signed number.
pub proof fn law_heal_keeps_health_in_range(p: PlayerVitals, tick: Tick, heal_after: TickDuration, heal_amount: u32)
    requires
        health_in_range(p),
        heal_amount <= i32::MAX,
    ensures
        health_in_range(spec_heal_player(p, tick, heal_after, heal_amount)),
        spec_heal_player(p, tick, heal_after, heal_amount).health >= p.health,
{
}

/// Damage takes exactly `damage` health away, except that health never
/// goes below zero: the result is the larger of `health - damage` and zero.
pub proof fn law_damage_is_clamped_subtraction(health: i32, damage: i32)
    ensures
        spec_hurt(health, damage) >= 0,
        spec_hurt(health, damage) >= health - damage,
        spec_hurt(health, damage) == 0 || spec_hurt(health, damage) == health - damage,
        health - damage >= 0 ==> spec_hurt(health, damage) == health - damage,
        health - damage <= 0 ==> spec_hurt(health, damage) == 0,
{
}

/// A player that heals gains `heal_amount`, or less only when that would
/// take it beyond its maximum health, in which case it reaches the maximum;
/// a player that does not heal keeps its health.
pub proof fn law_heal_gains_amount_up_to_maximum(p: PlayerVitals, tick: Tick, heal_after: TickDuration, heal_amount: u32)
    requires
        heal_amount <= i32::MAX,
        p.health <= p.max_health,
    ensures
        ({
            let q = spec_heal_player(p, tick, heal_after, heal_amount);
            &&& q.id == p.id && q.max_health == p.max_health && q.last_damaged_at == p.last_damaged_at
            &&& (p.health < p.max_health && tick.0 - p.last_damaged_at.0 > heal_after.0) ==> {
                &&& q.health - p.health <= heal_amount
                &&& q.health <= p.max_health
                &&& (q.health - p.health == heal_amount || q.health == p.max_health)
            }
            &&& !(p.health < p.max_health && tick.0 - p.last_damaged_at.0 > heal_after.0) ==> q == p
        }),
{
}

/// The players that have no health left.
pub fn dead_players(players: &Vec<PlayerVitals>) -> (ids: Vec<ObjectId>)
    ensures
        ids@ == players@.filter(|p: PlayerVitals| p.health == 0).map_values(|p: PlayerVitals| p.id),
{
    let mut ids: Vec<ObjectId> = Vec::new();
    let mut i: usize = 0;
    assert(players@.take(0).filter(|p: PlayerVitals| p.health == 0) =~= Seq::empty());
    while i < players.len()
        invariant
            i <= players.len(),
            ids@ == players@.take(i as int).filter(|p: PlayerVitals| p.health == 0).map_values(|p: PlayerVitals| p.id),
        decreases players.len() - i,
    {
        let ghost before = players@.take(i as int);
        assert(players@.take(i + 1).drop_last() =~= before);
        reveal_with_fuel(Seq::<PlayerVitals>::filter, 1);
        if players[i].health == 0 {
            ids.push(players[i].id);
        }
        assert(ids@ =~= players@.take(i + 1).filter(|p: PlayerVitals| p.health == 0).map_values(|p: PlayerVitals| p.id));
        i = i + 1;
    }
    assert(players@.take(players.len() as int) =~= players@);
    ids
}

/// A dead player brought back with full health.
pub fn revive(player: &mut PlayerVitals)
    ensures
        *final(player) == (PlayerVitals { health: old(player).max_health, ..*old(player) }),
{
    player.health = player.max_health;
}

} // verus!
