//! What a room writes while it handles a message or a tick: events for its
//! players, each with the players it is meant for, and messages for the
//! server. The events are delivered once the room is done.
use vstd::prelude::*;

use crate::object::ObjectId;

verus! {

/// The players an event is meant for.
#[derive(Debug, Clone, Copy, PartialEq, Eq, Structural)]
pub enum RoomWriterTarget {
    /// One player.
    Player(ObjectId),
    /// Every player in the room.
    All,
    /// Every player in the room but one.
    AllExcept(ObjectId),
}

/// Whether an event for `target` is meant for `player`.
pub open spec fn reaches(target: RoomWriterTarget, player: ObjectId) -> bool {
    match target {
        RoomWriterTarget::Player(id) => id == player,
        RoomWriterTarget::All => true,
        RoomWriterTarget::AllExcept(id) => id != player,
    }
}

/// Whether an event for `target` is meant for `player`.
pub fn target_reaches(target: RoomWriterTarget, player: ObjectId) -> (b: bool)
    ensures
        b == reaches(target, player),
{
    match target {
        RoomWriterTarget::Player(id) => id == player,
        RoomWriterTarget::All => true,
        RoomWriterTarget::AllExcept(id) => id != player,
    }
}

/// An event and the players it is meant for.
#[derive(Debug, Clone)]
pub struct RoomWriterEvent<E> {
    pub target: RoomWriterTarget,
    pub event: E,
}

/// The events and server messages that a room wrote, in the order written.
#[derive(Debug, Clone)]
pub struct RoomWriter<E, U> {
    pub events: Vec<RoomWriterEvent<E>>,
    pub upstream_messages: Vec<U>,
}

/// The indices, in increasing order, of those of the first `n` events that
/// are meant for `player`.
pub open spec fn indices_reaching<E>(events: Seq<RoomWriterEvent<E>>, player: ObjectId, n: int) -> Seq<usize>
    decreases n,
{
    if n <= 0 {
        Seq::empty()
    } else {
        let prev = indices_reaching(events, player, n - 1);
        if reaches(events[n - 1].target, player) {
            prev.push((n - 1) as usize)
        } else {
            prev
        }
    }
}

/// Every event is delivered to exactly the players it is meant for, once,
/// and each player receives its events in the order they were written.
pub proof fn law_deliveries_are_exact<E>(events: Seq<RoomWriterEvent<E>>, player: ObjectId, n: int)
    requires
        0 <= n <= events.len(),
        n <= usize::MAX + 1,
    ensures
        forall|i: int| 0 <= i < n ==> (indices_reaching(events, player, n).contains(i as usize) <==> reaches(
            #[trigger] events[i].target,
            player,
        )),
        forall|a: int, b: int|
            0 <= a < b < indices_reaching(events, player, n).len() ==> indices_reaching(events, player, n)[a]
                < indices_reaching(events, player, n)[b],
        forall|a: int|
            0 <= a < indices_reaching(events, player, n).len() ==> indices_reaching(events, player, n)[a] < n,
    decreases n,
{
    if n > 0 {
        law_deliveries_are_exact(events, player, n - 1);
        let prev = indices_reaching(events, player, n - 1);
        assert forall|i: int| 0 <= i < n implies (indices_reaching(events, player, n).contains(i as usize)
            <==> reaches(#[trigger] events[i].target, player)) by {
            if i < n - 1 {
                if reaches(events[n - 1].target, player) {
                    let cur = prev.push((n - 1) as usize);
                    if cur.contains(i as usize) {
                        let j = choose|j: int| 0 <= j < cur.len() && cur[j] == i as usize;
                        if j == prev.len() {
                            assert(cur[j] == (n - 1) as usize);
                        } else {
                            assert(prev[j] == i as usize);
                        }
                    }
                    if prev.contains(i as usize) {
                        let j = choose|j: int| 0 <= j < prev.len() && prev[j] == i as usize;
                        assert(cur[j] == i as usize);
                    }
                }
            } else {
                if reaches(events[n - 1].target, player) {
                    let cur = prev.push((n - 1) as usize);
                    assert(cur[prev.len() as int] == (n - 1) as usize);
                } else {
                    if prev.contains(i as usize) {
                        let j = choose|j: int| 0 <= j < prev.len() && prev[j] == i as usize;
                        assert(prev[j] < n - 1);
                    }
                }
            }
        }
    }
}

impl<E, U> RoomWriter<E, U> {
    /// A writer that wrote nothing yet.
    pub fn new() -> (w: Self)
        ensures
            w.events@.len() == 0,
            w.upstream_messages@.len() == 0,
    {
        RoomWriter { events: Vec::new(), upstream_messages: Vec::new() }
    }

    /// Writes `event` for the players of `target`.
    pub fn tell(&mut self, target: RoomWriterTarget, event: E)
        ensures
            final(self).events@ == old(self).events@.push(RoomWriterEvent { target, event }),
            final(self).upstream_messages@ == old(self).upstream_messages@,
    {
        self.events.push(RoomWriterEvent { target, event });
    }

    /// Writes `events`, in order, for the players of `target`.
    pub fn tell_many(&mut self, target: RoomWriterTarget, events: Vec<E>)
        ensures
            final(self).events@ == old(self).events@ + events@.map_values(
                |e: E| RoomWriterEvent { target, event: e },
            ),
            final(self).upstream_messages@ == old(self).upstream_messages@,
    {
        let ghost start = self.events@;
        let ghost all = events@;
        let mut rest = events;
        assert(rest@ =~= all.skip(0));
        while rest.len() > 0
            invariant
                self.upstream_messages@ == old(self).upstream_messages@,
                0 <= all.len() - rest@.len() <= all.len(),
                rest@ == all.skip(all.len() - rest@.len()),
                self.events@ == start + all.take(all.len() - rest@.len()).map_values(
                    |e: E| RoomWriterEvent { target, event: e },
                ),
            decreases rest.len(),
        {
            let ghost k = all.len() - rest@.len();
            let event = rest.remove(0);
            assert(event == all[k]);
            assert(rest@ =~= all.skip(k + 1));
            self.events.push(RoomWriterEvent { target, event });
            assert(all.take(k + 1) =~= all.take(k).push(all[k]));
            assert(all.take(k + 1).map_values(|e: E| RoomWriterEvent { target, event: e }) =~= all.take(k).map_values(
                |e: E| RoomWriterEvent { target, event: e },
            ).push(RoomWriterEvent { target, event }));
        }
        assert(all.take(all.len() as int) =~= all);
    }

    /// For each of `players`, the indices of the events meant for it, in the
    /// order they were written.
    pub fn deliveries(&self, players: &Vec<ObjectId>) -> (r: Vec<Vec<usize>>)
        ensures
            r@.len() == players@.len(),
            forall|k: int|
                0 <= k < players@.len() ==> (#[trigger] r@[k])@ == indices_reaching(
                    self.events@,
                    players@[k],
                    self.events@.len() as int,
                ),
    {
        let mut r: Vec<Vec<usize>> = Vec::new();
        let mut k: usize = 0;
        while k < players.len()
            invariant
                k <= players.len(),
                r@.len() == k,
                forall|j: int|
                    0 <= j < k ==> (#[trigger] r@[j])@ == indices_reaching(
                        self.events@,
                        players@[j],
                        self.events@.len() as int,
                    ),
            decreases players.len() - k,
        {
            let player = players[k];
            let mut mine: Vec<usize> = Vec::new();
            let mut i: usize = 0;
            while i < self.events.len()
                invariant
                    i <= self.events.len(),
                    mine@ == indices_reaching(self.events@, player, i as int),
                decreases self.events.len() - i,
            {
                if target_reaches(self.events[i].target, player) {
                    mine.push(i);
                }
                i = i + 1;
            }
            r.push(mine);
            k = k + 1;
        }
        r
    }
}

} // verus!
