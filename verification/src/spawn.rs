//! Spawn and despawn requests, as the server and the snapshot reception
//! raise them.
use crate::components::Team;
use crate::monsters::MonsterKind;
use crate::pickups::PickupKind;
use crate::player::utf8_lossy;
use crate::player::strip_zeros;
use crate::snapshot::{PlayerSnapshot, Vec3Bits};
use vstd::prelude::*;

verus! {

/// Who fired a projectile.
#[derive(Clone, Copy, PartialEq, Eq, Structural, Debug)]
pub enum OwnerType {
    Player,
    Bot,
}

impl Default for OwnerType {
    fn default() -> (r: OwnerType)
        ensures
            r == OwnerType::Player,
    {
        OwnerType::Player
    }
}

/// A player to spawn.
#[derive(Clone, PartialEq, Debug)]
pub struct SpawnPlayer {
    pub id: u8,
    pub position: Vec3Bits,
    pub team: Team,
    pub name: String,
    pub health: i16,
}

/// A monster to spawn.
#[derive(Clone, Copy, PartialEq, Eq, Structural, Debug)]
pub struct SpawnMonster {
    pub id: u8,
    pub seed: u8,
    pub kind: MonsterKind,
    pub translation: Vec3Bits,
}

/// A pickup to spawn.
#[derive(Clone, Copy, PartialEq, Eq, Structural, Debug)]
pub struct SpawnPickup {
    pub id: u8,
    pub amount: i16,
    pub kind: PickupKind,
    pub translation: Vec3Bits,
}

/// A request to spawn or despawn an entity.
pub enum SpawnEvent {
    Player(SpawnPlayer),
    DespawnPlayer(u8),
    Monster(SpawnMonster),
    DespawnMonster(u8),
    Pickup(SpawnPickup),
    DespawnPickup(u8),
}

impl SpawnPlayer {
    /// The spawn of a player a snapshot introduces, where it carries a
    /// name: a spectator with full health at the origin where the snapshot
    /// leaves team, health or position out.
    pub fn from_snapshot(p: &PlayerSnapshot) -> (r: Option<SpawnPlayer>)
        ensures
            match p.name {
                None => r is None,
                Some(n) => r matches Some(s) && s.id == p.id && s.name@ == utf8_lossy(strip_zeros(n@))
                    && s.team == (match p.team {
                    Some(t) => t,
                    None => Team::Spectator,
                }) && s.health == (match p.health {
                    Some(h) => h,
                    None => 100,
                }) && s.position == (match p.translation {
                    Some(v) => v,
                    None => Vec3Bits { x: 0, y: 0, z: 0 },
                }),
            },
    {
        match p.name {
            None => None,
            Some(name) => Some(SpawnPlayer {
                id: p.id,
                name: PlayerSnapshot::decode_name(&name),
                team: match p.team {
                    Some(t) => t,
                    None => Team::Spectator,
                },
                health: match p.health {
                    Some(h) => h,
                    None => 100,
                },
                position: match p.translation {
                    Some(v) => v,
                    None => Vec3Bits { x: 0, y: 0, z: 0 },
                },
            }),
        }
    }
}

/// Whether `e` spawns a player that is already in the game.
pub open spec fn respawns_present_player(e: SpawnEvent, present: Seq<u8>) -> bool {
    e matches SpawnEvent::Player(p) && present.contains(p.id)
}

/// The indices below `n` of the events that take effect, in order: all but
/// those that would spawn a player already in the game.
pub open spec fn applied_events(events: Seq<SpawnEvent>, present: Seq<u8>, n: nat) -> Seq<usize>
    decreases n,
{
    if n == 0 {
        Seq::empty()
    } else {
        let before = applied_events(events, present, (n - 1) as nat);
        if respawns_present_player(events[n - 1], present) {
            before
        } else {
            before.push((n - 1) as usize)
        }
    }
}

/// The events that take effect are exactly those that do not spawn a
/// player already present, each once and in order.
pub proof fn applied_events_are_the_others(events: Seq<SpawnEvent>, present: Seq<u8>, n: nat)
    requires
        n <= events.len(),
        n <= usize::MAX,
    ensures
        forall|j: int| 0 <= j < applied_events(events, present, n).len() ==> {
            let e = #[trigger] applied_events(events, present, n)[j];
            e < n && !respawns_present_player(events[e as int], present)
        },
        forall|j: int, k: int|
            0 <= j < k < applied_events(events, present, n).len() ==> #[trigger] applied_events(events, present, n)[j]
                < #[trigger] applied_events(events, present, n)[k],
        forall|i: int| 0 <= i < n && !respawns_present_player(#[trigger] events[i], present) ==> applied_events(
            events,
            present,
            n,
        ).contains(i as usize),
    decreases n,
{
    if n > 0 {
        applied_events_are_the_others(events, present, (n - 1) as nat);
        let before = applied_events(events, present, (n - 1) as nat);
        let r = applied_events(events, present, n);
        assert forall|i: int| 0 <= i < n && !respawns_present_player(#[trigger] events[i], present) implies r.contains(
            i as usize,
        ) by {
            if i < n - 1 {
                let j = choose|j: int| 0 <= j < before.len() && before[j] == i as usize;
                assert(r[j] == i as usize);
            } else {
                assert(r[r.len() - 1] == i as usize);
            }
        }
    }
}

/// Which of this frame's spawn events take effect, the players in the game
/// being `present`: every event but one that would spawn a player already
/// present, so that no player is spawned twice; the others, despawns
/// among them, are applied in order.
pub fn spawn_events_to_apply(events: &Vec<SpawnEvent>, present: &Vec<u8>) -> (r: Vec<usize>)
    ensures
        r@ == applied_events(events@, present@, events@.len()),
{
    let mut out: Vec<usize> = Vec::new();
    let mut i: usize = 0;
    while i < events.len()
        invariant
            i <= events@.len(),
            out@ == applied_events(events@, present@, i as nat),
        decreases events@.len() - i,
    {
        let mut skip = false;
        if let SpawnEvent::Player(p) = &events[i] {
            let mut k: usize = 0;
            while k < present.len()
                invariant
                    k <= present@.len(),
                    i < events@.len(),
                    events@[i as int] matches SpawnEvent::Player(q) && q.id == p.id,
                    !skip ==> forall|m: int| 0 <= m < k ==> present@[m] != p.id,
                    skip ==> present@.contains(p.id),
                decreases present@.len() - k,
            {
                if present[k] == p.id {
                    assert(present@.contains(p.id));
                    skip = true;
                }
                k = k + 1;
            }
        }
        assert(skip == respawns_present_player(events@[i as int], present@));
        if !skip {
            out.push(i);
        }
        i = i + 1;
    }
    out
}

/// Whether a spawned player is the one this process controls.
pub fn is_locally_owned(spawn: &SpawnPlayer, local_player_id: u8) -> (r: bool)
    ensures
        r == (spawn.id == local_player_id),
{
    spawn.id == local_player_id
}

} // verus!
