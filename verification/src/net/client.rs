//! The client's side of snapshot reception: which received snapshot to
//! apply, and what applying it spawns, despawns and replays.
use crate::player::{merged_input, LocalPlayer, PlayerInput};
use crate::spawn::SpawnEvent;
use crate::snapshot::message::unframed;
use crate::snapshot::wire::parse_snapshot;
use crate::snapshot::{MonsterSnapshot, PickupSnapshot, PlayerSnapshot, Snapshot, SnapshotView};
use vstd::prelude::*;

verus! {

/// The bodies of a list of messages.
pub open spec fn message_views(ms: Seq<Vec<u8>>) -> Seq<Seq<u8>> {
    ms.map_values(|m: Vec<u8>| m@)
}

/// The snapshot a message holds, if it holds one.
pub open spec fn decoded(msg: Seq<u8>) -> Option<SnapshotView> {
    match unframed(msg) {
        None => None,
        Some(p) => match parse_snapshot(p) {
            Ok((v, _)) => Some(v),
            Err(_) => None,
        },
    }
}

/// Whether a decoded snapshot is newer than the last one reconciled, or
/// none was reconciled yet.
pub open spec fn is_newer(v: SnapshotView, latest_reconciled: Option<u64>) -> bool {
    match latest_reconciled {
        None => true,
        Some(last) => v.id > last,
    }
}

/// The last snapshot among `msgs` that decodes and is newer than
/// `latest_reconciled`.
pub open spec fn last_newer(msgs: Seq<Seq<u8>>, latest_reconciled: Option<u64>) -> Option<SnapshotView>
    decreases msgs.len(),
{
    if msgs.len() == 0 {
        None
    } else {
        match decoded(msgs.last()) {
            Some(v) if is_newer(v, latest_reconciled) => Some(v),
            _ => last_newer(msgs.drop_last(), latest_reconciled),
        }
    }
}

/// Scans `msgs` in order, replacing `best` by every snapshot that decodes
/// and is newer than `latest_reconciled`.
fn scan_messages(msgs: &Vec<Vec<u8>>, latest_reconciled: Option<u64>, best: Option<Snapshot>) -> (r: Option<Snapshot>)
    ensures
        match last_newer(message_views(msgs@), latest_reconciled) {
            Some(v) => r matches Some(x) && x@ == v,
            None => match best {
                Some(b) => r matches Some(x) && x@ == b@,
                None => r is None,
            },
        },
{
    let mut best = best;
    let ghost start = best;
    let mut i: usize = 0;
    while i < msgs.len()
        invariant
            i <= msgs@.len(),
            match last_newer(message_views(msgs@).take(i as int), latest_reconciled) {
                Some(v) => best matches Some(x) && x@ == v,
                None => match start {
                    Some(b) => best matches Some(x) && x@ == b@,
                    None => best is None,
                },
            },
        decreases msgs@.len() - i,
    {
        let candidate = Snapshot::decode_message(msgs[i].as_slice());
        proof {
            let t = message_views(msgs@).take(i + 1);
            assert(t.drop_last() =~= message_views(msgs@).take(i as int));
            assert(t.last() == msgs@[i as int]@);
        }
        match candidate {
            Some(s) => {
                let newer = match latest_reconciled {
                    None => true,
                    Some(last) => s.id > last,
                };
                if newer {
                    best = Some(s);
                }
            },
            None => {},
        }
        i = i + 1;
    }
    proof {
        assert(message_views(msgs@).take(msgs@.len() as int) =~= message_views(msgs@));
    }
    best
}

/// The snapshot to apply from the messages received on the reliable and
/// then the unreliable snapshot channel: the last one that decodes and is
/// newer than the last snapshot reconciled.
pub fn select_snapshot_to_process(
    reliable: &Vec<Vec<u8>>,
    unreliable: &Vec<Vec<u8>>,
    latest_reconciled: Option<u64>,
) -> (r: Option<Snapshot>)
    ensures
        match last_newer(message_views(reliable@) + message_views(unreliable@), latest_reconciled) {
            Some(v) => r matches Some(x) && x@ == v,
            None => r is None,
        },
{
    let first = scan_messages(reliable, latest_reconciled, None);
    let r = scan_messages(unreliable, latest_reconciled, first);
    proof {
        lemma_last_newer_concat(message_views(reliable@), message_views(unreliable@), latest_reconciled);
    }
    r
}

/// What applying a snapshot changes among the entities the client knows.
pub struct SnapshotPlan {
    /// The local player's id after the snapshot.
    pub local_player_id: u8,
    /// Known players, monsters and pickups that an absolute snapshot leaves
    /// out, to be despawned.
    pub despawn_players: Vec<u8>,
    pub despawn_monsters: Vec<u8>,
    pub despawn_pickups: Vec<u8>,
    /// Known players whose health the snapshot gives, with whether they are
    /// alive and shown.
    pub player_visibility: Vec<(u8, bool)>,
    /// Players, monsters and pickups new to the client, to be spawned.
    pub spawn_players: Vec<PlayerSnapshot>,
    pub spawn_monsters: Vec<MonsterSnapshot>,
    pub spawn_pickups: Vec<PickupSnapshot>,
}

/// The ids of `known` that `present` lacks, in the order of `known`.
pub open spec fn absent_ids(known: Seq<u8>, present: Seq<u8>) -> Seq<u8> {
    known.filter(|id: u8| !present.contains(id))
}

/// The players of a snapshot that the client does not know and that carry
/// a name.
pub open spec fn new_players(players: Seq<PlayerSnapshot>, known: Seq<u8>) -> Seq<PlayerSnapshot> {
    players.filter(|p: PlayerSnapshot| !known.contains(p.id) && p.name is Some)
}

/// The monsters of a snapshot that the client does not know and whose kind
/// is given.
pub open spec fn new_monsters(monsters: Seq<MonsterSnapshot>, known: Seq<u8>) -> Seq<MonsterSnapshot> {
    monsters.filter(|m: MonsterSnapshot| !known.contains(m.id) && m.kind is Some)
}

/// The pickups of a snapshot that the client does not know and whose kind
/// is given.
pub open spec fn new_pickups(pickups: Seq<PickupSnapshot>, known: Seq<u8>) -> Seq<PickupSnapshot> {
    pickups.filter(|p: PickupSnapshot| !known.contains(p.id) && p.kind is Some)
}

/// For each known player whose health the snapshot gives: its id and
/// whether the health is above zero.
pub open spec fn visibility(players: Seq<PlayerSnapshot>, known: Seq<u8>) -> Seq<(u8, bool)> {
    players.filter(|p: PlayerSnapshot| known.contains(p.id) && p.health is Some).map_values(
        |p: PlayerSnapshot| (p.id, p.health.unwrap() > 0),
    )
}

proof fn lemma_visibility_entry(players: Seq<PlayerSnapshot>, known: Seq<u8>, j: int)
    requires
        0 <= j < visibility(players, known).len(),
    ensures
        exists|i: int|
            0 <= i < players.len() && #[trigger] players[i].id == visibility(players, known)[j].0
                && known.contains(players[i].id) && players[i].health is Some
                && visibility(players, known)[j].1 == (players[i].health.unwrap() > 0),
{
    let keep = |p: PlayerSnapshot| known.contains(p.id) && p.health is Some;
    let f = |p: PlayerSnapshot| (p.id, p.health.unwrap() > 0);
    let fl = players.filter(keep);
    assert(visibility(players, known) == fl.map_values(f));
    players.lemma_filter_pred(keep, j);
    assert(fl.contains(fl[j]));
    players.lemma_filter_contains_rev(keep, fl[j]);
    let i = choose|i: int| 0 <= i < players.len() && players[i] == fl[j];
    assert(visibility(players, known)[j] == f(fl[j]));
    assert(players[i].id == visibility(players, known)[j].0);
}

/// A known player is shown exactly when it is alive: every entry of the
/// visibility list is a known player of the snapshot with a health, paired
/// with whether that health is above zero, and every such player has its
/// entry.
pub proof fn visibility_shows_the_living(players: Seq<PlayerSnapshot>, known: Seq<u8>)
    ensures
        forall|e: (u8, bool)|
            #[trigger] visibility(players, known).contains(e) ==> exists|i: int|
                0 <= i < players.len() && #[trigger] players[i].id == e.0 && known.contains(e.0)
                    && players[i].health is Some && e.1 == (players[i].health.unwrap() > 0),
        forall|i: int|
            0 <= i < players.len() && known.contains(#[trigger] players[i].id) && players[i].health is Some
                ==> visibility(players, known).contains((players[i].id, players[i].health.unwrap() > 0)),
{
    let keep = |p: PlayerSnapshot| known.contains(p.id) && p.health is Some;
    let f = |p: PlayerSnapshot| (p.id, p.health.unwrap() > 0);
    let fl = players.filter(keep);
    let v = fl.map_values(f);
    assert(visibility(players, known) == v);
    assert forall|e: (u8, bool)| #[trigger] visibility(players, known).contains(e) implies exists|i: int|
        0 <= i < players.len() && #[trigger] players[i].id == e.0 && known.contains(e.0) && players[i].health is Some
            && e.1 == (players[i].health.unwrap() > 0) by {
        let j = choose|j: int| 0 <= j < visibility(players, known).len() && visibility(players, known)[j] == e;
        lemma_visibility_entry(players, known, j);
    }
    assert forall|i: int|
        0 <= i < players.len() && known.contains(#[trigger] players[i].id) && players[i].health is Some implies v.contains(
            (players[i].id, players[i].health.unwrap() > 0),
        ) by {
        players.lemma_filter_contains(keep, i);
        let j = choose|j: int| 0 <= j < fl.len() && fl[j] == players[i];
        assert(v[j] == f(players[i]));
    }
}

/// Whether `id` occurs in `ids`.
fn contains_id(ids: &Vec<u8>, id: u8) -> (r: bool)
    ensures
        r == ids@.contains(id),
{
    let mut i: usize = 0;
    while i < ids.len()
        invariant
            i <= ids@.len(),
            forall|j: int| 0 <= j < i ==> ids@[j] != id,
        decreases ids@.len() - i,
    {
        if ids[i] == id {
            assert(ids@[i as int] == id);
            return true;
        }
        i = i + 1;
    }
    false
}

/// The ids of `known` that `present` lacks.
pub fn ids_absent(known: &Vec<u8>, present: &Vec<u8>) -> (r: Vec<u8>)
    ensures
        r@ == absent_ids(known@, present@),
{
    reveal(Seq::filter);
    let mut out: Vec<u8> = Vec::new();
    let mut i: usize = 0;
    while i < known.len()
        invariant
            i <= known@.len(),
            out@ == absent_ids(known@.take(i as int), present@),
        decreases known@.len() - i,
    {
        let id = known[i];
        if !contains_id(present, id) {
            out.push(id);
        }
        proof {
            reveal(Seq::filter);
            assert(known@.take(i + 1).drop_last() =~= known@.take(i as int));
            assert(known@.take(i + 1).last() == id);
        }
        i = i + 1;
    }
    assert(known@.take(known@.len() as int) =~= known@);
    out
}

impl Snapshot {
    /// The ids of the snapshot's players.
    pub fn player_ids(&self) -> (r: Vec<u8>)
        ensures
            r@ == self.players@.map_values(|p: PlayerSnapshot| p.id),
    {
        let mut out: Vec<u8> = Vec::new();
        let mut i: usize = 0;
        while i < self.players.len()
            invariant
                i <= self.players@.len(),
                out@ == self.players@.take(i as int).map_values(|p: PlayerSnapshot| p.id),
            decreases self.players@.len() - i,
        {
            out.push(self.players[i].id);
            i = i + 1;
            assert(out@ =~= self.players@.take(i as int).map_values(|p: PlayerSnapshot| p.id));
        }
        assert(self.players@.take(i as int) =~= self.players@);
        out
    }

    /// The ids of the snapshot's monsters.
    pub fn monster_ids(&self) -> (r: Vec<u8>)
        ensures
            r@ == self.monsters@.map_values(|m: MonsterSnapshot| m.id),
    {
        let mut out: Vec<u8> = Vec::new();
        let mut i: usize = 0;
        while i < self.monsters.len()
            invariant
                i <= self.monsters@.len(),
                out@ == self.monsters@.take(i as int).map_values(|m: MonsterSnapshot| m.id),
            decreases self.monsters@.len() - i,
        {
            out.push(self.monsters[i].id);
            i = i + 1;
            assert(out@ =~= self.monsters@.take(i as int).map_values(|m: MonsterSnapshot| m.id));
        }
        assert(self.monsters@.take(i as int) =~= self.monsters@);
        out
    }

    /// The ids of the snapshot's pickups.
    pub fn pickup_ids(&self) -> (r: Vec<u8>)
        ensures
            r@ == self.pickups@.map_values(|p: PickupSnapshot| p.id),
    {
        let mut out: Vec<u8> = Vec::new();
        let mut i: usize = 0;
        while i < self.pickups.len()
            invariant
                i <= self.pickups@.len(),
                out@ == self.pickups@.take(i as int).map_values(|p: PickupSnapshot| p.id),
            decreases self.pickups@.len() - i,
        {
            out.push(self.pickups[i].id);
            i = i + 1;
            assert(out@ =~= self.pickups@.take(i as int).map_values(|p: PickupSnapshot| p.id));
        }
        assert(self.pickups@.take(i as int) =~= self.pickups@);
        out
    }
}

/// The players of `players` to spawn: unknown and named.
fn players_to_spawn(players: &Vec<PlayerSnapshot>, known: &Vec<u8>) -> (r: Vec<PlayerSnapshot>)
    ensures
        r@ == new_players(players@, known@),
{
    reveal(Seq::filter);
    let mut out: Vec<PlayerSnapshot> = Vec::new();
    let mut i: usize = 0;
    while i < players.len()
        invariant
            i <= players@.len(),
            out@ == new_players(players@.take(i as int), known@),
        decreases players@.len() - i,
    {
        let p = players[i];
        if !contains_id(known, p.id) && p.name.is_some() {
            out.push(p);
        }
        proof {
            reveal(Seq::filter);
            assert(players@.take(i + 1).drop_last() =~= players@.take(i as int));
            assert(players@.take(i + 1).last() == p);
        }
        i = i + 1;
    }
    assert(players@.take(players@.len() as int) =~= players@);
    out
}

/// The monsters of `monsters` to spawn: unknown and of a given kind.
fn monsters_to_spawn(monsters: &Vec<MonsterSnapshot>, known: &Vec<u8>) -> (r: Vec<MonsterSnapshot>)
    ensures
        r@ == new_monsters(monsters@, known@),
{
    reveal(Seq::filter);
    let mut out: Vec<MonsterSnapshot> = Vec::new();
    let mut i: usize = 0;
    while i < monsters.len()
        invariant
            i <= monsters@.len(),
            out@ == new_monsters(monsters@.take(i as int), known@),
        decreases monsters@.len() - i,
    {
        let m = monsters[i];
        if !contains_id(known, m.id) && m.kind.is_some() {
            out.push(m);
        }
        proof {
            reveal(Seq::filter);
            assert(monsters@.take(i + 1).drop_last() =~= monsters@.take(i as int));
            assert(monsters@.take(i + 1).last() == m);
        }
        i = i + 1;
    }
    assert(monsters@.take(monsters@.len() as int) =~= monsters@);
    out
}

/// The pickups of `pickups` to spawn: unknown and of a given kind.
fn pickups_to_spawn(pickups: &Vec<PickupSnapshot>, known: &Vec<u8>) -> (r: Vec<PickupSnapshot>)
    ensures
        r@ == new_pickups(pickups@, known@),
{
    reveal(Seq::filter);
    let mut out: Vec<PickupSnapshot> = Vec::new();
    let mut i: usize = 0;
    while i < pickups.len()
        invariant
            i <= pickups@.len(),
            out@ == new_pickups(pickups@.take(i as int), known@),
        decreases pickups@.len() - i,
    {
        let p = pickups[i];
        if !contains_id(known, p.id) && p.kind.is_some() {
            out.push(p);
        }
        proof {
            reveal(Seq::filter);
            assert(pickups@.take(i + 1).drop_last() =~= pickups@.take(i as int));
            assert(pickups@.take(i + 1).last() == p);
        }
        i = i + 1;
    }
    assert(pickups@.take(pickups@.len() as int) =~= pickups@);
    out
}

/// Whether each known player with a given health is alive.
fn players_visibility(players: &Vec<PlayerSnapshot>, known: &Vec<u8>) -> (r: Vec<(u8, bool)>)
    ensures
        r@ == visibility(players@, known@),
{
    reveal(Seq::filter);
    let ghost keep = |p: PlayerSnapshot| known@.contains(p.id) && p.health is Some;
    let ghost f = |p: PlayerSnapshot| (p.id, p.health.unwrap() > 0);
    let mut out: Vec<(u8, bool)> = Vec::new();
    let mut i: usize = 0;
    while i < players.len()
        invariant
            i <= players@.len(),
            keep == (|p: PlayerSnapshot| known@.contains(p.id) && p.health is Some),
            f == (|p: PlayerSnapshot| (p.id, p.health.unwrap() > 0)),
            out@ == players@.take(i as int).filter(keep).map_values(f),
        decreases players@.len() - i,
    {
        let p = players[i];
        proof {
            reveal(Seq::filter);
            assert(players@.take(i + 1).drop_last() =~= players@.take(i as int));
            assert(players@.take(i + 1).last() == p);
        }
        if contains_id(known, p.id) {
            match p.health {
                Some(h) => {
                    out.push((p.id, h > 0));
                    assert(players@.take(i + 1).filter(keep) == players@.take(i as int).filter(keep).push(p));
                    assert(out@ =~= players@.take(i + 1).filter(keep).map_values(f));
                },
                None => {},
            }
        }
        i = i + 1;
    }
    assert(players@.take(players@.len() as int) =~= players@);
    out
}

/// What applying `snapshot` does, given the ids of the players, monsters
/// and pickups the client knows and its local player's id.
pub fn plan_snapshot(
    snapshot: &Snapshot,
    known_players: &Vec<u8>,
    known_monsters: &Vec<u8>,
    known_pickups: &Vec<u8>,
    local_player_id: u8,
) -> (r: SnapshotPlan)
    ensures
        r.local_player_id == match snapshot.local_player_id {
            Some(id) => id,
            None => local_player_id,
        },
        r.despawn_players@ == if snapshot.absolute {
            absent_ids(known_players@, snapshot.players@.map_values(|p: PlayerSnapshot| p.id))
        } else {
            Seq::empty()
        },
        r.despawn_monsters@ == if snapshot.absolute {
            absent_ids(known_monsters@, snapshot.monsters@.map_values(|m: MonsterSnapshot| m.id))
        } else {
            Seq::empty()
        },
        r.despawn_pickups@ == if snapshot.absolute {
            absent_ids(known_pickups@, snapshot.pickups@.map_values(|p: PickupSnapshot| p.id))
        } else {
            Seq::empty()
        },
        r.player_visibility@ == visibility(snapshot.players@, known_players@),
        r.spawn_players@ == new_players(snapshot.players@, known_players@),
        r.spawn_monsters@ == new_monsters(snapshot.monsters@, known_monsters@),
        r.spawn_pickups@ == new_pickups(snapshot.pickups@, known_pickups@),
{
    let id = match snapshot.local_player_id {
        Some(id) => id,
        None => local_player_id,
    };
    let (despawn_players, despawn_monsters, despawn_pickups) = if snapshot.absolute {
        (
            ids_absent(known_players, &snapshot.player_ids()),
            ids_absent(known_monsters, &snapshot.monster_ids()),
            ids_absent(known_pickups, &snapshot.pickup_ids()),
        )
    } else {
        (Vec::new(), Vec::new(), Vec::new())
    };
    SnapshotPlan {
        local_player_id: id,
        despawn_players,
        despawn_monsters,
        despawn_pickups,
        player_visibility: players_visibility(&snapshot.players, known_players),
        spawn_players: players_to_spawn(&snapshot.players, known_players),
        spawn_monsters: monsters_to_spawn(&snapshot.monsters, known_monsters),
        spawn_pickups: pickups_to_spawn(&snapshot.pickups, known_pickups),
    }
}

/// The position of the first saved input with the id of the last input the
/// server processed.
pub fn find_saved_input(input_ids: &Vec<u64>, last_processed: Option<u64>) -> (r: Option<usize>)
    ensures
        match last_processed {
            None => r is None,
            Some(last) => match r {
                Some(i) => i < input_ids@.len() && input_ids@[i as int] == last && forall|j: int|
                    0 <= j < i ==> input_ids@[j] != last,
                None => !input_ids@.contains(last),
            },
        },
{
    match last_processed {
        None => None,
        Some(last) => {
            let mut i: usize = 0;
            while i < input_ids.len()
                invariant
                    i <= input_ids@.len(),
                    last_processed == Some(last),
                    forall|j: int| 0 <= j < i ==> input_ids@[j] != last,
                decreases input_ids@.len() - i,
            {
                if input_ids[i] == last {
                    return Some(i);
                }
                i = i + 1;
            }
            None
        },
    }
}

/// The positions of the saved inputs to replay after a correction: those
/// from the last processed one on, by id.
pub fn inputs_to_replay(input_ids: &Vec<u64>, last_processed: u64) -> (r: Vec<usize>)
    ensures
        r@.len() <= input_ids@.len(),
        forall|k: int| 0 <= k < r@.len() ==> #[trigger] r@[k] < input_ids@.len() && input_ids@[r@[k] as int] >= last_processed,
        forall|k: int, l: int| 0 <= k < l < r@.len() ==> #[trigger] r@[k] < #[trigger] r@[l],
        forall|j: int| 0 <= j < input_ids@.len() && input_ids@[j] >= last_processed ==> #[trigger] r@.contains(j as usize),
{
    let mut out: Vec<usize> = Vec::new();
    let mut i: usize = 0;
    while i < input_ids.len()
        invariant
            i <= input_ids@.len(),
            out@.len() <= i,
            forall|k: int| 0 <= k < out@.len() ==> #[trigger] out@[k] < i && input_ids@[out@[k] as int] >= last_processed,
            forall|k: int, l: int| 0 <= k < l < out@.len() ==> #[trigger] out@[k] < #[trigger] out@[l],
            forall|j: int| 0 <= j < i && input_ids@[j] >= last_processed ==> #[trigger] out@.contains(j as usize),
        decreases input_ids@.len() - i,
    {
        let ghost before = out@;
        if input_ids[i] >= last_processed {
            out.push(i);
        }
        proof {
            assert forall|j: int| 0 <= j < i + 1 && input_ids@[j] >= last_processed implies #[trigger] out@.contains(j as usize) by {
                if j < i {
                    assert(before.contains(j as usize));
                    let k = choose|k: int| 0 <= k < before.len() && before[k] == j as usize;
                    assert(out@[k] == j as usize);
                } else {
                    assert(out@[out@.len() - 1] == j as usize);
                }
            }
        }
        i = i + 1;
    }
    out
}

/// `last` with every input of `inputs` not yet sent folded in, in order.
pub open spec fn merged_unsent(last: PlayerInput, inputs: Seq<PlayerInput>, sent: Seq<bool>) -> PlayerInput
    decreases inputs.len(),
{
    if inputs.len() == 0 {
        last
    } else {
        let earlier = merged_unsent(last, inputs.drop_last(), sent.drop_last());
        if sent.last() {
            earlier
        } else {
            merged_input(earlier, inputs.last())
        }
    }
}

/// The input to send: the latest one with the shots and weapon choices of
/// every saved input not sent yet folded in; all of them count as sent
/// afterwards.
pub fn merge_unsent_inputs(last: PlayerInput, inputs: &Vec<PlayerInput>, sent: &mut Vec<bool>) -> (r: PlayerInput)
    requires
        old(sent)@.len() == inputs@.len(),
    ensures
        r == merged_unsent(last, inputs@, old(sent)@),
        final(sent)@.len() == inputs@.len(),
        forall|i: int| 0 <= i < inputs@.len() ==> #[trigger] final(sent)@[i],
{
    let mut out = last;
    let mut i: usize = 0;
    while i < inputs.len()
        invariant
            i <= inputs@.len(),
            sent@.len() == inputs@.len(),
            old(sent)@.len() == inputs@.len(),
            forall|j: int| i <= j < inputs@.len() ==> sent@[j] == old(sent)@[j],
            forall|j: int| 0 <= j < i ==> #[trigger] sent@[j],
            out == merged_unsent(last, inputs@.take(i as int), old(sent)@.take(i as int)),
        decreases inputs@.len() - i,
    {
        proof {
            assert(inputs@.take(i + 1).drop_last() =~= inputs@.take(i as int));
            assert(old(sent)@.take(i + 1).drop_last() =~= old(sent)@.take(i as int));
        }
        if !sent[i] {
            out.merge_important_props(&inputs[i]);
            sent.set(i, true);
        }
        i = i + 1;
    }
    assert(inputs@.take(inputs@.len() as int) =~= inputs@);
    assert(old(sent)@.take(inputs@.len() as int) =~= old(sent)@);
    out
}

/// What a client keeps of the snapshots it reconciled: the id of the last
/// one, and the two states it draws between; the time of the last one is
/// kept by the game engine.
pub struct SnapshotInterpolation {
    pub latest_reconciled_snapshot_id: Option<u64>,
    pub lerp_from: Option<Snapshot>,
    pub lerp_to: Option<Snapshot>,
}

/// The despawns a snapshot's deletion lists ask for: players, then
/// monsters, then pickups, each list in order.
pub open spec fn deletion_events(s: SnapshotView) -> Seq<SpawnEvent> {
    s.player_deletions.map_values(|id: u8| SpawnEvent::DespawnPlayer(id)) + s.monster_deletions.map_values(
        |id: u8| SpawnEvent::DespawnMonster(id),
    ) + s.pickup_deletions.map_values(|id: u8| SpawnEvent::DespawnPickup(id))
}

/// Appends one event per id, made by `kind` (0 players, 1 monsters, 2
/// pickups).
fn push_despawns(out: &mut Vec<SpawnEvent>, ids: &Vec<u8>, kind: u8)
    requires
        kind <= 2,
    ensures
        final(out)@ == old(out)@ + ids@.map_values(|id: u8| despawn_of(kind, id)),
{
    let mut i: usize = 0;
    while i < ids.len()
        invariant
            i <= ids@.len(),
            out@ == old(out)@ + ids@.take(i as int).map_values(|id: u8| despawn_of(kind, id)),
        decreases ids@.len() - i,
    {
        let id = ids[i];
        let e = if kind == 0 {
            SpawnEvent::DespawnPlayer(id)
        } else if kind == 1 {
            SpawnEvent::DespawnMonster(id)
        } else {
            SpawnEvent::DespawnPickup(id)
        };
        out.push(e);
        i = i + 1;
        assert(out@ =~= old(out)@ + ids@.take(i as int).map_values(|id: u8| despawn_of(kind, id)));
    }
    assert(ids@.take(ids@.len() as int) =~= ids@);
}

/// The despawn of entity `id`: a player for 0, a monster for 1, a pickup
/// otherwise.
pub open spec fn despawn_of(kind: u8, id: u8) -> SpawnEvent {
    if kind == 0 {
        SpawnEvent::DespawnPlayer(id)
    } else if kind == 1 {
        SpawnEvent::DespawnMonster(id)
    } else {
        SpawnEvent::DespawnPickup(id)
    }
}

/// Takes in the snapshot messages received this frame: where one of them
/// is to be applied (see `select_snapshot_to_process`), it becomes the last
/// reconciled snapshot and the state to draw towards, the local player takes
/// the id it gives, and the despawns of its deletion lists are returned;
/// otherwise nothing changes.
pub fn receive_snapshots(
    reliable: &Vec<Vec<u8>>,
    unreliable: &Vec<Vec<u8>>,
    interpolation: &mut SnapshotInterpolation,
    local_player: &mut LocalPlayer,
) -> (r: Option<Vec<SpawnEvent>>)
    ensures
        final(local_player).client_id == old(local_player).client_id,
        final(interpolation).lerp_from == old(interpolation).lerp_from,
        match last_newer(
            message_views(reliable@) + message_views(unreliable@),
            old(interpolation).latest_reconciled_snapshot_id,
        ) {
            None => {
                &&& r is None
                &&& final(interpolation).latest_reconciled_snapshot_id == old(interpolation).latest_reconciled_snapshot_id
                &&& final(interpolation).lerp_to == old(interpolation).lerp_to
                &&& final(local_player).player_id == old(local_player).player_id
            },
            Some(v) => {
                &&& final(interpolation).latest_reconciled_snapshot_id == Some(v.id)
                &&& final(interpolation).lerp_to matches Some(s) && s@ == v
                &&& final(local_player).player_id == match v.local_player_id {
                    Some(id) => id,
                    None => old(local_player).player_id,
                }
                &&& r matches Some(events) && events@ == deletion_events(v)
            },
        },
{
    match select_snapshot_to_process(reliable, unreliable, interpolation.latest_reconciled_snapshot_id) {
        None => None,
        Some(snapshot) => {
            local_player.player_id = match snapshot.local_player_id {
                Some(id) => id,
                None => local_player.player_id,
            };
            interpolation.latest_reconciled_snapshot_id = Some(snapshot.id);
            let mut events: Vec<SpawnEvent> = Vec::new();
            push_despawns(&mut events, &snapshot.player_deletions, 0);
            push_despawns(&mut events, &snapshot.monster_deletions, 1);
            push_despawns(&mut events, &snapshot.pickup_deletions, 2);
            proof {
                assert(snapshot.player_deletions@.map_values(|id: u8| despawn_of(0, id))
                    =~= snapshot.player_deletions@.map_values(|id: u8| SpawnEvent::DespawnPlayer(id)));
                assert(snapshot.monster_deletions@.map_values(|id: u8| despawn_of(1, id))
                    =~= snapshot.monster_deletions@.map_values(|id: u8| SpawnEvent::DespawnMonster(id)));
                assert(snapshot.pickup_deletions@.map_values(|id: u8| despawn_of(2, id))
                    =~= snapshot.pickup_deletions@.map_values(|id: u8| SpawnEvent::DespawnPickup(id)));
                assert(events@ =~= deletion_events(snapshot@));
            }
            interpolation.lerp_to = Some(snapshot);
            Some(events)
        },
    }
}

/// Scanning two lists one after the other: the second decides unless it has
/// no newer snapshot.
proof fn lemma_last_newer_concat(a: Seq<Seq<u8>>, b: Seq<Seq<u8>>, latest_reconciled: Option<u64>)
    ensures
        last_newer(a + b, latest_reconciled) == match last_newer(b, latest_reconciled) {
            Some(v) => Some(v),
            None => last_newer(a, latest_reconciled),
        },
    decreases b.len(),
{
    if b.len() == 0 {
        assert(a + b =~= a);
    } else {
        assert((a + b).drop_last() =~= a + b.drop_last());
        assert((a + b).last() == b.last());
        lemma_last_newer_concat(a, b.drop_last(), latest_reconciled);
    }
}

} // verus!
