//! The server's record of recent snapshots.
use crate::bytes::push_bytes;
use crate::snapshot::{MonsterSnapshot, PickupSnapshot, PlayerSnapshot, Snapshot};
use crate::spawn::SpawnEvent;
use std::collections::BTreeMap;
use vstd::std_specs::btree::increasing_seq;
use vstd::std_specs::cmp::OrdSpec;
use vstd::prelude::*;

verus! {

/// Deletions gathered from the snapshots a client has not acknowledged yet.
pub struct BubbledUpDeletions {
    pub player_deletions: Vec<u8>,
    pub monster_deletions: Vec<u8>,
    pub pickup_deletions: Vec<u8>,
}

/// Snapshots the server has taken, keyed by their ids, and for each client
/// the id of the last snapshot it acknowledged.
pub struct SnapshotHistory {
    pub server_snapshots: BTreeMap<u64, Snapshot>,
    pub server_last_acked_snapshots: BTreeMap<u64, u64>,
}

/// `k` is the largest key of `m`.
pub open spec fn is_max_key<V>(m: Map<u64, V>, k: u64) -> bool {
    &&& m.contains_key(k)
    &&& forall|j: u64| #[trigger] m.contains_key(j) ==> j <= k
}

/// The largest key of `m`, if it has any.
fn max_key(m: &BTreeMap<u64, Snapshot>) -> (r: Option<u64>)
    ensures
        match r {
            None => m@.dom().is_empty(),
            Some(k) => is_max_key(m@, k),
        },
{
    broadcast use vstd::std_specs::btree::group_btree_axioms;
    let mut best: Option<u64> = None;
    for k in it: m.keys()
        invariant
            it.seq().unref().to_set() == m@.dom(),
            match best {
                None => it.index() == 0,
                Some(b) => {
                    &&& m@.contains_key(b)
                    &&& forall|i: int| 0 <= i < it.index() ==> *#[trigger] it.seq()[i] <= b
                },
            },
    {
        match best {
            None => { best = Some(*k); },
            Some(b) => {
                if *k > b {
                    best = Some(*k);
                }
            },
        }
    }
    best
}

/// `k` is the second largest key of `m`: exactly one key is larger.
pub open spec fn is_second_max_key<V>(m: Map<u64, V>, k: u64) -> bool {
    &&& m.contains_key(k)
    &&& exists|top: u64| #[trigger] m.contains_key(top) && k < top && is_max_key(m, top)
    &&& forall|j: u64, l: u64| #[trigger] m.contains_key(j) && #[trigger] m.contains_key(l) && k < j && k < l ==> j == l
}

/// The second largest key of `m`, if it has two keys.
fn second_max_key(m: &BTreeMap<u64, Snapshot>) -> (r: Option<u64>)
    ensures
        r is None ==> m@.dom().len() < 2,
        r matches Some(k) ==> is_second_max_key(m@, k),
{
    broadcast use vstd::std_specs::btree::group_btree_axioms;
    let mut top: Option<u64> = None;
    let mut second: Option<u64> = None;
    let ghost mut ks: Seq<u64> = Seq::empty();
    let ghost mut seen: int = 0;
    for k in it: m.keys()
        invariant
            seen == it.index(),
            ks == it.seq().unref().take(seen),
            seen == m@.dom().len() ==> ks.to_set() == m@.dom(),
            it.seq().unref().to_set() == m@.dom(),
            it.seq().len() == m@.dom().len(),
            it.seq().unref().no_duplicates(),
            match top {
                None => seen == 0 && second is None,
                Some(t) => {
                    &&& m@.contains_key(t)
                    &&& exists|i: int| 0 <= i < seen && #[trigger] ks[i] == t
                    &&& forall|i: int| 0 <= i < seen ==> #[trigger] ks[i] <= t
                    &&& match second {
                        None => seen == 1,
                        Some(s) => {
                            &&& s < t
                            &&& m@.contains_key(s)
                            &&& forall|i: int| 0 <= i < seen && #[trigger] ks[i] != t ==> ks[i] <= s
                        },
                    }
                },
            },
    {
        let ghost prev_top = top;
        proof {
            assert(it.seq().unref()[seen] == *k);
            assert(it.seq().unref().to_set().contains(*k));
            if let Some(t) = top {
                let j = choose|i: int| 0 <= i < seen && #[trigger] ks[i] == t;
                assert(it.seq().unref()[j] == t);
                assert(*k != t);
            }
        }
        match top {
            None => { top = Some(*k); },
            Some(t) => {
                if *k > t {
                    second = Some(t);
                    top = Some(*k);
                } else {
                    match second {
                        None => { second = Some(*k); },
                        Some(s) => {
                            if *k > s {
                                second = Some(*k);
                            }
                        },
                    }
                }
            },
        }
        proof {
            let prev = ks;
            ks = ks.push(*k);
            seen = seen + 1;
            assert(ks[seen - 1] == *k);
            if let (Some(t), Some(pt)) = (top, prev_top) {
                if t == pt {
                    let j = choose|i: int| 0 <= i < seen - 1 && #[trigger] prev[i] == t;
                    assert(ks[j] == t);
                }
            }
            assert(ks =~= it.seq().unref().take(seen));
            if seen == m@.dom().len() {
                assert(ks =~= it.seq().unref());
            }
        }
    }
    proof {
        if let (Some(t), Some(s)) = (top, second) {
            assert(seen == ks.len());
            assert forall|j: u64| #[trigger] m@.contains_key(j) implies j <= t && (j != t ==> j <= s) by {
                assert(ks.to_set().contains(j));
                let i = choose|i: int| 0 <= i < ks.len() && ks[i] == j;
                assert(ks[i] <= t);
            }
            assert(is_max_key(m@, t));
        }
    }
    second
}

/// `ks` lists the members of `s` in increasing order.
pub open spec fn lists_in_order(ks: Seq<u64>, s: Set<u64>) -> bool {
    &&& ks.to_set() == s
    &&& forall|i: int, j: int| 0 <= i < j < ks.len() ==> #[trigger] ks[i] < #[trigger] ks[j]
}

/// The members of a finite set of ids in increasing order.
pub open spec fn ids_in_order(s: Set<u64>) -> Seq<u64> {
    choose|ks: Seq<u64>| lists_in_order(ks, s)
}

/// A set has at most one listing in increasing order.
pub proof fn lemma_order_unique(a: Seq<u64>, b: Seq<u64>, s: Set<u64>)
    requires
        lists_in_order(a, s),
        lists_in_order(b, s),
    ensures
        a == b,
    decreases a.len(),
{
    if a.len() == 0 || b.len() == 0 {
        if a.len() > 0 {
            assert(a.to_set().contains(a[0]));
        }
        if b.len() > 0 {
            assert(b.to_set().contains(b[0]));
        }
        assert(a =~= b);
    } else {
        let x = a.last();
        let y = b.last();
        assert(a.to_set().contains(x));
        assert(b.to_set().contains(y));
        let i = choose|i: int| 0 <= i < b.len() && b[i] == x;
        let j = choose|j: int| 0 <= j < a.len() && a[j] == y;
        assert(x == y) by {
            if i < b.len() - 1 {
                assert(b[i] < b[b.len() - 1]);
            }
            if j < a.len() - 1 {
                assert(a[j] < a[a.len() - 1]);
            }
        }
        let s2 = s.remove(x);
        assert forall|z: u64| a.drop_last().to_set().contains(z) <==> s2.contains(z) by {
            if a.drop_last().to_set().contains(z) {
                let k = choose|k: int| 0 <= k < a.len() - 1 && a.drop_last()[k] == z;
                assert(a[k] < a[a.len() - 1]);
                assert(a.to_set().contains(a[k]));
            }
            if s2.contains(z) {
                assert(a.to_set().contains(z));
                let k = choose|k: int| 0 <= k < a.len() && a[k] == z;
                assert(a.drop_last()[k] == z);
            }
        }
        assert forall|z: u64| b.drop_last().to_set().contains(z) <==> s2.contains(z) by {
            if b.drop_last().to_set().contains(z) {
                let k = choose|k: int| 0 <= k < b.len() - 1 && b.drop_last()[k] == z;
                assert(b[k] < b[b.len() - 1]);
                assert(b.to_set().contains(b[k]));
            }
            if s2.contains(z) {
                assert(b.to_set().contains(z));
                let k = choose|k: int| 0 <= k < b.len() && b[k] == z;
                assert(b.drop_last()[k] == z);
            }
        }
        assert(a.drop_last().to_set() =~= s2);
        assert(b.drop_last().to_set() =~= s2);
        lemma_order_unique(a.drop_last(), b.drop_last(), s2);
        assert(a =~= a.drop_last().push(x));
        assert(b =~= b.drop_last().push(y));
    }
}

/// The deletions that `pick` takes from the snapshots listed in `ids`
/// whose ids are above `last`, in the order of `ids`.
pub open spec fn deletions_since(
    m: Map<u64, Snapshot>,
    ids: Seq<u64>,
    last: u64,
    pick: spec_fn(Snapshot) -> Seq<u8>,
) -> Seq<u8>
    decreases ids.len(),
{
    if ids.len() == 0 {
        Seq::empty()
    } else {
        let earlier = deletions_since(m, ids.drop_last(), last, pick);
        if ids.last() > last {
            earlier + pick(m[ids.last()])
        } else {
            earlier
        }
    }
}

/// The deletions that `pick` takes from every snapshot of `snapshots` newer
/// than the one `client` acknowledged last, oldest first; nothing for a
/// client that has acknowledged none.
pub open spec fn pending_deletions(
    snapshots: Map<u64, Snapshot>,
    acked: Map<u64, u64>,
    client: u64,
    pick: spec_fn(Snapshot) -> Seq<u8>,
) -> Seq<u8> {
    if acked.contains_key(client) {
        deletions_since(snapshots, ids_in_order(snapshots.dom()), acked[client], pick)
    } else {
        Seq::empty()
    }
}

/// The snapshots of `m` taken less than a second before `latest_id`.
pub open spec fn recent_snapshots(m: Map<u64, Snapshot>, latest_id: u64) -> Map<u64, Snapshot> {
    m.restrict(m.dom().filter(|k: u64| latest_id - k < 1000))
}

/// The player, monster and pickup deletions of the snapshots of `m` whose
/// ids are above `last`, oldest first.
fn deletions_after(m: &BTreeMap<u64, Snapshot>, last: u64) -> (r: BubbledUpDeletions)
    ensures
        r.player_deletions@ == deletions_since(m@, ids_in_order(m@.dom()), last, |s: Snapshot| s.player_deletions@),
        r.monster_deletions@ == deletions_since(m@, ids_in_order(m@.dom()), last, |s: Snapshot| s.monster_deletions@),
        r.pickup_deletions@ == deletions_since(m@, ids_in_order(m@.dom()), last, |s: Snapshot| s.pickup_deletions@),
{
    broadcast use vstd::std_specs::btree::group_btree_axioms;
    let ghost pick_p = |s: Snapshot| s.player_deletions@;
    let ghost pick_m = |s: Snapshot| s.monster_deletions@;
    let ghost pick_k = |s: Snapshot| s.pickup_deletions@;
    let mut players: Vec<u8> = Vec::new();
    let mut monsters: Vec<u8> = Vec::new();
    let mut pickups: Vec<u8> = Vec::new();
    let ghost mut ks: Seq<u64> = Seq::empty();
    let ghost mut seen: int = 0;
    proof {
        assert(m@.dom().finite());
        if m@.dom().len() == 0 {
            m@.dom().lemma_len0_is_empty();
            assert(Seq::<u64>::empty().to_set() =~= m@.dom());
        }
    }
    for k in it: m.keys()
        invariant
            seen == it.index(),
            ks == it.seq().unref().take(seen),
            it.seq().unref().to_set() == m@.dom(),
            it.seq().len() == m@.dom().len(),
            increasing_seq(it.seq()),
            seen == m@.dom().len() ==> lists_in_order(ks, m@.dom()),
            pick_p == |s: Snapshot| s.player_deletions@,
            pick_m == |s: Snapshot| s.monster_deletions@,
            pick_k == |s: Snapshot| s.pickup_deletions@,
            players@ == deletions_since(m@, ks, last, pick_p),
            monsters@ == deletions_since(m@, ks, last, pick_m),
            pickups@ == deletions_since(m@, ks, last, pick_k),
    {
        proof {
            assert(it.seq().unref()[seen] == *k);
            assert(it.seq().unref().to_set().contains(*k));
            assert(m@.contains_key(*k));
        }
        let ghost before_p = players@;
        let ghost before_m = monsters@;
        let ghost before_k = pickups@;
        if *k > last {
            match m.get(k) {
                Some(snap) => {
                    assert(m@[*k] == *snap);
                    push_bytes(&mut players, snap.player_deletions.as_slice());
                    push_bytes(&mut monsters, snap.monster_deletions.as_slice());
                    push_bytes(&mut pickups, snap.pickup_deletions.as_slice());
                },
                None => {},
            }
        }
        proof {
            let prev = ks;
            ks = ks.push(*k);
            seen = seen + 1;
            assert(ks.drop_last() =~= prev);
            assert(ks.last() == *k);
            assert(m@.contains_key(*k));
            assert(ks =~= it.seq().unref().take(seen));
            if seen == m@.dom().len() {
                assert(ks =~= it.seq().unref());
                lemma_increasing_keys(it.seq());
            }
        }
    }
    proof {
        lemma_order_unique(ks, ids_in_order(m@.dom()), m@.dom());
    }
    BubbledUpDeletions {
        player_deletions: players,
        monster_deletions: monsters,
        pickup_deletions: pickups,
    }
}

impl SnapshotHistory {
    /// An empty history.
    pub fn new() -> (h: SnapshotHistory)
        ensures
            h.server_snapshots@ == Map::<u64, Snapshot>::empty(),
            h.server_last_acked_snapshots@ == Map::<u64, u64>::empty(),
    {
        SnapshotHistory { server_snapshots: BTreeMap::new(), server_last_acked_snapshots: BTreeMap::new() }
    }

    /// The snapshot with the largest id.
    pub fn latest(&self) -> (r: Option<&Snapshot>)
        ensures
            r is None <==> self.server_snapshots@.dom().is_empty(),
            r matches Some(s) ==> exists|k: u64|
                #[trigger] is_max_key(self.server_snapshots@, k) && self.server_snapshots@[k] == *s,
    {
        broadcast use vstd::std_specs::btree::group_btree_axioms;
        match max_key(&self.server_snapshots) {
            None => None,
            Some(k) => {
                let r = self.server_snapshots.get(&k);
                proof {
                    if let Some(s) = r {
                        assert(is_max_key(self.server_snapshots@, k) && self.server_snapshots@[k] == *s);
                    }
                }
                r
            },
        }
    }

    /// The snapshot with the second largest id.
    pub fn second_latest(&self) -> (r: Option<&Snapshot>)
        ensures
            r is None <==> self.server_snapshots@.dom().len() < 2,
            r matches Some(s) ==> exists|k: u64|
                #[trigger] is_second_max_key(self.server_snapshots@, k) && self.server_snapshots@[k] == *s,
    {
        broadcast use vstd::std_specs::btree::group_btree_axioms;
        match second_max_key(&self.server_snapshots) {
            None => None,
            Some(k) => {
                let r = self.server_snapshots.get(&k);
                proof {
                    let m = self.server_snapshots@;
                    let top = choose|top: u64| #[trigger] m.contains_key(top) && k < top && is_max_key(m, top);
                    assert(m.dom().contains(k) && m.dom().contains(top));
                    assert(m.dom().len() >= 2) by {
                        assert(set![k, top].subset_of(m.dom()));
                        vstd::set_lib::lemma_len_subset(set![k, top], m.dom());
                    }
                    if let Some(s) = r {
                        assert(is_second_max_key(m, k) && m[k] == *s);
                    }
                }
                r
            },
        }
    }

    /// Forgets every snapshot and every acknowledgement.
    pub fn clear(&mut self)
        ensures
            final(self).server_snapshots@ == Map::<u64, Snapshot>::empty(),
            final(self).server_last_acked_snapshots@ == Map::<u64, u64>::empty(),
    {
        self.server_snapshots.clear();
        self.server_last_acked_snapshots.clear();
    }

    /// Drops the snapshots taken a second or more before `latest_snapshot`.
    pub fn clean_old_snapshots(&mut self, latest_snapshot: &Snapshot)
        requires
            forall|k: u64| #[trigger] old(self).server_snapshots@.contains_key(k) ==> k <= latest_snapshot.id,
        ensures
            final(self).server_snapshots@ == recent_snapshots(old(self).server_snapshots@, latest_snapshot.id),
            final(self).server_last_acked_snapshots@ == old(self).server_last_acked_snapshots@,
    {
        broadcast use vstd::std_specs::btree::group_btree_axioms;
        let latest = latest_snapshot.id;
        let ghost start = self.server_snapshots@;
        let mut doomed: Vec<u64> = Vec::new();
        for k in it: self.server_snapshots.keys()
            invariant
                it.seq().unref().to_set() == start.dom(),
                start == self.server_snapshots@,
                forall|k: u64| #[trigger] start.contains_key(k) ==> k <= latest,
                forall|i: int| 0 <= i < doomed.len() ==>
                    start.contains_key(#[trigger] doomed@[i]) && latest - doomed@[i] >= 1000,
                forall|i: int| 0 <= i < it.index() && latest - *it.seq()[i] >= 1000
                    ==> doomed@.contains(*#[trigger] it.seq()[i]),
        {
            proof {
                assert(it.seq().unref()[it.index()] == *k);
                assert(it.seq().unref().to_set().contains(*k));
            }
            let ghost before = doomed@;
            if latest - *k >= 1000 {
                doomed.push(*k);
            }
            proof {
                assert forall|x: u64| before.contains(x) implies doomed@.contains(x) by {
                    let j = choose|j: int| 0 <= j < before.len() && before[j] == x;
                    assert(doomed@[j] == x);
                }
                if latest - *k >= 1000 {
                    assert(doomed@[doomed@.len() - 1] == *k);
                }
            }
        }
        let ghost gone = doomed@.to_set();
        proof {
            assert forall|k: u64| start.contains_key(k) && latest - k >= 1000 implies gone.contains(k) by {
                assert(start.dom().contains(k));
            }
        }
        let mut i: usize = 0;
        while i < doomed.len()
            invariant
                i <= doomed.len(),
                gone == doomed@.to_set(),
                self.server_snapshots@ == start.remove_keys(doomed@.take(i as int).to_set()),
                self.server_last_acked_snapshots@ == old(self).server_last_acked_snapshots@,
            decreases doomed.len() - i,
        {
            let ghost before = self.server_snapshots@;
            self.server_snapshots.remove(&doomed[i]);
            proof {
                assert(doomed@.take(i + 1) =~= doomed@.take(i as int).push(doomed@[i as int]));
                doomed@.take(i as int).lemma_push_to_set_commute(doomed@[i as int]);
                assert(self.server_snapshots@ =~= start.remove_keys(doomed@.take(i + 1).to_set()));
            }
            i = i + 1;
        }
        proof {
            assert(doomed@.take(doomed@.len() as int) =~= doomed@);
            assert(self.server_snapshots@ =~= recent_snapshots(start, latest));
        }
    }

    /// Collects all deletions that have occurred since the last acknowledged
    /// snapshot of the given client.
    pub fn bubble_up_deletions(&self, client_id: &u64) -> (r: BubbledUpDeletions)
        ensures
            r.player_deletions@ == pending_deletions(self.server_snapshots@,
                self.server_last_acked_snapshots@, *client_id, |s: Snapshot| s.player_deletions@),
            r.monster_deletions@ == pending_deletions(self.server_snapshots@,
                self.server_last_acked_snapshots@, *client_id, |s: Snapshot| s.monster_deletions@),
            r.pickup_deletions@ == pending_deletions(self.server_snapshots@,
                self.server_last_acked_snapshots@, *client_id, |s: Snapshot| s.pickup_deletions@),
    {
        broadcast use vstd::std_specs::btree::group_btree_axioms;
        match self.server_last_acked_snapshots.get(client_id) {
            Some(last) => deletions_after(&self.server_snapshots, *last),
            None => BubbledUpDeletions {
                player_deletions: Vec::new(),
                monster_deletions: Vec::new(),
                pickup_deletions: Vec::new(),
            },
        }
    }

    /// Drops the snapshots a second older than `snapshot` and records it.
    pub fn record(&mut self, snapshot: Snapshot)
        requires
            forall|k: u64| #[trigger] old(self).server_snapshots@.contains_key(k) ==> k <= snapshot.id,
        ensures
            final(self).server_snapshots@
                == recent_snapshots(old(self).server_snapshots@, snapshot.id).insert(snapshot.id, snapshot),
            final(self).server_last_acked_snapshots@ == old(self).server_last_acked_snapshots@,
    {
        broadcast use vstd::std_specs::btree::group_btree_axioms;
        broadcast use vstd::laws_cmp::group_laws_cmp;
        self.clean_old_snapshots(&snapshot);
        self.server_snapshots.insert(snapshot.id, snapshot);
    }
}

/// The ids of the despawns among `events` of one kind (0 players, 1
/// monsters, 2 pickups), in order.
pub open spec fn despawned_ids(events: Seq<SpawnEvent>, kind: u8) -> Seq<u8>
    decreases events.len(),
{
    if events.len() == 0 {
        Seq::empty()
    } else {
        let earlier = despawned_ids(events.drop_last(), kind);
        match events.last() {
            SpawnEvent::DespawnPlayer(id) if kind == 0 => earlier.push(id),
            SpawnEvent::DespawnMonster(id) if kind == 1 => earlier.push(id),
            SpawnEvent::DespawnPickup(id) if kind == 2 => earlier.push(id),
            _ => earlier,
        }
    }
}

/// The ids of the despawns of one kind among `events`.
fn split_despawns(events: &Vec<SpawnEvent>, kind: u8) -> (r: Vec<u8>)
    ensures
        r@ == despawned_ids(events@, kind),
{
    let mut out: Vec<u8> = Vec::new();
    let mut i: usize = 0;
    while i < events.len()
        invariant
            i <= events@.len(),
            out@ == despawned_ids(events@.take(i as int), kind),
        decreases events@.len() - i,
    {
        proof {
            assert(events@.take(i + 1).drop_last() =~= events@.take(i as int));
        }
        match &events[i] {
            SpawnEvent::DespawnPlayer(id) => {
                if kind == 0 {
                    out.push(*id);
                }
            },
            SpawnEvent::DespawnMonster(id) => {
                if kind == 1 {
                    out.push(*id);
                }
            },
            SpawnEvent::DespawnPickup(id) => {
                if kind == 2 {
                    out.push(*id);
                }
            },
            _ => {},
        }
        i = i + 1;
    }
    assert(events@.take(events@.len() as int) =~= events@);
    out
}

impl SnapshotHistory {
    /// One tick of the server's snapshot taking: where this process runs
    /// the game, the snapshots a second older than `now` go, and a full
    /// snapshot with id `now` is recorded, holding the given records and the
    /// ids despawned this tick, split by kind; elsewhere nothing happens.
    pub fn take_snapshot(
        &mut self,
        has_authority: bool,
        now: u64,
        players: Vec<PlayerSnapshot>,
        monsters: Vec<MonsterSnapshot>,
        pickups: Vec<PickupSnapshot>,
        despawns: &Vec<SpawnEvent>,
    )
        requires
            has_authority ==> forall|k: u64| #[trigger] old(self).server_snapshots@.contains_key(k) ==> k <= now,
        ensures
            final(self).server_last_acked_snapshots@ == old(self).server_last_acked_snapshots@,
            !has_authority ==> final(self).server_snapshots@ == old(self).server_snapshots@,
            has_authority ==> {
                let m = final(self).server_snapshots@;
                let s = m[now];
                &&& m.dom() == recent_snapshots(old(self).server_snapshots@, now).dom().insert(now)
                &&& forall|k: u64| #[trigger] m.contains_key(k) && k != now ==> m[k] == old(self).server_snapshots@[k]
                &&& s.id == now
                &&& s.absolute
                &&& s.players@ == players@
                &&& s.monsters@ == monsters@
                &&& s.pickups@ == pickups@
                &&& s.local_player_id is None
                &&& s.local_last_processed_input_id is None
                &&& s.player_deletions@ == despawned_ids(despawns@, 0)
                &&& s.monster_deletions@ == despawned_ids(despawns@, 1)
                &&& s.pickup_deletions@ == despawned_ids(despawns@, 2)
            },
    {
        if !has_authority {
            return;
        }
        let snapshot = Snapshot {
            id: now,
            absolute: true,
            players,
            monsters,
            pickups,
            local_player_id: None,
            local_last_processed_input_id: None,
            player_deletions: split_despawns(despawns, 0),
            monster_deletions: split_despawns(despawns, 1),
            pickup_deletions: split_despawns(despawns, 2),
        };
        self.record(snapshot);
    }
}

/// After a snapshot is recorded, it is the latest one, and the history
/// holds only snapshots taken less than a second before it.
pub proof fn recorded_snapshot_is_latest(m: Map<u64, Snapshot>, snapshot: Snapshot)
    requires
        forall|k: u64| #[trigger] m.contains_key(k) ==> k <= snapshot.id,
    ensures
        is_max_key(recent_snapshots(m, snapshot.id).insert(snapshot.id, snapshot), snapshot.id),
        recent_snapshots(m, snapshot.id).insert(snapshot.id, snapshot)[snapshot.id] == snapshot,
        forall|k: u64| #[trigger] recent_snapshots(m, snapshot.id).insert(snapshot.id, snapshot).contains_key(k)
            ==> snapshot.id - k < 1000,
{
}

/// The keys of a map of `u64` come out of `keys` in increasing order.
pub(crate) proof fn lemma_increasing_keys(ks: Seq<&u64>)
    requires
        increasing_seq(ks),
    ensures
        forall|i: int, j: int| 0 <= i < j < ks.len() ==> *ks[i] < *ks[j],
{
    broadcast use vstd::laws_cmp::group_laws_cmp;
    broadcast use vstd::std_specs::btree::axiom_increasing_seq_meaning;

    assert(vstd::laws_cmp::obeys_cmp::<u64>());
    assert(vstd::laws_cmp::obeys_cmp::<&u64>());
    vstd::std_specs::btree::axiom_increasing_seq_meaning::<&u64>(ks);
    assert forall|i: int, j: int| 0 <= i < j < ks.len() implies *ks[i] < *ks[j] by {
        assert(OrdSpec::cmp_spec(&ks[i], &ks[j]) is Less);
        assert(OrdSpec::cmp_spec(ks[i], ks[j]) is Less);
    }
}

} // verus!
