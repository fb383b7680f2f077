//! Delta compression: what of a snapshot changed since an earlier one.
//!
//! A player's position is compared with a tolerance on its `f32`
//! components. That comparison is float arithmetic, which this crate leaves
//! to its caller: the diffing functions take it as a closure `moved` that
//! says whether a player went from one position to another.
use super::history::BubbledUpDeletions;
use super::{
    name_view, player_views, MonsterSnapshot, PickupSnapshot, PlayerSnapshot, PlayerSnapshotView, Snapshot,
    SnapshotView, Vec3Bits,
};
use vstd::prelude::*;

verus! {

/// `new` where it differs from `old`, `None` where it does not.
pub open spec fn changed<T>(new: Option<T>, old: Option<T>) -> Option<T> {
    if new != old {
        new
    } else {
        None
    }
}

/// The delta of one player record; `moved` is the verdict of the position
/// comparison, used when both records carry a position.
pub open spec fn player_diff(
    new: PlayerSnapshotView,
    old: PlayerSnapshotView,
    moved: bool,
) -> PlayerSnapshotView {
    PlayerSnapshotView {
        id: new.id,
        translation: if new.translation is Some {
            if old.translation is Some {
                if moved {
                    new.translation
                } else {
                    None
                }
            } else {
                new.translation
            }
        } else {
            None
        },
        rotation: changed(new.rotation, old.rotation),
        velocity: changed(new.velocity, old.velocity),
        frozen_amount: changed(new.frozen_amount, old.frozen_amount),
        health: changed(new.health, old.health),
        frags: changed(new.frags, old.frags),
        deaths: changed(new.deaths, old.deaths),
        score: changed(new.score, old.score),
        name: changed(new.name, old.name),
        team: changed(new.team, old.team),
        ping: changed(new.ping, old.ping),
        entity: None,
    }
}

/// A player delta that carries nothing.
pub open spec fn player_is_empty(p: PlayerSnapshotView) -> bool {
    &&& p.translation is None
    &&& p.rotation is None
    &&& p.velocity is None
    &&& p.health is None
    &&& p.frozen_amount is None
    &&& p.frags is None
    &&& p.deaths is None
    &&& p.score is None
    &&& p.name is None
    &&& p.team is None
    &&& p.ping is None
}

/// The delta of one monster record.
pub open spec fn monster_diff(new: MonsterSnapshot, old: MonsterSnapshot) -> MonsterSnapshot {
    MonsterSnapshot {
        id: new.id,
        kind: changed(new.kind, old.kind),
        translation: changed(new.translation, old.translation),
        rotation: changed(new.rotation, old.rotation),
        entity: None,
    }
}

/// A monster delta counts as empty when neither its position nor its kind
/// changed; a change of rotation alone is not sent.
pub open spec fn monster_is_empty(m: MonsterSnapshot) -> bool {
    m.translation is None && m.kind is None
}

/// The delta of one pickup record.
pub open spec fn pickup_diff(new: PickupSnapshot, old: PickupSnapshot) -> PickupSnapshot {
    PickupSnapshot {
        id: new.id,
        translation: changed(new.translation, old.translation),
        kind: changed(new.kind, old.kind),
    }
}

pub open spec fn pickup_is_empty(p: PickupSnapshot) -> bool {
    p.translation is None && p.kind is None
}

/// The first player of `old` with id `id`.
pub open spec fn find_player(old: Seq<PlayerSnapshotView>, id: u8) -> Option<PlayerSnapshotView>
    decreases old.len(),
{
    if old.len() == 0 {
        None
    } else if old[0].id == id {
        Some(old[0])
    } else {
        find_player(old.drop_first(), id)
    }
}

/// The first monster of `old` with id `id`.
pub open spec fn find_monster(old: Seq<MonsterSnapshot>, id: u8) -> Option<MonsterSnapshot>
    decreases old.len(),
{
    if old.len() == 0 {
        None
    } else if old[0].id == id {
        Some(old[0])
    } else {
        find_monster(old.drop_first(), id)
    }
}

/// The first pickup of `old` with id `id`.
pub open spec fn find_pickup(old: Seq<PickupSnapshot>, id: u8) -> Option<PickupSnapshot>
    decreases old.len(),
{
    if old.len() == 0 {
        None
    } else if old[0].id == id {
        Some(old[0])
    } else {
        find_pickup(old.drop_first(), id)
    }
}

/// What one new player contributes to the delta: nothing when it did not
/// change, its delta when it did, the whole record when it is new.
pub open spec fn player_entry(
    p: PlayerSnapshotView,
    old: Seq<PlayerSnapshotView>,
    moved: bool,
) -> Seq<PlayerSnapshotView> {
    match find_player(old, p.id) {
        Some(o) => if player_is_empty(player_diff(p, o, moved)) {
            Seq::empty()
        } else {
            seq![player_diff(p, o, moved)]
        },
        None => seq![p],
    }
}

/// The players of a delta, with `moved[i]` the verdict on `new[i]`'s
/// position.
pub open spec fn diff_players(
    new: Seq<PlayerSnapshotView>,
    old: Seq<PlayerSnapshotView>,
    moved: Seq<bool>,
) -> Seq<PlayerSnapshotView>
    decreases new.len(),
{
    if new.len() == 0 {
        Seq::empty()
    } else {
        diff_players(new.drop_last(), old, moved.take(new.len() - 1)) + player_entry(
            new.last(),
            old,
            moved[new.len() - 1],
        )
    }
}

pub open spec fn monster_entry(m: MonsterSnapshot, old: Seq<MonsterSnapshot>) -> Seq<
    MonsterSnapshot,
> {
    match find_monster(old, m.id) {
        Some(o) => if monster_is_empty(monster_diff(m, o)) {
            Seq::empty()
        } else {
            seq![monster_diff(m, o)]
        },
        None => seq![m],
    }
}

/// The monsters of a delta.
pub open spec fn diff_monsters(new: Seq<MonsterSnapshot>, old: Seq<MonsterSnapshot>) -> Seq<
    MonsterSnapshot,
>
    decreases new.len(),
{
    if new.len() == 0 {
        Seq::empty()
    } else {
        diff_monsters(new.drop_last(), old) + monster_entry(new.last(), old)
    }
}

pub open spec fn pickup_entry(p: PickupSnapshot, old: Seq<PickupSnapshot>) -> Seq<PickupSnapshot> {
    match find_pickup(old, p.id) {
        Some(o) => if pickup_is_empty(pickup_diff(p, o)) {
            Seq::empty()
        } else {
            seq![pickup_diff(p, o)]
        },
        None => seq![p],
    }
}

/// The pickups of a delta.
pub open spec fn diff_pickups(new: Seq<PickupSnapshot>, old: Seq<PickupSnapshot>) -> Seq<
    PickupSnapshot,
>
    decreases new.len(),
{
    if new.len() == 0 {
        Seq::empty()
    } else {
        diff_pickups(new.drop_last(), old) + pickup_entry(new.last(), old)
    }
}

/// Whether `moved` is a possible verdict on `new`'s position against the
/// position of its counterpart in `old`, when both have one.
pub open spec fn verdict_fits<F: Fn(Vec3Bits, Vec3Bits) -> bool>(
    f: F,
    new: PlayerSnapshotView,
    old: Seq<PlayerSnapshotView>,
    moved: bool,
) -> bool {
    match find_player(old, new.id) {
        Some(o) => (new.translation is Some && o.translation is Some) ==> call_ensures(
            f,
            (new.translation.unwrap(), o.translation.unwrap()),
            moved,
        ),
        None => true,
    }
}

/// The delta between two snapshots.
pub open spec fn snapshot_diff(new: SnapshotView, old: SnapshotView, moved: Seq<bool>) -> SnapshotView {
    SnapshotView {
        id: new.id,
        absolute: false,
        players: diff_players(new.players, old.players, moved),
        monsters: diff_monsters(new.monsters, old.monsters),
        pickups: diff_pickups(new.pickups, old.pickups),
        local_player_id: changed(new.local_player_id, old.local_player_id),
        local_last_processed_input_id: changed(
            new.local_last_processed_input_id,
            old.local_last_processed_input_id,
        ),
        player_deletions: Seq::empty(),
        monster_deletions: Seq::empty(),
        pickup_deletions: Seq::empty(),
    }
}

fn names_differ(a: Option<[u8; 32]>, b: Option<[u8; 32]>) -> (r: bool)
    ensures
        r == (name_view(a) != name_view(b)),
{
    match a {
        Some(x) => match b {
            Some(y) => {
                let mut i: usize = 0;
                while i < 32
                    invariant
                        i <= 32,
                        a == Some(x),
                        b == Some(y),
                        x@.len() == 32,
                        y@.len() == 32,
                        forall|j: int| 0 <= j < i ==> x@[j] == y@[j],
                    decreases 32 - i,
                {
                    if x[i] != y[i] {
                        assert(x@[i as int] != y@[i as int]);
                        assert(x@ != y@);
                        return true;
                    }
                    i = i + 1;
                }
                assert(x@ =~= y@);
                false
            },
            None => true,
        },
        None => b.is_some(),
    }
}

impl PlayerSnapshot {
    /// The player's id widened to the common id type of all records.
    pub fn id_u64(&self) -> (r: u64)
        ensures
            r == self.id as u64,
    {
        self.id as u64
    }

    /// Whether this delta carries nothing.
    pub fn is_empty(&self) -> (r: bool)
        ensures
            r == player_is_empty(self@),
    {
        self.translation.is_none() && self.rotation.is_none() && self.velocity.is_none()
            && self.health.is_none() && self.frozen_amount.is_none() && self.frags.is_none()
            && self.deaths.is_none() && self.score.is_none() && self.name.is_none()
            && self.team.is_none() && self.ping.is_none()
    }

    /// What changed since `old`. The position is sent when `old` had none,
    /// or when `moved` says the player moved from `old`'s position.
    pub fn diff<F: Fn(Vec3Bits, Vec3Bits) -> bool>(&self, old: &PlayerSnapshot, moved: &F) -> (r:
        PlayerSnapshot)
        requires
            forall|a: Vec3Bits, b: Vec3Bits| moved.requires((a, b)),
        ensures
            exists|m: bool|
                #![trigger player_diff(self@, old@, m)]
                {
                    &&& r@ == player_diff(self@, old@, m)
                    &&& (self.translation is Some && old.translation is Some) ==> call_ensures(
                        *moved,
                        (self.translation.unwrap(), old.translation.unwrap()),
                        m,
                    )
                },
    {
        let mut went = false;
        let translation = match self.translation {
            Some(a) => match old.translation {
                Some(b) => {
                    went = moved(a, b);
                    if went {
                        self.translation
                    } else {
                        None
                    }
                },
                None => self.translation,
            },
            None => None,
        };
        let r = PlayerSnapshot {
            id: self.id,
            translation,
            rotation: if self.rotation != old.rotation {
                self.rotation
            } else {
                None
            },
            velocity: if self.velocity != old.velocity {
                self.velocity
            } else {
                None
            },
            health: if self.health != old.health {
                self.health
            } else {
                None
            },
            frozen_amount: if self.frozen_amount != old.frozen_amount {
                self.frozen_amount
            } else {
                None
            },
            frags: if self.frags != old.frags {
                self.frags
            } else {
                None
            },
            deaths: if self.deaths != old.deaths {
                self.deaths
            } else {
                None
            },
            score: if self.score != old.score {
                self.score
            } else {
                None
            },
            name: if names_differ(self.name, old.name) {
                self.name
            } else {
                None
            },
            team: if self.team != old.team {
                self.team
            } else {
                None
            },
            ping: if self.ping != old.ping {
                self.ping
            } else {
                None
            },
            entity: None,
        };
        assert(r@ == player_diff(self@, old@, went));
        r
    }
}

impl MonsterSnapshot {
    pub fn id_u64(&self) -> (r: u64)
        ensures
            r == self.id as u64,
    {
        self.id as u64
    }

    /// Whether this delta counts as empty: no new position and no new kind.
    pub fn is_empty(&self) -> (r: bool)
        ensures
            r == monster_is_empty(*self),
    {
        self.translation.is_none() && self.kind.is_none()
    }

    /// What changed since `old`.
    pub fn diff(&self, old: &MonsterSnapshot) -> (r: MonsterSnapshot)
        ensures
            r == monster_diff(*self, *old),
    {
        MonsterSnapshot {
            id: self.id,
            kind: if self.kind != old.kind {
                self.kind
            } else {
                None
            },
            translation: if self.translation != old.translation {
                self.translation
            } else {
                None
            },
            rotation: if self.rotation != old.rotation {
                self.rotation
            } else {
                None
            },
            entity: None,
        }
    }
}

impl PickupSnapshot {
    pub fn id_u64(&self) -> (r: u64)
        ensures
            r == self.id as u64,
    {
        self.id as u64
    }

    /// Whether this delta carries nothing.
    pub fn is_empty(&self) -> (r: bool)
        ensures
            r == pickup_is_empty(*self),
    {
        self.translation.is_none() && self.kind.is_none()
    }

    /// What changed since `old`.
    pub fn diff(&self, old: &PickupSnapshot) -> (r: PickupSnapshot)
        ensures
            r == pickup_diff(*self, *old),
    {
        PickupSnapshot {
            id: self.id,
            translation: if self.translation != old.translation {
                self.translation
            } else {
                None
            },
            kind: if self.kind != old.kind {
                self.kind
            } else {
                None
            },
        }
    }
}

proof fn lemma_find_player(s: Seq<PlayerSnapshotView>, id: u8, j: int)
    requires
        0 <= j <= s.len(),
        forall|k: int| 0 <= k < j ==> #[trigger] s[k].id != id,
        j < s.len() ==> s[j].id == id,
    ensures
        find_player(s, id) == if j < s.len() {
            Some(s[j])
        } else {
            None
        },
    decreases j,
{
    if j > 0 {
        let t = s.drop_first();
        assert forall|k: int| 0 <= k < j - 1 implies #[trigger] t[k].id != id by {
            assert(t[k] == s[k + 1]);
        }
        assert(s[0].id != id);
        lemma_find_player(t, id, j - 1);
    }
}

proof fn lemma_find_monster(s: Seq<MonsterSnapshot>, id: u8, j: int)
    requires
        0 <= j <= s.len(),
        forall|k: int| 0 <= k < j ==> #[trigger] s[k].id != id,
        j < s.len() ==> s[j].id == id,
    ensures
        find_monster(s, id) == if j < s.len() {
            Some(s[j])
        } else {
            None
        },
    decreases j,
{
    if j > 0 {
        let t = s.drop_first();
        assert forall|k: int| 0 <= k < j - 1 implies #[trigger] t[k].id != id by {
            assert(t[k] == s[k + 1]);
        }
        assert(s[0].id != id);
        lemma_find_monster(t, id, j - 1);
    }
}

proof fn lemma_find_pickup(s: Seq<PickupSnapshot>, id: u8, j: int)
    requires
        0 <= j <= s.len(),
        forall|k: int| 0 <= k < j ==> #[trigger] s[k].id != id,
        j < s.len() ==> s[j].id == id,
    ensures
        find_pickup(s, id) == if j < s.len() {
            Some(s[j])
        } else {
            None
        },
    decreases j,
{
    if j > 0 {
        let t = s.drop_first();
        assert forall|k: int| 0 <= k < j - 1 implies #[trigger] t[k].id != id by {
            assert(t[k] == s[k + 1]);
        }
        assert(s[0].id != id);
        lemma_find_pickup(t, id, j - 1);
    }
}

fn position_of_player(old: &Vec<PlayerSnapshot>, id: u8) -> (r: Option<usize>)
    ensures
        match r {
            Some(j) => j < old@.len() && find_player(player_views(old@), id) == Some(old@[j as int]@),
            None => find_player(player_views(old@), id) is None,
        },
{
    let ghost v = player_views(old@);
    let mut j: usize = 0;
    while j < old.len()
        invariant
            j <= old@.len(),
            v == player_views(old@),
            forall|k: int| 0 <= k < j ==> #[trigger] v[k].id != id,
        decreases old@.len() - j,
    {
        if old[j].id == id {
            proof {
                lemma_find_player(v, id, j as int);
            }
            return Some(j);
        }
        j = j + 1;
    }
    proof {
        lemma_find_player(v, id, j as int);
    }
    None
}

fn position_of_monster(old: &Vec<MonsterSnapshot>, id: u8) -> (r: Option<usize>)
    ensures
        match r {
            Some(j) => j < old@.len() && find_monster(old@, id) == Some(old@[j as int]),
            None => find_monster(old@, id) is None,
        },
{
    let mut j: usize = 0;
    while j < old.len()
        invariant
            j <= old@.len(),
            forall|k: int| 0 <= k < j ==> #[trigger] old@[k].id != id,
        decreases old@.len() - j,
    {
        if old[j].id == id {
            proof {
                lemma_find_monster(old@, id, j as int);
            }
            return Some(j);
        }
        j = j + 1;
    }
    proof {
        lemma_find_monster(old@, id, j as int);
    }
    None
}

fn position_of_pickup(old: &Vec<PickupSnapshot>, id: u8) -> (r: Option<usize>)
    ensures
        match r {
            Some(j) => j < old@.len() && find_pickup(old@, id) == Some(old@[j as int]),
            None => find_pickup(old@, id) is None,
        },
{
    let mut j: usize = 0;
    while j < old.len()
        invariant
            j <= old@.len(),
            forall|k: int| 0 <= k < j ==> #[trigger] old@[k].id != id,
        decreases old@.len() - j,
    {
        if old[j].id == id {
            proof {
                lemma_find_pickup(old@, id, j as int);
            }
            return Some(j);
        }
        j = j + 1;
    }
    proof {
        lemma_find_pickup(old@, id, j as int);
    }
    None
}

/// The players of the delta between `new` and `old`: each new player that
/// `old` lacks whole, each one that changed as its delta, in the order of
/// `new`.
pub fn diff_nested_players<F: Fn(Vec3Bits, Vec3Bits) -> bool>(
    new: &Vec<PlayerSnapshot>,
    old: &Vec<PlayerSnapshot>,
    moved: &F,
) -> (r: Vec<PlayerSnapshot>)
    requires
        forall|a: Vec3Bits, b: Vec3Bits| moved.requires((a, b)),
    ensures
        exists|ms: Seq<bool>|
            #![trigger diff_players(player_views(new@), player_views(old@), ms)]
            {
                &&& ms.len() == new@.len()
                &&& forall|i: int|
                    0 <= i < new@.len() ==> verdict_fits(
                        *moved,
                        #[trigger] player_views(new@)[i],
                        player_views(old@),
                        ms[i],
                    )
                &&& player_views(r@) == diff_players(player_views(new@), player_views(old@), ms)
            },
{
    let ghost nv = player_views(new@);
    let ghost ov = player_views(old@);
    let ghost mut ms: Seq<bool> = Seq::empty();
    let mut out: Vec<PlayerSnapshot> = Vec::new();
    let mut i: usize = 0;
    assert(nv.take(0) =~= Seq::<PlayerSnapshotView>::empty());
    assert(player_views(out@) =~= Seq::<PlayerSnapshotView>::empty());
    while i < new.len()
        invariant
            i <= new@.len(),
            nv == player_views(new@),
            ov == player_views(old@),
            forall|a: Vec3Bits, b: Vec3Bits| moved.requires((a, b)),
            ms.len() == i,
            forall|k: int| 0 <= k < i ==> verdict_fits(*moved, #[trigger] nv[k], ov, ms[k]),
            player_views(out@) == diff_players(nv.take(i as int), ov, ms),
        decreases new@.len() - i,
    {
        let ghost before = player_views(out@);
        let item = new[i];
        let ghost mut m: bool = false;
        match position_of_player(old, item.id) {
            Some(j) => {
                let d = item.diff(&old[j], moved);
                proof {
                    m = choose|m: bool|
                        {
                            &&& d@ == player_diff(item@, old@[j as int]@, m)
                            &&& (item.translation is Some && old@[j as int].translation is Some)
                                ==> call_ensures(
                                *moved,
                                (item.translation.unwrap(), old@[j as int].translation.unwrap()),
                                m,
                            )
                        };
                }
                if !d.is_empty() {
                    out.push(d);
                }
            },
            None => {
                out.push(item);
            },
        }
        proof {
            assert(nv[i as int] == item@);
            assert(player_views(out@) =~= before + player_entry(item@, ov, m));
            let t = nv.take(i + 1);
            assert(t.drop_last() =~= nv.take(i as int));
            assert(ms.push(m).take(i as int) =~= ms);
            ms = ms.push(m);
        }
        i = i + 1;
    }
    assert(nv.take(new@.len() as int) =~= nv);
    out
}

/// The monsters of the delta between `new` and `old`.
pub fn diff_nested_monsters(new: &Vec<MonsterSnapshot>, old: &Vec<MonsterSnapshot>) -> (r: Vec<
    MonsterSnapshot,
>)
    ensures
        r@ == diff_monsters(new@, old@),
{
    let mut out: Vec<MonsterSnapshot> = Vec::new();
    let mut i: usize = 0;
    assert(new@.take(0) =~= Seq::<MonsterSnapshot>::empty());
    while i < new.len()
        invariant
            i <= new@.len(),
            out@ == diff_monsters(new@.take(i as int), old@),
        decreases new@.len() - i,
    {
        let ghost before = out@;
        let item = new[i];
        match position_of_monster(old, item.id) {
            Some(j) => {
                let d = item.diff(&old[j]);
                if !d.is_empty() {
                    out.push(d);
                }
            },
            None => {
                out.push(item);
            },
        }
        proof {
            assert(out@ =~= before + monster_entry(item, old@));
            assert(new@.take(i + 1).drop_last() =~= new@.take(i as int));
        }
        i = i + 1;
    }
    assert(new@.take(new@.len() as int) =~= new@);
    out
}

/// The pickups of the delta between `new` and `old`.
pub fn diff_nested_pickups(new: &Vec<PickupSnapshot>, old: &Vec<PickupSnapshot>) -> (r: Vec<
    PickupSnapshot,
>)
    ensures
        r@ == diff_pickups(new@, old@),
{
    let mut out: Vec<PickupSnapshot> = Vec::new();
    let mut i: usize = 0;
    assert(new@.take(0) =~= Seq::<PickupSnapshot>::empty());
    while i < new.len()
        invariant
            i <= new@.len(),
            out@ == diff_pickups(new@.take(i as int), old@),
        decreases new@.len() - i,
    {
        let ghost before = out@;
        let item = new[i];
        match position_of_pickup(old, item.id) {
            Some(j) => {
                let d = item.diff(&old[j]);
                if !d.is_empty() {
                    out.push(d);
                }
            },
            None => {
                out.push(item);
            },
        }
        proof {
            assert(out@ =~= before + pickup_entry(item, old@));
            assert(new@.take(i + 1).drop_last() =~= new@.take(i as int));
        }
        i = i + 1;
    }
    assert(new@.take(new@.len() as int) =~= new@);
    out
}

impl Snapshot {
    pub fn id_u64(&self) -> (r: u64)
        ensures
            r == self.id,
    {
        self.id
    }

    /// A whole snapshot never counts as empty.
    pub fn is_empty(&self) -> (r: bool)
        ensures
            !r,
    {
        false
    }

    /// The delta from `old` to this snapshot; `moved` says whether a player
    /// moved between two positions. The delta carries no deletions.
    pub fn diff<F: Fn(Vec3Bits, Vec3Bits) -> bool>(&self, old: &Snapshot, moved: &F) -> (r:
        Snapshot)
        requires
            forall|a: Vec3Bits, b: Vec3Bits| moved.requires((a, b)),
        ensures
            exists|ms: Seq<bool>|
                #![trigger snapshot_diff(self@, old@, ms)]
                {
                    &&& ms.len() == self.players@.len()
                    &&& forall|i: int|
                        0 <= i < self.players@.len() ==> verdict_fits(
                            *moved,
                            #[trigger] self@.players[i],
                            old@.players,
                            ms[i],
                        )
                    &&& r@ == snapshot_diff(self@, old@, ms)
                },
    {
        let players = diff_nested_players(&self.players, &old.players, moved);
        let ghost ms = choose|ms: Seq<bool>|
            {
                &&& ms.len() == self.players@.len()
                &&& forall|i: int|
                    0 <= i < self.players@.len() ==> verdict_fits(
                        *moved,
                        #[trigger] player_views(self.players@)[i],
                        player_views(old.players@),
                        ms[i],
                    )
                &&& player_views(players@) == diff_players(
                    player_views(self.players@),
                    player_views(old.players@),
                    ms,
                )
            };
        let r = Snapshot {
            id: self.id,
            absolute: false,
            players,
            monsters: diff_nested_monsters(&self.monsters, &old.monsters),
            pickups: diff_nested_pickups(&self.pickups, &old.pickups),
            local_player_id: if old.local_player_id != self.local_player_id {
                self.local_player_id
            } else {
                None
            },
            local_last_processed_input_id: if old.local_last_processed_input_id
                != self.local_last_processed_input_id {
                self.local_last_processed_input_id
            } else {
                None
            },
            player_deletions: Vec::new(),
            monster_deletions: Vec::new(),
            pickup_deletions: Vec::new(),
        };
        assert(r@.player_deletions =~= Seq::<u8>::empty());
        assert(r@.monster_deletions =~= Seq::<u8>::empty());
        assert(r@.pickup_deletions =~= Seq::<u8>::empty());
        assert(r@ == snapshot_diff(self@, old@, ms));
        r
    }

    /// The delta from `old` to `new`, carrying the deletions gathered since
    /// the client's last acknowledged snapshot.
    pub fn diff_snapshots<F: Fn(Vec3Bits, Vec3Bits) -> bool>(
        new: &Snapshot,
        old: &Snapshot,
        deletions: &BubbledUpDeletions,
        moved: &F,
    ) -> (r: Snapshot)
        requires
            forall|a: Vec3Bits, b: Vec3Bits| moved.requires((a, b)),
        ensures
            exists|ms: Seq<bool>|
                #![trigger snapshot_diff(new@, old@, ms)]
                {
                    &&& ms.len() == new.players@.len()
                    &&& forall|i: int|
                        0 <= i < new.players@.len() ==> verdict_fits(
                            *moved,
                            #[trigger] new@.players[i],
                            old@.players,
                            ms[i],
                        )
                    &&& r@ == SnapshotView {
                        player_deletions: deletions.player_deletions@,
                        monster_deletions: deletions.monster_deletions@,
                        pickup_deletions: deletions.pickup_deletions@,
                        ..snapshot_diff(new@, old@, ms)
                    }
                },
    {
        let mut out = new.diff(old, moved);
        out.player_deletions = deletions.player_deletions.clone();
        out.monster_deletions = deletions.monster_deletions.clone();
        out.pickup_deletions = deletions.pickup_deletions.clone();
        out
    }
}

/// No two players share an id.
pub open spec fn unique_player_ids(s: Seq<PlayerSnapshotView>) -> bool {
    forall|i: int, j: int| 0 <= i < s.len() && 0 <= j < s.len() && i != j ==> s[i].id != s[j].id
}

/// No two monsters share an id.
pub open spec fn unique_monster_ids(s: Seq<MonsterSnapshot>) -> bool {
    forall|i: int, j: int| 0 <= i < s.len() && 0 <= j < s.len() && i != j ==> s[i].id != s[j].id
}

/// No two pickups share an id.
pub open spec fn unique_pickup_ids(s: Seq<PickupSnapshot>) -> bool {
    forall|i: int, j: int| 0 <= i < s.len() && 0 <= j < s.len() && i != j ==> s[i].id != s[j].id
}

proof fn lemma_players_against_nothing(new: Seq<PlayerSnapshotView>, ms: Seq<bool>)
    ensures
        diff_players(new, Seq::empty(), ms) == new,
    decreases new.len(),
{
    if new.len() > 0 {
        lemma_players_against_nothing(new.drop_last(), ms.take(new.len() - 1));
        assert(new =~= new.drop_last() + seq![new.last()]);
    } else {
        assert(new =~= Seq::<PlayerSnapshotView>::empty());
    }
}

proof fn lemma_monsters_against_nothing(new: Seq<MonsterSnapshot>)
    ensures
        diff_monsters(new, Seq::empty()) == new,
    decreases new.len(),
{
    if new.len() > 0 {
        lemma_monsters_against_nothing(new.drop_last());
        assert(new =~= new.drop_last() + seq![new.last()]);
    } else {
        assert(new =~= Seq::<MonsterSnapshot>::empty());
    }
}

proof fn lemma_pickups_against_nothing(new: Seq<PickupSnapshot>)
    ensures
        diff_pickups(new, Seq::empty()) == new,
    decreases new.len(),
{
    if new.len() > 0 {
        lemma_pickups_against_nothing(new.drop_last());
        assert(new =~= new.drop_last() + seq![new.last()]);
    } else {
        assert(new =~= Seq::<PickupSnapshot>::empty());
    }
}

/// Against a snapshot without players, monsters and pickups, a delta sends
/// every player, monster and pickup whole.
pub proof fn diff_against_empty_sends_everything(new: SnapshotView, old: SnapshotView, ms: Seq<bool>)
    requires
        old.players.len() == 0,
        old.monsters.len() == 0,
        old.pickups.len() == 0,
    ensures
        snapshot_diff(new, old, ms).players == new.players,
        snapshot_diff(new, old, ms).monsters == new.monsters,
        snapshot_diff(new, old, ms).pickups == new.pickups,
{
    assert(old.players =~= Seq::<PlayerSnapshotView>::empty());
    assert(old.monsters =~= Seq::<MonsterSnapshot>::empty());
    assert(old.pickups =~= Seq::<PickupSnapshot>::empty());
    lemma_players_against_nothing(new.players, ms);
    lemma_monsters_against_nothing(new.monsters);
    lemma_pickups_against_nothing(new.pickups);
}

proof fn lemma_players_unchanged(new: Seq<PlayerSnapshotView>, old: Seq<PlayerSnapshotView>, ms: Seq<bool>)
    requires
        ms.len() == new.len(),
        forall|i: int| 0 <= i < new.len() ==> find_player(old, #[trigger] new[i].id) == Some(new[i]),
        forall|i: int| 0 <= i < ms.len() ==> !#[trigger] ms[i],
    ensures
        diff_players(new, old, ms) == Seq::<PlayerSnapshotView>::empty(),
    decreases new.len(),
{
    if new.len() > 0 {
        let n = new.len() - 1;
        assert(find_player(old, new[n].id) == Some(new[n]));
        assert(!ms[n]);
        let init = new.drop_last();
        let mi = ms.take(n);
        assert forall|i: int| 0 <= i < init.len() implies find_player(old, #[trigger] init[i].id)
            == Some(init[i]) by {
            assert(init[i] == new[i]);
            assert(find_player(old, new[i].id) == Some(new[i]));
        }
        assert forall|i: int| 0 <= i < mi.len() implies !#[trigger] mi[i] by {
            assert(mi[i] == ms[i]);
        }
        lemma_players_unchanged(init, old, mi);
        assert(player_is_empty(player_diff(new[n], new[n], false)));
    }
}

proof fn lemma_monsters_unchanged(new: Seq<MonsterSnapshot>, old: Seq<MonsterSnapshot>)
    requires
        forall|i: int| 0 <= i < new.len() ==> find_monster(old, #[trigger] new[i].id) == Some(new[i]),
    ensures
        diff_monsters(new, old) == Seq::<MonsterSnapshot>::empty(),
    decreases new.len(),
{
    if new.len() > 0 {
        let n = new.len() - 1;
        assert(find_monster(old, new[n].id) == Some(new[n]));
        let init = new.drop_last();
        assert forall|i: int| 0 <= i < init.len() implies find_monster(old, #[trigger] init[i].id)
            == Some(init[i]) by {
            assert(init[i] == new[i]);
            assert(find_monster(old, new[i].id) == Some(new[i]));
        }
        lemma_monsters_unchanged(init, old);
    }
}

proof fn lemma_pickups_unchanged(new: Seq<PickupSnapshot>, old: Seq<PickupSnapshot>)
    requires
        forall|i: int| 0 <= i < new.len() ==> find_pickup(old, #[trigger] new[i].id) == Some(new[i]),
    ensures
        diff_pickups(new, old) == Seq::<PickupSnapshot>::empty(),
    decreases new.len(),
{
    if new.len() > 0 {
        let n = new.len() - 1;
        assert(find_pickup(old, new[n].id) == Some(new[n]));
        let init = new.drop_last();
        assert forall|i: int| 0 <= i < init.len() implies find_pickup(old, #[trigger] init[i].id)
            == Some(init[i]) by {
            assert(init[i] == new[i]);
            assert(find_pickup(old, new[i].id) == Some(new[i]));
        }
        lemma_pickups_unchanged(init, old);
    }
}

/// The value of `delta` where it has one, else that of `base`.
pub open spec fn patched<T>(delta: Option<T>, base: Option<T>) -> Option<T> {
    match delta {
        Some(v) => Some(v),
        None => base,
    }
}

/// Patching the older player record with the delta gives back every field
/// the newer record carries; its position too, unless the caller's test
/// judged it unmoved. A record's delta against itself, where its position
/// is judged unmoved, carries nothing.
pub proof fn player_diff_patches(new: PlayerSnapshotView, old: PlayerSnapshotView, moved: bool)
    ensures
        ({
            let d = player_diff(new, old, moved);
            &&& new.rotation is Some ==> patched(d.rotation, old.rotation) == new.rotation
            &&& new.velocity is Some ==> patched(d.velocity, old.velocity) == new.velocity
            &&& new.frozen_amount is Some ==> patched(d.frozen_amount, old.frozen_amount) == new.frozen_amount
            &&& new.health is Some ==> patched(d.health, old.health) == new.health
            &&& new.frags is Some ==> patched(d.frags, old.frags) == new.frags
            &&& new.deaths is Some ==> patched(d.deaths, old.deaths) == new.deaths
            &&& new.score is Some ==> patched(d.score, old.score) == new.score
            &&& new.name is Some ==> patched(d.name, old.name) == new.name
            &&& new.team is Some ==> patched(d.team, old.team) == new.team
            &&& new.ping is Some ==> patched(d.ping, old.ping) == new.ping
            &&& (new.translation is Some && (old.translation is None || moved)) ==> patched(
                d.translation,
                old.translation,
            ) == new.translation
            &&& (new.translation is Some && old.translation is Some && !moved) ==> d.translation is None
        }),
        player_is_empty(player_diff(new, new, false)),
{
}

/// Patching the older monster record with the delta gives back every
/// field the newer record carries: its kind, position and rotation.
pub proof fn monster_diff_patches(new: MonsterSnapshot, old: MonsterSnapshot)
    ensures
        ({
            let d = monster_diff(new, old);
            &&& d.id == new.id
            &&& new.kind is Some ==> patched(d.kind, old.kind) == new.kind
            &&& new.translation is Some ==> patched(d.translation, old.translation) == new.translation
            &&& new.rotation is Some ==> patched(d.rotation, old.rotation) == new.rotation
        }),
{
}

/// Patching the older pickup record with the delta gives back every field
/// the newer record carries: its position and kind.
pub proof fn pickup_diff_patches(new: PickupSnapshot, old: PickupSnapshot)
    ensures
        ({
            let d = pickup_diff(new, old);
            &&& d.id == new.id
            &&& new.translation is Some ==> patched(d.translation, old.translation) == new.translation
            &&& new.kind is Some ==> patched(d.kind, old.kind) == new.kind
        }),
{
}

/// The delta of a snapshot against itself carries no players, monsters,
/// pickups or local ids, provided no two entities of a kind share an id and
/// no player is judged to have moved from a position to the same position.
pub proof fn diff_of_same_snapshot_is_empty(v: SnapshotView, ms: Seq<bool>)
    requires
        unique_player_ids(v.players),
        unique_monster_ids(v.monsters),
        unique_pickup_ids(v.pickups),
        ms.len() == v.players.len(),
        forall|i: int| 0 <= i < ms.len() ==> !#[trigger] ms[i],
    ensures
        snapshot_diff(v, v, ms).players.len() == 0,
        snapshot_diff(v, v, ms).monsters.len() == 0,
        snapshot_diff(v, v, ms).pickups.len() == 0,
        snapshot_diff(v, v, ms).local_player_id is None,
        snapshot_diff(v, v, ms).local_last_processed_input_id is None,
{
    assert forall|i: int| 0 <= i < v.players.len() implies find_player(
        v.players,
        #[trigger] v.players[i].id,
    ) == Some(v.players[i]) by {
        lemma_find_player(v.players, v.players[i].id, i);
    }
    assert forall|i: int| 0 <= i < v.monsters.len() implies find_monster(
        v.monsters,
        #[trigger] v.monsters[i].id,
    ) == Some(v.monsters[i]) by {
        lemma_find_monster(v.monsters, v.monsters[i].id, i);
    }
    assert forall|i: int| 0 <= i < v.pickups.len() implies find_pickup(
        v.pickups,
        #[trigger] v.pickups[i].id,
    ) == Some(v.pickups[i]) by {
        lemma_find_pickup(v.pickups, v.pickups[i].id, i);
    }
    lemma_players_unchanged(v.players, v.players, ms);
    lemma_monsters_unchanged(v.monsters, v.monsters);
    lemma_pickups_unchanged(v.pickups, v.pickups);
}

} // verus!
