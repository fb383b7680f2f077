//! The server's pools of entity ids: pickups, monsters, projectiles and the
//! player id of each connected client.
use crate::net::AUTHORITY_ID;
use crate::snapshot::history::{ids_in_order, lists_in_order, lemma_order_unique};
use std::collections::BTreeMap;
use vstd::prelude::*;

verus! {

/// Hands out the ids that entities are known by on the wire.
pub struct IdPooler {
    next_projectile_id: u16,
    pickup_id_pool: Vec<u8>,
    monster_id_pool: Vec<u8>,
    player_id_index_map: BTreeMap<u64, u8>,
}

/// The state of an `IdPooler`: the next projectile id, the reserved pickup
/// and monster ids in the order they were reserved, and the player id of
/// each client.
pub struct IdPoolerView {
    pub next_projectile_id: u16,
    pub pickup_ids: Seq<u8>,
    pub monster_ids: Seq<u8>,
    pub players: Map<u64, u8>,
}

/// No two clients share a player id.
pub open spec fn distinct_ids(players: Map<u64, u8>) -> bool {
    forall|a: u64, b: u64|
        #[trigger] players.contains_key(a) && #[trigger] players.contains_key(b) && a != b
            ==> players[a] != players[b]
}

/// Whether some client has the player id `id`.
pub open spec fn id_taken(players: Map<u64, u8>, id: u8) -> bool {
    exists|c: u64| #[trigger] players.contains_key(c) && players[c] == id
}

/// The least id in `lo..255` that `taken` does not hold, if any.
pub open spec fn first_free(taken: spec_fn(u8) -> bool, lo: u8) -> Option<u8> {
    if exists|i: u8| lo <= i < 255 && !#[trigger] taken(i) {
        Some(choose|i: u8| lo <= i < 255 && !#[trigger] taken(i) && forall|j: u8| lo <= j < i ==> #[trigger] taken(j))
    } else {
        None
    }
}

/// The least id below 255 that `pool` does not hold, if any.
pub open spec fn least_free_in_pool(pool: Seq<u8>) -> Option<u8> {
    first_free(|i: u8| pool.contains(i), 0)
}

/// The least player id in `1..255` that no client of `players` holds, if
/// any.
pub open spec fn least_free_player_id(players: Map<u64, u8>) -> Option<u8> {
    first_free(|i: u8| id_taken(players, i), 1)
}

impl View for IdPooler {
    type V = IdPoolerView;

    closed spec fn view(&self) -> IdPoolerView {
        IdPoolerView {
            next_projectile_id: self.next_projectile_id,
            pickup_ids: self.pickup_id_pool@,
            monster_ids: self.monster_id_pool@,
            players: self.player_id_index_map@,
        }
    }
}

/// Reserves the least id of `0..255` missing from `pool`.
fn assign_and_reserve_id(pool: &mut Vec<u8>) -> (r: Result<u8, ()>)
    ensures
        r == match least_free_in_pool(old(pool)@) {
            Some(i) => Ok::<u8, ()>(i),
            None => Err(()),
        },
        r matches Ok(i) ==> final(pool)@ == old(pool)@.push(i),
        r is Err ==> final(pool)@ == old(pool)@,
{
    let ghost taken = |i: u8| old(pool)@.contains(i);
    let mut i: u8 = 0;
    while i < 255
        invariant
            pool@ == old(pool)@,
            taken == (|i: u8| old(pool)@.contains(i)),
            forall|j: u8| j < i ==> #[trigger] taken(j),
        decreases 255 - i,
    {
        if !contains_u8(pool, i) {
            pool.push(i);
            proof {
                assert(!taken(i));
                let w = choose|w: u8| 0 <= w < 255 && !#[trigger] taken(w) && forall|j: u8| 0 <= j < w ==> #[trigger] taken(j);
                if w < i {
                    assert(taken(w));
                } else if w > i {
                    assert(taken(i));
                }
            }
            return Ok(i);
        }
        i = i + 1;
    }
    proof {
        assert(!exists|w: u8| 0 <= w < 255 && !#[trigger] taken(w));
    }
    Err(())
}

/// Whether `x` occurs in `v`.
fn contains_u8(v: &Vec<u8>, x: u8) -> (r: bool)
    ensures
        r == v@.contains(x),
{
    let mut i: usize = 0;
    while i < v.len()
        invariant
            i <= v@.len(),
            forall|j: int| 0 <= j < i ==> v@[j] != x,
        decreases v@.len() - i,
    {
        if v[i] == x {
            assert(v@[i as int] == x);
            return true;
        }
        i = i + 1;
    }
    false
}

/// Drops every occurrence of `id` from `pool`.
fn release_id(pool: &mut Vec<u8>, id: u8)
    ensures
        final(pool)@ == old(pool)@.filter(|x: u8| x != id),
{
    let mut kept: Vec<u8> = Vec::new();
    let mut i: usize = 0;
    while i < pool.len()
        invariant
            i <= pool@.len(),
            kept@ == pool@.take(i as int).filter(|x: u8| x != id),
        decreases pool@.len() - i,
    {
        let x = pool[i];
        if x != id {
            kept.push(x);
        }
        proof {
            reveal(Seq::filter);
            assert(pool@.take(i + 1).drop_last() =~= pool@.take(i as int));
            assert(pool@.take(i + 1).last() == x);
        }
        i = i + 1;
    }
    assert(pool@.take(pool@.len() as int) =~= pool@);
    *pool = kept;
}

/// What `first_free` gives: the least id from `lo` below 255 that is not
/// taken, or none when all of them are.
pub proof fn first_free_is_least_free(taken: spec_fn(u8) -> bool, lo: u8)
    ensures
        match first_free(taken, lo) {
            Some(i) => lo <= i < 255 && !taken(i) && forall|j: u8| lo <= j < i ==> #[trigger] taken(j),
            None => forall|i: u8| lo <= i < 255 ==> #[trigger] taken(i),
        },
{
    if exists|i: u8| lo <= i < 255 && !#[trigger] taken(i) {
        let i0 = choose|i: u8| lo <= i < 255 && !#[trigger] taken(i);
        lemma_least_free(taken, lo, i0);
    }
}

/// Below any free id lies a least free one.
proof fn lemma_least_free(taken: spec_fn(u8) -> bool, lo: u8, i: u8)
    requires
        lo <= i < 255,
        !taken(i),
    ensures
        exists|w: u8| lo <= w < 255 && !#[trigger] taken(w) && forall|j: u8| lo <= j < w ==> #[trigger] taken(j),
    decreases i - lo,
{
    if forall|j: u8| lo <= j < i ==> #[trigger] taken(j) {
        assert(lo <= i < 255 && !taken(i) && forall|j: u8| lo <= j < i ==> #[trigger] taken(j));
    } else {
        let k = choose|j: u8| lo <= j < i && !#[trigger] taken(j);
        lemma_least_free(taken, lo, k);
    }
}

/// Giving a client the first free player id keeps player ids distinct, and
/// that client is then the only one holding the id.
pub proof fn assigned_player_id_is_unique(players: Map<u64, u8>, client: u64, id: u8)
    requires
        distinct_ids(players),
        least_free_player_id(players) == Some(id),
    ensures
        distinct_ids(players.insert(client, id)),
        players.insert(client, id)[client] == id,
        forall|c: u64| #[trigger] players.insert(client, id).contains_key(c) && players.insert(client, id)[c] == id
            ==> c == client,
{
    first_free_is_least_free(|i: u8| id_taken(players, i), 1);
    assert(!id_taken(players, id));
    let m = players.insert(client, id);
    assert forall|c: u64| #[trigger] m.contains_key(c) && m[c] == id implies c == client by {
        if c != client {
            assert(players.contains_key(c) && players[c] == id);
        }
    }
    assert forall|a: u64, b: u64| #[trigger] m.contains_key(a) && #[trigger] m.contains_key(b) && a != b
        implies m[a] != m[b] by {
        if a != client && b != client {
            assert(players.contains_key(a) && players.contains_key(b));
        } else if a == client {
            assert(players.contains_key(b));
        } else {
            assert(players.contains_key(a));
        }
    }
}

/// Whether some client holds the player id `id`.
fn id_in_use(m: &BTreeMap<u64, u8>, id: u8) -> (r: bool)
    ensures
        r == id_taken(m@, id),
{
    broadcast use vstd::std_specs::btree::group_btree_axioms;
    broadcast use vstd::laws_cmp::group_laws_cmp;
    let ghost mut ks: Seq<u64> = Seq::empty();
    let ghost mut seen: int = 0;
    proof {
        if m@.dom().len() == 0 {
            m@.dom().lemma_len0_is_empty();
            assert(Seq::<u64>::empty().to_set() =~= m@.dom());
        }
    }
    for k in it: m.keys()
        invariant
            seen == it.index(),
            ks == it.seq().unref().take(seen),
            it.seq().unref().to_set() == m@.dom(),
            it.seq().len() == m@.dom().len(),
            seen == m@.dom().len() ==> ks.to_set() == m@.dom(),
            forall|i: int| 0 <= i < seen ==> m@[#[trigger] ks[i]] != id,
    {
        proof {
            assert(it.seq().unref()[it.index()] == *k);
            assert(it.seq().unref().to_set().contains(*k));
        }
        match m.get(k) {
            Some(v) => {
                if *v == id {
                    return true;
                }
            },
            None => {},
        }
        proof {
            ks = ks.push(*k);
            seen = seen + 1;
            assert(ks =~= it.seq().unref().take(seen));
            if seen == m@.dom().len() {
                assert(ks =~= it.seq().unref());
            }
        }
    }
    proof {
        assert forall|c: u64| #[trigger] m@.contains_key(c) implies m@[c] != id by {
            assert(ks.to_set().contains(c));
        }
    }
    false
}

impl Default for IdPooler {
    /// A pooler with nothing reserved.
    fn default() -> (r: IdPooler)
        ensures
            r@.next_projectile_id == 0,
            r@.pickup_ids == Seq::<u8>::empty(),
            r@.monster_ids == Seq::<u8>::empty(),
            r@.players == Map::<u64, u8>::empty(),
    {
        IdPooler::new(false)
    }
}

impl IdPooler {
    #[verifier::type_invariant]
    spec fn wf(self) -> bool {
        distinct_ids(self.player_id_index_map@)
    }

    /// A pooler with nothing reserved; where the server has a player of its
    /// own, player id 0 is reserved for it.
    pub fn new(server_has_player: bool) -> (r: IdPooler)
        ensures
            r@.next_projectile_id == 0,
            r@.pickup_ids == Seq::<u8>::empty(),
            r@.monster_ids == Seq::<u8>::empty(),
            r@.players == if server_has_player {
                Map::<u64, u8>::empty().insert(AUTHORITY_ID, 0)
            } else {
                Map::<u64, u8>::empty()
            },
            distinct_ids(r@.players),
    {
        broadcast use vstd::std_specs::btree::group_btree_axioms;
        broadcast use vstd::laws_cmp::group_laws_cmp;
        let mut players: BTreeMap<u64, u8> = BTreeMap::new();
        if server_has_player {
            players.insert(AUTHORITY_ID, 0);
        }
        IdPooler {
            next_projectile_id: 0,
            pickup_id_pool: Vec::new(),
            monster_id_pool: Vec::new(),
            player_id_index_map: players,
        }
    }

    /// Reserves the least free pickup id below 255.
    pub fn assign_and_reserve_pickup_id(&mut self) -> (r: Result<u8, ()>)
        ensures
            r == match least_free_in_pool(old(self)@.pickup_ids) {
                Some(i) => Ok::<u8, ()>(i),
                None => Err(()),
            },
            final(self)@.pickup_ids == match r {
                Ok(i) => old(self)@.pickup_ids.push(i),
                Err(_) => old(self)@.pickup_ids,
            },
            final(self)@.monster_ids == old(self)@.monster_ids,
            final(self)@.players == old(self)@.players,
            final(self)@.next_projectile_id == old(self)@.next_projectile_id,
    {
        proof {
            use_type_invariant(&*self);
        }
        let mut pool: Vec<u8> = Vec::new();
        std::mem::swap(&mut pool, &mut self.pickup_id_pool);
        let r = assign_and_reserve_id(&mut pool);
        self.pickup_id_pool = pool;
        r
    }

    /// Frees a pickup id.
    pub fn release_pickup_id(&mut self, id: u8)
        ensures
            final(self)@.pickup_ids == old(self)@.pickup_ids.filter(|x: u8| x != id),
            final(self)@.monster_ids == old(self)@.monster_ids,
            final(self)@.players == old(self)@.players,
            final(self)@.next_projectile_id == old(self)@.next_projectile_id,
    {
        proof {
            use_type_invariant(&*self);
        }
        let mut pool: Vec<u8> = Vec::new();
        std::mem::swap(&mut pool, &mut self.pickup_id_pool);
        release_id(&mut pool, id);
        self.pickup_id_pool = pool;
    }

    /// Reserves the least free monster id below 255.
    pub fn assign_and_reserve_monster_id(&mut self) -> (r: Result<u8, ()>)
        ensures
            r == match least_free_in_pool(old(self)@.monster_ids) {
                Some(i) => Ok::<u8, ()>(i),
                None => Err(()),
            },
            final(self)@.monster_ids == match r {
                Ok(i) => old(self)@.monster_ids.push(i),
                Err(_) => old(self)@.monster_ids,
            },
            final(self)@.pickup_ids == old(self)@.pickup_ids,
            final(self)@.players == old(self)@.players,
            final(self)@.next_projectile_id == old(self)@.next_projectile_id,
    {
        proof {
            use_type_invariant(&*self);
        }
        let mut pool: Vec<u8> = Vec::new();
        std::mem::swap(&mut pool, &mut self.monster_id_pool);
        let r = assign_and_reserve_id(&mut pool);
        self.monster_id_pool = pool;
        r
    }

    /// Frees a monster id.
    pub fn release_bot_id(&mut self, id: u8)
        ensures
            final(self)@.monster_ids == old(self)@.monster_ids.filter(|x: u8| x != id),
            final(self)@.pickup_ids == old(self)@.pickup_ids,
            final(self)@.players == old(self)@.players,
            final(self)@.next_projectile_id == old(self)@.next_projectile_id,
    {
        proof {
            use_type_invariant(&*self);
        }
        let mut pool: Vec<u8> = Vec::new();
        std::mem::swap(&mut pool, &mut self.monster_id_pool);
        release_id(&mut pool, id);
        self.monster_id_pool = pool;
    }

    /// The next projectile id; ids wrap around after 65535.
    pub fn next_projectile_id(&mut self) -> (r: u16)
        ensures
            r == old(self)@.next_projectile_id,
            final(self)@.next_projectile_id == (if r == u16::MAX { 0 } else { (r + 1) as u16 }),
            final(self)@.pickup_ids == old(self)@.pickup_ids,
            final(self)@.monster_ids == old(self)@.monster_ids,
            final(self)@.players == old(self)@.players,
    {
        proof {
            use_type_invariant(&*self);
        }
        let id = self.next_projectile_id;
        self.next_projectile_id = self.next_projectile_id.wrapping_add(1);
        id
    }

    /// Gives `client_id` the least player id in `1..255` that no client
    /// holds; 0 stays reserved for the server's own player.
    pub fn assign_and_reserve_player_id(&mut self, client_id: u64) -> (r: Result<u8, ()>)
        ensures
            r == match least_free_player_id(old(self)@.players) {
                Some(i) => Ok::<u8, ()>(i),
                None => Err(()),
            },
            final(self)@.players == match r {
                Ok(i) => old(self)@.players.insert(client_id, i),
                Err(_) => old(self)@.players,
            },
            distinct_ids(final(self)@.players),
            final(self)@.pickup_ids == old(self)@.pickup_ids,
            final(self)@.monster_ids == old(self)@.monster_ids,
            final(self)@.next_projectile_id == old(self)@.next_projectile_id,
    {
        broadcast use vstd::std_specs::btree::group_btree_axioms;
        broadcast use vstd::laws_cmp::group_laws_cmp;
        proof {
            use_type_invariant(&*self);
        }
        let ghost taken = |i: u8| id_taken(old(self)@.players, i);
        let mut i: u8 = 1;
        while i < 255
            invariant
                1 <= i <= 255,
                self@ == old(self)@,
                distinct_ids(self.player_id_index_map@),
                taken == (|i: u8| id_taken(old(self)@.players, i)),
                forall|j: u8| 1 <= j < i ==> #[trigger] taken(j),
            decreases 255 - i,
        {
            if !id_in_use(&self.player_id_index_map, i) {
                let mut players: BTreeMap<u64, u8> = BTreeMap::new();
                std::mem::swap(&mut players, &mut self.player_id_index_map);
                players.insert(client_id, i);
                proof {
                    assert(!taken(i));
                    let w = choose|w: u8| 1 <= w < 255 && !#[trigger] taken(w) && forall|j: u8| 1 <= j < w ==> #[trigger] taken(j);
                    if w < i {
                        assert(taken(w));
                    } else if w > i {
                        assert(taken(i));
                    }
                    let m = players@;
                    assert forall|a: u64, b: u64| #[trigger] m.contains_key(a) && #[trigger] m.contains_key(b) && a != b
                        implies m[a] != m[b] by {
                        if a != client_id && b != client_id {
                            assert(old(self)@.players.contains_key(a) && old(self)@.players.contains_key(b));
                        } else if a == client_id {
                            assert(old(self)@.players.contains_key(b));
                        } else {
                            assert(old(self)@.players.contains_key(a));
                        }
                    }
                }
                self.player_id_index_map = players;
                return Ok(i);
            }
            i = i + 1;
        }
        proof {
            assert(!exists|w: u8| 1 <= w < 255 && !#[trigger] taken(w));
        }
        Err(())
    }

    /// Frees the player id of `client_id`.
    pub fn release_player_id(&mut self, client_id: u64)
        ensures
            final(self)@.players == old(self)@.players.remove(client_id),
            distinct_ids(final(self)@.players),
            final(self)@.pickup_ids == old(self)@.pickup_ids,
            final(self)@.monster_ids == old(self)@.monster_ids,
            final(self)@.next_projectile_id == old(self)@.next_projectile_id,
    {
        broadcast use vstd::std_specs::btree::group_btree_axioms;
        broadcast use vstd::laws_cmp::group_laws_cmp;
        proof {
            use_type_invariant(&*self);
        }
        let mut players: BTreeMap<u64, u8> = BTreeMap::new();
        std::mem::swap(&mut players, &mut self.player_id_index_map);
        players.remove(&client_id);
        proof {
            let m = players@;
            assert forall|a: u64, b: u64| #[trigger] m.contains_key(a) && #[trigger] m.contains_key(b) && a != b
                implies m[a] != m[b] by {
                assert(old(self)@.players.contains_key(a) && old(self)@.players.contains_key(b));
            }
        }
        self.player_id_index_map = players;
    }

    /// The player id of `client_id`.
    pub fn get_player_id(&self, client_id: u64) -> (r: Option<&u8>)
        ensures
            match r {
                Some(id) => self@.players.contains_key(client_id) && self@.players[client_id] == *id,
                None => !self@.players.contains_key(client_id),
            },
    {
        broadcast use vstd::std_specs::btree::group_btree_axioms;
        broadcast use vstd::laws_cmp::group_laws_cmp;
        self.player_id_index_map.get(&client_id)
    }

    /// The player ids of all clients, in increasing order of client id.
    pub fn get_all_player_ids(&self) -> (r: Vec<&u8>)
        ensures
            lists_in_order(ids_in_order(self@.players.dom()), self@.players.dom()),
            r@.len() == self@.players.len(),
            r@.len() == ids_in_order(self@.players.dom()).len(),
            forall|i: int| 0 <= i < r@.len() ==> *#[trigger] r@[i] == self@.players[ids_in_order(self@.players.dom())[i]],
    {
        broadcast use vstd::std_specs::btree::group_btree_axioms;
        broadcast use vstd::laws_cmp::group_laws_cmp;
        let m = &self.player_id_index_map;
        let mut out: Vec<&u8> = Vec::new();
        let ghost mut ks: Seq<u64> = Seq::empty();
        let ghost mut seen: int = 0;
        proof {
            assert(m@.dom().finite());
            if m@.dom().len() == 0 {
                m@.dom().lemma_len0_is_empty();
                assert(Seq::<u64>::empty().to_set() =~= m@.dom());
            }
        }
        for k in it: m.keys()
            invariant
                seen == it.index(),
                ks == it.seq().unref().take(seen),
                it.seq().unref().to_set() == m@.dom(),
                it.seq().len() == m@.dom().len(),
                vstd::std_specs::btree::increasing_seq(it.seq()),
                seen == m@.dom().len() ==> lists_in_order(ks, m@.dom()),
                out@.len() == ks.len(),
                forall|i: int| 0 <= i < out@.len() ==> *#[trigger] out@[i] == m@[ks[i]],
        {
            proof {
                assert(it.seq().unref()[seen] == *k);
                assert(it.seq().unref().to_set().contains(*k));
                assert(m@.contains_key(*k));
            }
            let ghost before = out@;
            match m.get(k) {
                Some(v) => {
                    assert(*v == m@[*k]);
                    out.push(v);
                },
                None => {},
            }
            proof {
                assert(out@.len() == before.len() + 1);
                assert(*out@.last() == m@[*k]);
                assert(out@.drop_last() == before);
                let old_ks = ks;
                ks = ks.push(*k);
                seen = seen + 1;
                assert(ks =~= it.seq().unref().take(seen));
                assert forall|i: int| 0 <= i < out@.len() implies *#[trigger] out@[i] == m@[ks[i]] by {
                    if i < before.len() {
                        assert(out@[i] == before[i]);
                        assert(ks[i] == old_ks[i]);
                    }
                }
                if seen == m@.dom().len() {
                    assert(ks =~= it.seq().unref());
                    crate::snapshot::history::lemma_increasing_keys(it.seq());
                }
            }
        }
        proof {
            lemma_order_unique(ks, ids_in_order(m@.dom()), m@.dom());
            assert(ks.no_duplicates()) by {
                assert forall|a: int, b: int| 0 <= a < ks.len() && 0 <= b < ks.len() && a != b implies ks[a] != ks[b] by {
                    if a < b {
                        assert(ks[a] < ks[b]);
                    } else {
                        assert(ks[b] < ks[a]);
                    }
                }
            }
            ks.unique_seq_to_set();
        }
        out
    }

    /// The client that holds the player id `player_id`.
    pub fn get_client_id_from_player_id(&self, player_id: u8) -> (r: Option<&u64>)
        ensures
            match r {
                Some(c) => self@.players.contains_key(*c) && self@.players[*c] == player_id,
                None => !id_taken(self@.players, player_id),
            },
    {
        broadcast use vstd::std_specs::btree::group_btree_axioms;
        broadcast use vstd::laws_cmp::group_laws_cmp;
        let m = &self.player_id_index_map;
        let ghost mut ks: Seq<u64> = Seq::empty();
        let ghost mut seen: int = 0;
        proof {
            if m@.dom().len() == 0 {
                m@.dom().lemma_len0_is_empty();
                assert(Seq::<u64>::empty().to_set() =~= m@.dom());
            }
        }
        for k in it: m.keys()
            invariant
                m@ == self@.players,
                seen == it.index(),
                ks == it.seq().unref().take(seen),
                it.seq().unref().to_set() == m@.dom(),
                it.seq().len() == m@.dom().len(),
                seen == m@.dom().len() ==> ks.to_set() == m@.dom(),
                forall|i: int| 0 <= i < seen ==> m@[#[trigger] ks[i]] != player_id,
        {
            proof {
                assert(it.seq().unref()[it.index()] == *k);
                assert(it.seq().unref().to_set().contains(*k));
            }
            match m.get(k) {
                Some(v) => {
                    if *v == player_id {
                        return Some(k);
                    }
                },
                None => {},
            }
            proof {
                ks = ks.push(*k);
                seen = seen + 1;
                assert(ks =~= it.seq().unref().take(seen));
                if seen == m@.dom().len() {
                    assert(ks =~= it.seq().unref());
                }
            }
        }
        proof {
            assert forall|c: u64| #[trigger] m@.contains_key(c) implies m@[c] != player_id by {
                assert(ks.to_set().contains(c));
            }
        }
        None
    }
}

} // verus!
