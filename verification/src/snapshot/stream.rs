//! Writing snapshots to bytes and reading them back, as the wire format in
//! `wire` states.
//!
//! A reader works on a byte buffer and a position in it. Like a cursor over
//! the buffer, a read that runs out of bytes leaves the position at the end
//! of the buffer.
use super::wire::{
    enc_ids, enc_monster, enc_monster_list, enc_monsters, enc_opt_bytes, enc_opt_i16,
    enc_opt_monster_kind, enc_opt_pickup_kind, enc_opt_qvec, enc_opt_rotation, enc_opt_team,
    enc_opt_u16, enc_opt_u64, enc_opt_u8, enc_opt_vec3bits, enc_pickup, enc_pickup_list,
    enc_pickups, enc_player, enc_player_fields, enc_player_list, enc_players, enc_snapshot,
    enc_snapshot_fields, encode_snapshot, monster_head, parse_monster, parse_monsters,
    parse_pickup, parse_pickups, parse_player, parse_player_fields, parse_player_tail, parse_players,
    parse_snapshot, parse_snapshot_fields, parse_snapshot_tail, pickup_head, player_head, rd_ids, rd_monster_list,
    rd_opt_i16, rd_opt_monster_kind, rd_opt_name, rd_opt_pickup_kind, rd_opt_qvec,
    rd_opt_rotation, rd_opt_team, rd_opt_u16, rd_opt_u64, rd_opt_u8, rd_opt_vec3bits,
    rd_pickup_list, rd_player_list, snapshot_head, Read,
};
use super::{
    player_views, MonsterSnapshot, PickupSnapshot, PlayerSnapshot, PlayerSnapshotView, Snapshot,
    StreamError, Vec3Bits,
};
use crate::bytes::{
    be_u16, be_u32, be_u64, push_bytes, read_be_i16, read_be_u16, read_be_u32, read_be_u64,
    write_be_i16, write_be_u16, write_be_u32, write_be_u64,
};
use crate::components::Team;
use crate::monsters::MonsterKind;
use crate::net::serialize::{QuantizedRotation, QuantizedVec3U16};
use crate::pickups::PickupKind;
use vstd::prelude::*;

verus! {

// ---------------------------------------------------------------------
// writing
// ---------------------------------------------------------------------
fn write_opt_u8(bytes: &mut Vec<u8>, o: Option<u8>, Ghost(k): Ghost<Seq<u8>>)
    ensures
        final(bytes)@ + k == old(bytes)@ + enc_opt_u8(o, k),
{
    if let Some(v) = o {
        bytes.push(v);
        assert(bytes@ + k =~= old(bytes)@ + (seq![v] + k));
    }
}

fn write_opt_u16(bytes: &mut Vec<u8>, o: Option<u16>, Ghost(k): Ghost<Seq<u8>>)
    ensures
        final(bytes)@ + k == old(bytes)@ + enc_opt_u16(o, k),
{
    if let Some(v) = o {
        let b = write_be_u16(v);
        push_bytes(bytes, b.as_slice());
        assert(bytes@ + k =~= old(bytes)@ + (b@ + k));
    }
}

fn write_opt_i16(bytes: &mut Vec<u8>, o: Option<i16>, Ghost(k): Ghost<Seq<u8>>)
    ensures
        final(bytes)@ + k == old(bytes)@ + enc_opt_i16(o, k),
{
    if let Some(v) = o {
        let b = write_be_i16(v);
        push_bytes(bytes, b.as_slice());
        assert(bytes@ + k =~= old(bytes)@ + (b@ + k));
    }
}

fn write_opt_u64(bytes: &mut Vec<u8>, o: Option<u64>, Ghost(k): Ghost<Seq<u8>>)
    ensures
        final(bytes)@ + k == old(bytes)@ + enc_opt_u64(o, k),
{
    if let Some(v) = o {
        let b = write_be_u64(v);
        push_bytes(bytes, b.as_slice());
        assert(bytes@ + k =~= old(bytes)@ + (b@ + k));
    }
}

fn write_opt_vec3bits(bytes: &mut Vec<u8>, o: Option<Vec3Bits>, Ghost(k): Ghost<Seq<u8>>)
    ensures
        final(bytes)@ + k == old(bytes)@ + enc_opt_vec3bits(o, k),
{
    if let Some(t) = o {
        let bx = write_be_u32(t.x);
        let by = write_be_u32(t.y);
        let bz = write_be_u32(t.z);
        push_bytes(bytes, bx.as_slice());
        push_bytes(bytes, by.as_slice());
        push_bytes(bytes, bz.as_slice());
        assert(bytes@ + k =~= old(bytes)@ + ((bx@ + by@ + bz@) + k));
    }
}

fn write_opt_rotation(bytes: &mut Vec<u8>, o: Option<QuantizedRotation>, Ghost(k): Ghost<Seq<u8>>)
    ensures
        final(bytes)@ + k == old(bytes)@ + enc_opt_rotation(o, k),
{
    if let Some(r) = o {
        bytes.push(r.pitch);
        bytes.push(r.yaw);
        bytes.push(r.roll);
        assert(bytes@ + k =~= old(bytes)@ + (seq![r.pitch, r.yaw, r.roll] + k));
    }
}

fn write_opt_qvec(bytes: &mut Vec<u8>, o: Option<QuantizedVec3U16>, Ghost(k): Ghost<Seq<u8>>)
    ensures
        final(bytes)@ + k == old(bytes)@ + enc_opt_qvec(o, k),
{
    if let Some(v) = o {
        let bx = write_be_u16(v.x);
        let by = write_be_u16(v.y);
        let bz = write_be_u16(v.z);
        push_bytes(bytes, bx.as_slice());
        push_bytes(bytes, by.as_slice());
        push_bytes(bytes, bz.as_slice());
        assert(bytes@ + k =~= old(bytes)@ + ((bx@ + by@ + bz@) + k));
    }
}

fn write_opt_name(bytes: &mut Vec<u8>, o: Option<[u8; 32]>, Ghost(k): Ghost<Seq<u8>>)
    ensures
        final(bytes)@ + k == old(bytes)@ + enc_opt_bytes(
            match o {
                Some(n) => Some(n@),
                None => None,
            },
            k,
        ),
{
    if let Some(n) = o {
        push_bytes(bytes, n.as_slice());
        assert(bytes@ + k =~= old(bytes)@ + (n@ + k));
    }
}

fn write_opt_team(bytes: &mut Vec<u8>, o: Option<Team>, Ghost(k): Ghost<Seq<u8>>)
    ensures
        final(bytes)@ + k == old(bytes)@ + enc_opt_team(o, k),
{
    if let Some(t) = o {
        let b = t.to_u8();
        bytes.push(b);
        assert(bytes@ + k =~= old(bytes)@ + (seq![b] + k));
    }
}

impl PlayerSnapshot {
    /// The presence flags of this record.
    fn head(&self) -> (r: u16)
        ensures
            r == player_head(self@),
    {
        let mut head: u16 = 0;
        if self.translation.is_some() {
            head = head | 1u16;
        }
        if self.rotation.is_some() {
            head = head | 2u16;
        }
        if self.velocity.is_some() {
            head = head | 4u16;
        }
        if self.frozen_amount.is_some() {
            head = head | 8u16;
        }
        if self.health.is_some() {
            head = head | 16u16;
        }
        if self.frags.is_some() {
            head = head | 32u16;
        }
        if self.deaths.is_some() {
            head = head | 64u16;
        }
        if self.score.is_some() {
            head = head | 128u16;
        }
        if self.name.is_some() {
            head = head | 256u16;
        }
        if self.team.is_some() {
            head = head | 512u16;
        }
        if self.ping.is_some() {
            head = head | 1024u16;
        }
        head
    }

    fn write_with_tail(&self, bytes: &mut Vec<u8>, Ghost(k): Ghost<Seq<u8>>)
        ensures
            final(bytes)@ + k == old(bytes)@ + enc_player(self@, k),
    {
        let ghost p = self@;
        let ghost k10 = enc_opt_u8(p.ping, k);
        let ghost k9 = enc_opt_team(p.team, k10);
        let ghost k8 = enc_opt_bytes(p.name, k9);
        let ghost k7 = enc_opt_u16(p.score, k8);
        let ghost k6 = enc_opt_u16(p.deaths, k7);
        let ghost k5 = enc_opt_u16(p.frags, k6);
        let ghost k4 = enc_opt_u8(p.frozen_amount, k5);
        let ghost k3 = enc_opt_i16(p.health, k4);
        let ghost k2 = enc_opt_qvec(p.velocity, k3);
        let ghost k1 = enc_opt_rotation(p.rotation, k2);
        let ghost k0 = enc_player_fields(p, k);
        bytes.push(self.id);
        let head = self.head();
        assert(head == player_head(p));
        let hb = write_be_u16(head);
        push_bytes(bytes, hb.as_slice());
        assert(bytes@ + k0 =~= old(bytes)@ + enc_player(p, k));
        write_opt_vec3bits(bytes, self.translation, Ghost(k1));
        write_opt_rotation(bytes, self.rotation, Ghost(k2));
        write_opt_qvec(bytes, self.velocity, Ghost(k3));
        write_opt_i16(bytes, self.health, Ghost(k4));
        write_opt_u8(bytes, self.frozen_amount, Ghost(k5));
        write_opt_u16(bytes, self.frags, Ghost(k6));
        write_opt_u16(bytes, self.deaths, Ghost(k7));
        write_opt_u16(bytes, self.score, Ghost(k8));
        write_opt_name(bytes, self.name, Ghost(k9));
        write_opt_team(bytes, self.team, Ghost(k10));
        write_opt_u8(bytes, self.ping, Ghost(k));
    }

    /// Appends this player's record to `bytes`.
    pub fn write_to_stream(&self, bytes: &mut Vec<u8>)
        ensures
            final(bytes)@ == old(bytes)@ + enc_player(self@, Seq::empty()),
    {
        self.write_with_tail(bytes, Ghost(Seq::empty()));
        assert(bytes@ =~= bytes@ + Seq::<u8>::empty());
    }
}

impl MonsterSnapshot {
    fn write_with_tail(&self, bytes: &mut Vec<u8>, Ghost(k): Ghost<Seq<u8>>)
        ensures
            final(bytes)@ + k == old(bytes)@ + enc_monster(*self, k),
    {
        let ghost k2 = enc_opt_rotation(self.rotation, k);
        let ghost k1 = enc_opt_qvec(self.translation, k2);
        let ghost k0 = enc_opt_monster_kind(self.kind, k1);
        bytes.push(self.id);
        let mut head: u8 = 0;
        if self.kind.is_some() {
            head = head | 1u8;
        }
        if self.translation.is_some() {
            head = head | 2u8;
        }
        if self.rotation.is_some() {
            head = head | 4u8;
        }
        assert(head == monster_head(*self));
        bytes.push(head);
        assert(bytes@ + k0 =~= old(bytes)@ + enc_monster(*self, k));
        if let Some(kind) = self.kind {
            bytes.push(kind.to_u8());
        }
        assert(bytes@ + k1 =~= old(bytes)@ + enc_monster(*self, k));
        write_opt_qvec(bytes, self.translation, Ghost(k2));
        write_opt_rotation(bytes, self.rotation, Ghost(k));
    }

    /// Appends this monster's record to `bytes`.
    pub fn write_to_stream(&self, bytes: &mut Vec<u8>)
        ensures
            final(bytes)@ == old(bytes)@ + enc_monster(*self, Seq::empty()),
    {
        self.write_with_tail(bytes, Ghost(Seq::empty()));
        assert(bytes@ =~= bytes@ + Seq::<u8>::empty());
    }
}

impl PickupSnapshot {
    fn write_with_tail(&self, bytes: &mut Vec<u8>, Ghost(k): Ghost<Seq<u8>>)
        ensures
            final(bytes)@ + k == old(bytes)@ + enc_pickup(*self, k),
    {
        let ghost k1 = enc_opt_pickup_kind(self.kind, k);
        let ghost k0 = enc_opt_qvec(self.translation, k1);
        bytes.push(self.id);
        let mut head: u8 = 0;
        if self.translation.is_some() {
            head = head | 1u8;
        }
        if self.kind.is_some() {
            head = head | 2u8;
        }
        assert(head == pickup_head(*self));
        bytes.push(head);
        assert(bytes@ + k0 =~= old(bytes)@ + enc_pickup(*self, k));
        write_opt_qvec(bytes, self.translation, Ghost(k1));
        let ghost mid = bytes@;
        if let Some(kind) = self.kind {
            bytes.push(kind.to_u8());
        }
        assert(bytes@ + k =~= mid + k1);
    }

    /// Appends this pickup's record to `bytes`.
    pub fn write_to_stream(&self, bytes: &mut Vec<u8>)
        ensures
            final(bytes)@ == old(bytes)@ + enc_pickup(*self, Seq::empty()),
    {
        self.write_with_tail(bytes, Ghost(Seq::empty()));
        assert(bytes@ =~= bytes@ + Seq::<u8>::empty());
    }
}

fn write_player_list(bytes: &mut Vec<u8>, players: &Vec<PlayerSnapshot>, Ghost(k): Ghost<Seq<u8>>)
    ensures
        final(bytes)@ + k == old(bytes)@ + enc_player_list(player_views(players@), k),
{
    let ghost views = player_views(players@);
    if players.len() > 0 {
        bytes.push(players.len() as u8);
        assert(views.skip(0) =~= views);
        assert(bytes@ + enc_players(views, k) =~= old(bytes)@ + (seq![views.len() as u8]
            + enc_players(views, k)));
        let mut i: usize = 0;
        while i < players.len()
            invariant
                i <= players@.len(),
                views == player_views(players@),
                views.len() == players@.len(),
                bytes@ + enc_players(views.skip(i as int), k) == old(bytes)@ + enc_player_list(
                    views,
                    k,
                ),
            decreases players@.len() - i,
        {
            let ghost tail = views.skip(i as int);
            assert(tail[0] == players@[i as int]@);
            assert(tail.drop_first() =~= views.skip(i + 1));
            players[i].write_with_tail(bytes, Ghost(enc_players(views.skip(i + 1), k)));
            i = i + 1;
        }
        assert(views.skip(players@.len() as int) =~= Seq::<PlayerSnapshotView>::empty());
    }
}

fn write_monster_list(bytes: &mut Vec<u8>, monsters: &Vec<MonsterSnapshot>, Ghost(k): Ghost<Seq<u8>>)
    ensures
        final(bytes)@ + k == old(bytes)@ + enc_monster_list(monsters@, k),
{
    if monsters.len() > 0 {
        bytes.push(monsters.len() as u8);
        assert(monsters@.skip(0) =~= monsters@);
        assert(bytes@ + enc_monsters(monsters@, k) =~= old(bytes)@ + (seq![monsters@.len() as u8]
            + enc_monsters(monsters@, k)));
        let mut i: usize = 0;
        while i < monsters.len()
            invariant
                i <= monsters@.len(),
                bytes@ + enc_monsters(monsters@.skip(i as int), k) == old(bytes)@
                    + enc_monster_list(monsters@, k),
            decreases monsters@.len() - i,
        {
            let ghost tail = monsters@.skip(i as int);
            assert(tail[0] == monsters@[i as int]);
            assert(tail.drop_first() =~= monsters@.skip(i + 1));
            monsters[i].write_with_tail(bytes, Ghost(enc_monsters(monsters@.skip(i + 1), k)));
            i = i + 1;
        }
        assert(monsters@.skip(monsters@.len() as int) =~= Seq::<MonsterSnapshot>::empty());
    }
}

fn write_pickup_list(bytes: &mut Vec<u8>, pickups: &Vec<PickupSnapshot>, Ghost(k): Ghost<Seq<u8>>)
    ensures
        final(bytes)@ + k == old(bytes)@ + enc_pickup_list(pickups@, k),
{
    if pickups.len() > 0 {
        bytes.push(pickups.len() as u8);
        assert(pickups@.skip(0) =~= pickups@);
        assert(bytes@ + enc_pickups(pickups@, k) =~= old(bytes)@ + (seq![pickups@.len() as u8]
            + enc_pickups(pickups@, k)));
        let mut i: usize = 0;
        while i < pickups.len()
            invariant
                i <= pickups@.len(),
                bytes@ + enc_pickups(pickups@.skip(i as int), k) == old(bytes)@ + enc_pickup_list(
                    pickups@,
                    k,
                ),
            decreases pickups@.len() - i,
        {
            let ghost tail = pickups@.skip(i as int);
            assert(tail[0] == pickups@[i as int]);
            assert(tail.drop_first() =~= pickups@.skip(i + 1));
            pickups[i].write_with_tail(bytes, Ghost(enc_pickups(pickups@.skip(i + 1), k)));
            i = i + 1;
        }
        assert(pickups@.skip(pickups@.len() as int) =~= Seq::<PickupSnapshot>::empty());
    }
}

fn write_ids(bytes: &mut Vec<u8>, ids: &Vec<u8>, Ghost(k): Ghost<Seq<u8>>)
    ensures
        final(bytes)@ + k == old(bytes)@ + enc_ids(ids@, k),
{
    if ids.len() > 0 {
        bytes.push(ids.len() as u8);
        let ghost mid = bytes@;
        push_bytes(bytes, ids.as_slice());
        assert(bytes@ + k =~= old(bytes)@ + (seq![ids.len() as u8] + (ids@ + k)));
    }
}

impl Snapshot {
    /// Appends this snapshot's bytes to `bytes`.
    pub fn write_to_stream(&self, bytes: &mut Vec<u8>)
        ensures
            final(bytes)@ == old(bytes)@ + encode_snapshot(self@),
    {
        let ghost v = self@;
        let ghost k = Seq::<u8>::empty();
        let ghost k7 = enc_ids(v.pickup_deletions, k);
        let ghost k6 = enc_ids(v.monster_deletions, k7);
        let ghost k5 = enc_ids(v.player_deletions, k6);
        let ghost k4 = enc_opt_u64(v.local_last_processed_input_id, k5);
        let ghost k3 = enc_opt_u8(v.local_player_id, k4);
        let ghost k2 = enc_pickup_list(v.pickups, k3);
        let ghost k1 = enc_monster_list(v.monsters, k2);
        let ghost k0 = enc_snapshot_fields(v, k);
        let ib = write_be_u64(self.id);
        push_bytes(bytes, ib.as_slice());
        let mut head: u16 = 0;
        if self.absolute {
            head = head | 1u16;
        }
        if self.players.len() > 0 {
            head = head | 2u16;
        }
        if self.monsters.len() > 0 {
            head = head | 4u16;
        }
        if self.pickups.len() > 0 {
            head = head | 8u16;
        }
        if self.local_player_id.is_some() {
            head = head | 16u16;
        }
        if self.local_last_processed_input_id.is_some() {
            head = head | 32u16;
        }
        if self.player_deletions.len() > 0 {
            head = head | 64u16;
        }
        if self.monster_deletions.len() > 0 {
            head = head | 128u16;
        }
        if self.pickup_deletions.len() > 0 {
            head = head | 256u16;
        }
        assert(head == snapshot_head(v));
        let hb = write_be_u16(head);
        push_bytes(bytes, hb.as_slice());
        assert(bytes@ + k0 =~= old(bytes)@ + enc_snapshot(v, k));
        write_player_list(bytes, &self.players, Ghost(k1));
        write_monster_list(bytes, &self.monsters, Ghost(k2));
        write_pickup_list(bytes, &self.pickups, Ghost(k3));
        write_opt_u8(bytes, self.local_player_id, Ghost(k4));
        write_opt_u64(bytes, self.local_last_processed_input_id, Ghost(k5));
        write_ids(bytes, &self.player_deletions, Ghost(k6));
        write_ids(bytes, &self.monster_deletions, Ghost(k7));
        write_ids(bytes, &self.pickup_deletions, Ghost(k));
        assert(bytes@ =~= bytes@ + Seq::<u8>::empty());
    }

    /// The bytes of this snapshot.
    pub fn to_bytes(&self) -> (r: Vec<u8>)
        ensures
            r@ == encode_snapshot(self@),
    {
        let mut bytes: Vec<u8> = Vec::new();
        self.write_to_stream(&mut bytes);
        assert(bytes@ =~= encode_snapshot(self@));
        bytes
    }
}

// ---------------------------------------------------------------------
// reading
// ---------------------------------------------------------------------
/// The outcome of an executable read, with the position replaced by the
/// bytes from there on.
pub open spec fn lift<T>(buf: Seq<u8>, r: Result<(T, usize), StreamError>) -> Read<T> {
    match r {
        Ok((v, q)) => Ok((v, buf.skip(q as int))),
        Err(e) => Err(e),
    }
}

proof fn lemma_skip_more(buf: Seq<u8>, pos: int, n: int)
    requires
        0 <= pos,
        0 <= n,
        pos + n <= buf.len(),
    ensures
        buf.skip(pos).skip(n) == buf.skip(pos + n),
        forall|j: int| 0 <= j < n ==> #[trigger] buf.skip(pos)[j] == buf[pos + j],
{
    assert(buf.skip(pos).skip(n) =~= buf.skip(pos + n));
}

proof fn lemma_be_skip(buf: Seq<u8>, pos: int, n: int)
    requires
        0 <= pos,
        pos + n <= buf.len(),
        n == 2 || n == 4 || n == 8,
    ensures
        n >= 2 ==> be_u16(buf.skip(pos), 0) == be_u16(buf, pos),
        n >= 4 ==> be_u32(buf.skip(pos), 0) == be_u32(buf, pos),
        n >= 8 ==> be_u64(buf.skip(pos), 0) == be_u64(buf, pos),
{
    lemma_skip_more(buf, pos, n);
    let s = buf.skip(pos);
    assert(s[0] == buf[pos] && s[1] == buf[pos + 1]);
    if n >= 4 {
        assert(s[2] == buf[pos + 2] && s[3] == buf[pos + 3]);
    }
    if n >= 8 {
        assert(s[4] == buf[pos + 4] && s[5] == buf[pos + 5]);
        assert(s[6] == buf[pos + 6] && s[7] == buf[pos + 7]);
    }
}

fn read_opt_u8(buf: &[u8], pos: usize, present: bool, e: StreamError) -> (r: Result<
    (Option<u8>, usize),
    StreamError,
>)
    requires
        pos <= buf@.len(),
    ensures
        lift(buf@, r) == rd_opt_u8(buf@.skip(pos as int), present, e),
        r matches Ok((_, q)) ==> pos <= q <= buf@.len(),
{
    if !present {
        return Ok((None, pos));
    }
    if pos < buf.len() {
        proof {
            lemma_skip_more(buf@, pos as int, 1);
        }
        Ok((Some(buf[pos]), pos + 1))
    } else {
        Err(e)
    }
}

fn read_opt_u16(buf: &[u8], pos: usize, present: bool, e: StreamError) -> (r: Result<
    (Option<u16>, usize),
    StreamError,
>)
    requires
        pos <= buf@.len(),
    ensures
        lift(buf@, r) == rd_opt_u16(buf@.skip(pos as int), present, e),
        r matches Ok((_, q)) ==> pos <= q <= buf@.len(),
{
    if !present {
        return Ok((None, pos));
    }
    if buf.len() - pos >= 2 {
        proof {
            lemma_skip_more(buf@, pos as int, 2);
            lemma_be_skip(buf@, pos as int, 2);
        }
        Ok((Some(read_be_u16(buf, pos)), pos + 2))
    } else {
        Err(e)
    }
}

fn read_opt_i16(buf: &[u8], pos: usize, present: bool, e: StreamError) -> (r: Result<
    (Option<i16>, usize),
    StreamError,
>)
    requires
        pos <= buf@.len(),
    ensures
        lift(buf@, r) == rd_opt_i16(buf@.skip(pos as int), present, e),
        r matches Ok((_, q)) ==> pos <= q <= buf@.len(),
{
    if !present {
        return Ok((None, pos));
    }
    if buf.len() - pos >= 2 {
        proof {
            lemma_skip_more(buf@, pos as int, 2);
            lemma_be_skip(buf@, pos as int, 2);
        }
        Ok((Some(read_be_i16(buf, pos)), pos + 2))
    } else {
        Err(e)
    }
}

fn read_opt_u64(buf: &[u8], pos: usize, present: bool, e: StreamError) -> (r: Result<
    (Option<u64>, usize),
    StreamError,
>)
    requires
        pos <= buf@.len(),
    ensures
        lift(buf@, r) == rd_opt_u64(buf@.skip(pos as int), present, e),
        r matches Ok((_, q)) ==> pos <= q <= buf@.len(),
{
    if !present {
        return Ok((None, pos));
    }
    if buf.len() - pos >= 8 {
        proof {
            lemma_skip_more(buf@, pos as int, 8);
            lemma_be_skip(buf@, pos as int, 8);
        }
        Ok((Some(read_be_u64(buf, pos)), pos + 8))
    } else {
        Err(e)
    }
}

fn read_opt_team(buf: &[u8], pos: usize, present: bool, e: StreamError) -> (r: Result<
    (Option<Team>, usize),
    StreamError,
>)
    requires
        pos <= buf@.len(),
    ensures
        lift(buf@, r) == rd_opt_team(buf@.skip(pos as int), present, e),
        r matches Ok((_, q)) ==> pos <= q <= buf@.len(),
{
    if !present {
        return Ok((None, pos));
    }
    if pos < buf.len() {
        proof {
            lemma_skip_more(buf@, pos as int, 1);
        }
        Ok((Some(Team::from(buf[pos])), pos + 1))
    } else {
        Err(e)
    }
}

fn read_opt_monster_kind(buf: &[u8], pos: usize, present: bool, e: StreamError) -> (r: Result<
    (Option<MonsterKind>, usize),
    StreamError,
>)
    requires
        pos <= buf@.len(),
    ensures
        lift(buf@, r) == rd_opt_monster_kind(buf@.skip(pos as int), present, e),
        r matches Ok((_, q)) ==> pos <= q <= buf@.len(),
{
    if !present {
        return Ok((None, pos));
    }
    if pos < buf.len() {
        proof {
            lemma_skip_more(buf@, pos as int, 1);
        }
        Ok((Some(MonsterKind::from(buf[pos])), pos + 1))
    } else {
        Err(e)
    }
}

fn read_opt_pickup_kind(buf: &[u8], pos: usize, present: bool, e: StreamError) -> (r: Result<
    (Option<PickupKind>, usize),
    StreamError,
>)
    requires
        pos <= buf@.len(),
    ensures
        lift(buf@, r) == rd_opt_pickup_kind(buf@.skip(pos as int), present, e),
        r matches Ok((_, q)) ==> pos <= q <= buf@.len(),
{
    if !present {
        return Ok((None, pos));
    }
    if pos < buf.len() {
        proof {
            lemma_skip_more(buf@, pos as int, 1);
        }
        Ok((Some(PickupKind::from(buf[pos])), pos + 1))
    } else {
        Err(e)
    }
}

fn read_opt_name(buf: &[u8], pos: usize, present: bool, e: StreamError) -> (r: Result<
    (Option<[u8; 32]>, usize),
    StreamError,
>)
    requires
        pos <= buf@.len(),
    ensures
        lift(
            buf@,
            match r {
                Ok((Some(n), q)) => Ok((Some(n@), q)),
                Ok((None, q)) => Ok((None, q)),
                Err(x) => Err(x),
            },
        ) == rd_opt_name(buf@.skip(pos as int), present, e),
        r matches Ok((_, q)) ==> pos <= q <= buf@.len(),
{
    if !present {
        return Ok((None, pos));
    }
    if buf.len() - pos >= 32 {
        let mut name = [0u8; 32];
        let len = buf.len();
        let mut i: usize = 0;
        while i < 32
            invariant
                i <= 32,
                len == buf@.len(),
                pos + 32 <= len,
                name@.len() == 32,
                forall|j: int| 0 <= j < i ==> name@[j] == buf@[pos + j],
            decreases 32 - i,
        {
            name[i] = buf[pos + i];
            i = i + 1;
        }
        proof {
            lemma_skip_more(buf@, pos as int, 32);
            assert(name@ =~= buf@.skip(pos as int).take(32));
        }
        Ok((Some(name), pos + 32))
    } else {
        Err(e)
    }
}

fn read_opt_vec3bits(
    buf: &[u8],
    pos: usize,
    present: bool,
    ex: StreamError,
    ey: StreamError,
    ez: StreamError,
) -> (r: Result<(Option<Vec3Bits>, usize), StreamError>)
    requires
        pos <= buf@.len(),
    ensures
        lift(buf@, r) == rd_opt_vec3bits(buf@.skip(pos as int), present, ex, ey, ez),
        r matches Ok((_, q)) ==> pos <= q <= buf@.len(),
{
    if !present {
        return Ok((None, pos));
    }
    let avail = buf.len() - pos;
    if avail < 4 {
        return Err(ex);
    }
    if avail < 8 {
        return Err(ey);
    }
    if avail < 12 {
        return Err(ez);
    }
    proof {
        lemma_skip_more(buf@, pos as int, 12);
        lemma_be_skip(buf@, pos as int, 4);
        lemma_be_skip(buf@, pos + 4, 4);
        lemma_be_skip(buf@, pos + 8, 4);
        lemma_skip_more(buf@, pos as int, 4);
        lemma_skip_more(buf@, pos as int, 8);
        let s = buf@.skip(pos as int);
        assert(be_u32(s, 4) == be_u32(s.skip(4), 0));
        assert(be_u32(s, 8) == be_u32(s.skip(8), 0));
    }
    let x = read_be_u32(buf, pos);
    let y = read_be_u32(buf, pos + 4);
    let z = read_be_u32(buf, pos + 8);
    Ok((Some(Vec3Bits { x, y, z }), pos + 12))
}

fn read_opt_rotation(
    buf: &[u8],
    pos: usize,
    present: bool,
    ep: StreamError,
    ey: StreamError,
    er: StreamError,
) -> (r: Result<(Option<QuantizedRotation>, usize), StreamError>)
    requires
        pos <= buf@.len(),
    ensures
        lift(buf@, r) == rd_opt_rotation(buf@.skip(pos as int), present, ep, ey, er),
        r matches Ok((_, q)) ==> pos <= q <= buf@.len(),
{
    if !present {
        return Ok((None, pos));
    }
    let avail = buf.len() - pos;
    if avail < 1 {
        return Err(ep);
    }
    if avail < 2 {
        return Err(ey);
    }
    if avail < 3 {
        return Err(er);
    }
    proof {
        lemma_skip_more(buf@, pos as int, 3);
    }
    Ok((Some(QuantizedRotation { pitch: buf[pos], yaw: buf[pos + 1], roll: buf[pos + 2] }), pos + 3))
}

fn read_opt_qvec(
    buf: &[u8],
    pos: usize,
    present: bool,
    ex: StreamError,
    ey: StreamError,
    ez: StreamError,
) -> (r: Result<(Option<QuantizedVec3U16>, usize), StreamError>)
    requires
        pos <= buf@.len(),
    ensures
        lift(buf@, r) == rd_opt_qvec(buf@.skip(pos as int), present, ex, ey, ez),
        r matches Ok((_, q)) ==> pos <= q <= buf@.len(),
{
    if !present {
        return Ok((None, pos));
    }
    let avail = buf.len() - pos;
    if avail < 2 {
        return Err(ex);
    }
    if avail < 4 {
        return Err(ey);
    }
    if avail < 6 {
        return Err(ez);
    }
    proof {
        lemma_skip_more(buf@, pos as int, 6);
        lemma_be_skip(buf@, pos as int, 2);
        lemma_be_skip(buf@, pos + 2, 2);
        lemma_be_skip(buf@, pos + 4, 2);
        lemma_skip_more(buf@, pos as int, 2);
        lemma_skip_more(buf@, pos as int, 4);
        let s = buf@.skip(pos as int);
        assert(be_u16(s, 2) == be_u16(s.skip(2), 0));
        assert(be_u16(s, 4) == be_u16(s.skip(4), 0));
    }
    let x = read_be_u16(buf, pos);
    let y = read_be_u16(buf, pos + 2);
    let z = read_be_u16(buf, pos + 4);
    Ok((Some(QuantizedVec3U16 { x, y, z }), pos + 6))
}

impl PlayerSnapshot {
    /// Reads a player record from `buf` at `*pos` and moves `*pos` past it;
    /// on error `*pos` is left at the end of `buf`.
    pub fn read_from_stream(buf: &[u8], pos: &mut usize) -> (r: Result<PlayerSnapshot, StreamError>)
        requires
            *old(pos) <= buf@.len(),
        ensures
            *final(pos) <= buf@.len(),
            match parse_player(buf@.skip(*old(pos) as int)) {
                Ok((v, rest)) => r matches Ok(p) && p@ == v && buf@.skip(*final(pos) as int) == rest,
                Err(e) => r == Err::<PlayerSnapshot, StreamError>(e) && *final(pos) == buf@.len(),
            },
    {
        let p0 = *pos;
        let len = buf.len();
        if p0 >= len {
            *pos = len;
            return Err(StreamError::SnapshotId);
        }
        if len - p0 < 3 {
            *pos = len;
            return Err(StreamError::SnapshotHead);
        }
        proof {
            lemma_skip_more(buf@, p0 as int, 3);
            lemma_be_skip(buf@, p0 + 1, 2);
            lemma_skip_more(buf@, p0 as int, 1);
            let s = buf@.skip(p0 as int);
            assert(be_u16(s, 1) == be_u16(s.skip(1), 0));
        }
        let id = buf[p0];
        let head = read_be_u16(buf, p0 + 1);
        let q = p0 + 3;
        match Self::read_fields(buf, q, id, head) {
            Ok((p, q)) => {
                *pos = q;
                Ok(p)
            },
            Err(e) => {
                *pos = len;
                Err(e)
            },
        }
    }

    #[verifier::rlimit(40)]
    #[verifier::spinoff_prover]
    fn read_fields(buf: &[u8], q: usize, id: u8, head: u16) -> (r: Result<(PlayerSnapshot, usize), StreamError>)
        requires
            q <= buf@.len(),
        ensures
            lift(
                buf@,
                match r {
                    Ok((p, q)) => Ok((p@, q)),
                    Err(x) => Err(x),
                },
            ) == parse_player_fields(buf@.skip(q as int), id, head),
            r matches Ok((_, q2)) ==> q2 <= buf@.len(),
    {
        let (translation, q) = match read_opt_vec3bits(
            buf,
            q,
            head & 1u16 != 0u16,
            StreamError::PlayerTranslationX,
            StreamError::PlayerTranslationY,
            StreamError::PlayerTranslationZ,
        ) {
            Ok(x) => x,
            Err(e) => {
                return Err(e);
            },
        };
        let (rotation, q) = match read_opt_rotation(
            buf,
            q,
            head & 2u16 != 0u16,
            StreamError::PlayerPitch,
            StreamError::PlayerYaw,
            StreamError::PlayerRoll,
        ) {
            Ok(x) => x,
            Err(e) => {
                return Err(e);
            },
        };
        let (velocity, q) = match read_opt_qvec(
            buf,
            q,
            head & 4u16 != 0u16,
            StreamError::PlayerVelocityX,
            StreamError::PlayerVelocityY,
            StreamError::PlayerVelocityZ,
        ) {
            Ok(x) => x,
            Err(e) => {
                return Err(e);
            },
        };
        let (health, q) = match read_opt_i16(buf, q, head & 16u16 != 0u16, StreamError::PlayerHealth) {
            Ok(x) => x,
            Err(e) => {
                return Err(e);
            },
        };
        let (frozen_amount, q) = match read_opt_u8(buf, q, head & 8u16 != 0u16, StreamError::FrozenAmount) {
            Ok(x) => x,
            Err(e) => {
                return Err(e);
            },
        };
        let partial = PlayerSnapshot {
            id,
            translation,
            rotation,
            velocity,
            frozen_amount,
            health,
            frags: None,
            deaths: None,
            score: None,
            name: None,
            team: None,
            ping: None,
            entity: None,
        };
        Self::read_tail(buf, q, head, partial)
    }

    #[verifier::rlimit(40)]
    #[verifier::spinoff_prover]
    fn read_tail(buf: &[u8], q: usize, head: u16, p: PlayerSnapshot) -> (r: Result<(PlayerSnapshot, usize), StreamError>)
        requires
            q <= buf@.len(),
        ensures
            lift(
                buf@,
                match r {
                    Ok((p, q)) => Ok((p@, q)),
                    Err(x) => Err(x),
                },
            ) == parse_player_tail(buf@.skip(q as int), head, p@),
            r matches Ok((_, q2)) ==> q2 <= buf@.len(),
    {
        let (frags, q) = match read_opt_u16(buf, q, head & 32u16 != 0u16, StreamError::PlayerFrags) {
            Ok(x) => x,
            Err(e) => {
                return Err(e);
            },
        };
        let (deaths, q) = match read_opt_u16(buf, q, head & 64u16 != 0u16, StreamError::PlayerDeaths) {
            Ok(x) => x,
            Err(e) => {
                return Err(e);
            },
        };
        let (score, q) = match read_opt_u16(buf, q, head & 128u16 != 0u16, StreamError::PlayerScore) {
            Ok(x) => x,
            Err(e) => {
                return Err(e);
            },
        };
        let (name, q) = match read_opt_name(buf, q, head & 256u16 != 0u16, StreamError::PlayerName) {
            Ok(x) => x,
            Err(e) => {
                return Err(e);
            },
        };
        let (team, q) = match read_opt_team(buf, q, head & 512u16 != 0u16, StreamError::PlayerTeam) {
            Ok(x) => x,
            Err(e) => {
                return Err(e);
            },
        };
        let (ping, q) = match read_opt_u8(buf, q, head & 1024u16 != 0u16, StreamError::PlayerPing) {
            Ok(x) => x,
            Err(e) => {
                return Err(e);
            },
        };
        Ok(
            (PlayerSnapshot {
                id: p.id,
                translation: p.translation,
                rotation: p.rotation,
                velocity: p.velocity,
                frozen_amount: p.frozen_amount,
                health: p.health,
                frags,
                deaths,
                score,
                name,
                team,
                ping,
                entity: None,
            }, q),
        )
    }
}

impl MonsterSnapshot {
    /// Reads a monster record from `buf` at `*pos` and moves `*pos` past it;
    /// on error `*pos` is left at the end of `buf`.
    pub fn read_from_stream(buf: &[u8], pos: &mut usize) -> (r: Result<MonsterSnapshot, StreamError>)
        requires
            *old(pos) <= buf@.len(),
        ensures
            *final(pos) <= buf@.len(),
            match parse_monster(buf@.skip(*old(pos) as int)) {
                Ok((v, rest)) => r == Ok::<MonsterSnapshot, StreamError>(v) && buf@.skip(
                    *final(pos) as int,
                ) == rest,
                Err(e) => r == Err::<MonsterSnapshot, StreamError>(e) && *final(pos) == buf@.len(),
            },
    {
        let p0 = *pos;
        let len = buf.len();
        if p0 >= len {
            *pos = len;
            return Err(StreamError::MonsterId);
        }
        if len - p0 < 2 {
            *pos = len;
            return Err(StreamError::MonsterHead);
        }
        proof {
            lemma_skip_more(buf@, p0 as int, 2);
        }
        let id = buf[p0];
        let head = buf[p0 + 1];
        let (kind, q) = match read_opt_monster_kind(buf, p0 + 2, head & 1u8 != 0u8, StreamError::MonsterKind) {
            Ok(x) => x,
            Err(e) => {
                *pos = len;
                return Err(e);
            },
        };
        let (translation, q) = match read_opt_qvec(
            buf,
            q,
            head & 2u8 != 0u8,
            StreamError::MonsterTranslationX,
            StreamError::MonsterTranslationY,
            StreamError::MonsterTranslationZ,
        ) {
            Ok(x) => x,
            Err(e) => {
                *pos = len;
                return Err(e);
            },
        };
        let (rotation, q) = match read_opt_rotation(
            buf,
            q,
            head & 4u8 != 0u8,
            StreamError::MonsterPitch,
            StreamError::MonsterYaw,
            StreamError::MonsterRoll,
        ) {
            Ok(x) => x,
            Err(e) => {
                *pos = len;
                return Err(e);
            },
        };
        *pos = q;
        Ok(MonsterSnapshot { id, kind, translation, rotation, entity: None })
    }
}

impl PickupSnapshot {
    /// Reads a pickup record from `buf` at `*pos` and moves `*pos` past it;
    /// on error `*pos` is left at the end of `buf`.
    pub fn read_from_stream(buf: &[u8], pos: &mut usize) -> (r: Result<PickupSnapshot, StreamError>)
        requires
            *old(pos) <= buf@.len(),
        ensures
            *final(pos) <= buf@.len(),
            match parse_pickup(buf@.skip(*old(pos) as int)) {
                Ok((v, rest)) => r == Ok::<PickupSnapshot, StreamError>(v) && buf@.skip(
                    *final(pos) as int,
                ) == rest,
                Err(e) => r == Err::<PickupSnapshot, StreamError>(e) && *final(pos) == buf@.len(),
            },
    {
        let p0 = *pos;
        let len = buf.len();
        if p0 >= len {
            *pos = len;
            return Err(StreamError::PickupId);
        }
        if len - p0 < 2 {
            *pos = len;
            return Err(StreamError::PickupHead);
        }
        proof {
            lemma_skip_more(buf@, p0 as int, 2);
        }
        let id = buf[p0];
        let head = buf[p0 + 1];
        let (translation, q) = match read_opt_qvec(
            buf,
            p0 + 2,
            head & 1u8 != 0u8,
            StreamError::PickupX,
            StreamError::PickupY,
            StreamError::PickupZ,
        ) {
            Ok(x) => x,
            Err(e) => {
                *pos = len;
                return Err(e);
            },
        };
        let (kind, q) = match read_opt_pickup_kind(buf, q, head & 2u8 != 0u8, StreamError::PickupKind) {
            Ok(x) => x,
            Err(e) => {
                *pos = len;
                return Err(e);
            },
        };
        *pos = q;
        Ok(PickupSnapshot { id, translation, kind })
    }
}

fn read_players(buf: &[u8], pos: &mut usize, count: u8) -> (r: Vec<PlayerSnapshot>)
    requires
        *old(pos) <= buf@.len(),
    ensures
        *final(pos) <= buf@.len(),
        (player_views(r@), buf@.skip(*final(pos) as int)) == parse_players(
            buf@.skip(*old(pos) as int),
            count as nat,
        ),
{
    let ghost start = buf@.skip(*pos as int);
    let mut out: Vec<PlayerSnapshot> = Vec::new();
    let mut i: u8 = 0;
    assert(player_views(out@) + parse_players(start, count as nat).0 =~= parse_players(
        start,
        count as nat,
    ).0);
    while i < count
        invariant
            *pos <= buf@.len(),
            i <= count,
            parse_players(start, count as nat) == (
                player_views(out@) + parse_players(
                    buf@.skip(*pos as int),
                    (count - i) as nat,
                ).0,
                parse_players(buf@.skip(*pos as int), (count - i) as nat).1,
            ),
        decreases count - i,
    {
        let ghost before = buf@.skip(*pos as int);
        let ghost views = player_views(out@);
        let res = PlayerSnapshot::read_from_stream(buf, pos);
        match res {
            Ok(p) => {
                out.push(p);
                proof {
                    assert(player_views(out@) =~= views + seq![p@]);
                    let rest = parse_players(buf@.skip(*pos as int), (count - i - 1) as nat);
                    assert(player_views(out@) + rest.0 =~= views + (seq![p@] + rest.0));
                }
            },
            Err(_) => {
                proof {
                    assert(buf@.skip(*pos as int) =~= Seq::<u8>::empty());
                }
            },
        }
        i = i + 1;
    }
    assert(player_views(out@) + Seq::<PlayerSnapshotView>::empty() =~= player_views(out@));
    out
}

fn read_monsters(buf: &[u8], pos: &mut usize, count: u8) -> (r: Vec<MonsterSnapshot>)
    requires
        *old(pos) <= buf@.len(),
    ensures
        *final(pos) <= buf@.len(),
        (r@, buf@.skip(*final(pos) as int)) == parse_monsters(
            buf@.skip(*old(pos) as int),
            count as nat,
        ),
{
    let ghost start = buf@.skip(*pos as int);
    let mut out: Vec<MonsterSnapshot> = Vec::new();
    let mut i: u8 = 0;
    assert(out@ + parse_monsters(start, count as nat).0 =~= parse_monsters(start, count as nat).0);
    while i < count
        invariant
            *pos <= buf@.len(),
            i <= count,
            parse_monsters(start, count as nat) == (
                out@ + parse_monsters(buf@.skip(*pos as int), (count - i) as nat).0,
                parse_monsters(buf@.skip(*pos as int), (count - i) as nat).1,
            ),
        decreases count - i,
    {
        let ghost before = out@;
        let res = MonsterSnapshot::read_from_stream(buf, pos);
        match res {
            Ok(m) => {
                out.push(m);
                proof {
                    let rest = parse_monsters(buf@.skip(*pos as int), (count - i - 1) as nat);
                    assert(out@ + rest.0 =~= before + (seq![m] + rest.0));
                }
            },
            Err(_) => {
                proof {
                    assert(buf@.skip(*pos as int) =~= Seq::<u8>::empty());
                }
            },
        }
        i = i + 1;
    }
    assert(out@ + Seq::<MonsterSnapshot>::empty() =~= out@);
    out
}

fn read_pickups(buf: &[u8], pos: &mut usize, count: u8) -> (r: Vec<PickupSnapshot>)
    requires
        *old(pos) <= buf@.len(),
    ensures
        *final(pos) <= buf@.len(),
        (r@, buf@.skip(*final(pos) as int)) == parse_pickups(
            buf@.skip(*old(pos) as int),
            count as nat,
        ),
{
    let ghost start = buf@.skip(*pos as int);
    let mut out: Vec<PickupSnapshot> = Vec::new();
    let mut i: u8 = 0;
    assert(out@ + parse_pickups(start, count as nat).0 =~= parse_pickups(start, count as nat).0);
    while i < count
        invariant
            *pos <= buf@.len(),
            i <= count,
            parse_pickups(start, count as nat) == (
                out@ + parse_pickups(buf@.skip(*pos as int), (count - i) as nat).0,
                parse_pickups(buf@.skip(*pos as int), (count - i) as nat).1,
            ),
        decreases count - i,
    {
        let ghost before = out@;
        let res = PickupSnapshot::read_from_stream(buf, pos);
        match res {
            Ok(m) => {
                out.push(m);
                proof {
                    let rest = parse_pickups(buf@.skip(*pos as int), (count - i - 1) as nat);
                    assert(out@ + rest.0 =~= before + (seq![m] + rest.0));
                }
            },
            Err(_) => {
                proof {
                    assert(buf@.skip(*pos as int) =~= Seq::<u8>::empty());
                }
            },
        }
        i = i + 1;
    }
    assert(out@ + Seq::<PickupSnapshot>::empty() =~= out@);
    out
}

fn read_ids(buf: &[u8], pos: &mut usize, present: bool, ecount: StreamError, eid: StreamError) -> (r:
    Result<Vec<u8>, StreamError>)
    requires
        *old(pos) <= buf@.len(),
    ensures
        *final(pos) <= buf@.len(),
        match rd_ids(buf@.skip(*old(pos) as int), present, ecount, eid) {
            Ok((d, rest)) => r matches Ok(v) && v@ == d && buf@.skip(*final(pos) as int) == rest,
            Err(e) => r == Err::<Vec<u8>, StreamError>(e) && *final(pos) == buf@.len(),
        },
{
    let len = buf.len();
    let p0 = *pos;
    if !present {
        return Ok(Vec::new());
    }
    if p0 >= len {
        *pos = len;
        return Err(ecount);
    }
    let count = buf[p0] as usize;
    if len - (p0 + 1) < count {
        *pos = len;
        proof {
            lemma_skip_more(buf@, p0 as int, 1);
        }
        return Err(eid);
    }
    let mut out: Vec<u8> = Vec::new();
    let mut i: usize = 0;
    while i < count
        invariant
            len == buf@.len(),
            p0 + 1 + count <= len,
            i <= count,
            out@ == buf@.subrange(p0 + 1, p0 + 1 + i),
        decreases count - i,
    {
        out.push(buf[p0 + 1 + i]);
        i = i + 1;
        assert(out@ =~= buf@.subrange(p0 + 1, p0 + 1 + i));
    }
    *pos = p0 + 1 + count;
    proof {
        lemma_skip_more(buf@, p0 as int, 1 + count);
        let s = buf@.skip(p0 as int);
        assert(s.subrange(1, 1 + s[0] as int) =~= buf@.subrange(p0 + 1, p0 + 1 + count));
    }
    Ok(out)
}

fn read_player_list(buf: &[u8], pos: &mut usize, present: bool) -> (r: Result<Vec<PlayerSnapshot>, StreamError>)
    requires
        *old(pos) <= buf@.len(),
    ensures
        *final(pos) <= buf@.len(),
        match rd_player_list(buf@.skip(*old(pos) as int), present) {
            Ok((v, rest)) => r matches Ok(x) && player_views(x@) == v && buf@.skip(*final(pos) as int) == rest,
            Err(e) => r == Err::<Vec<PlayerSnapshot>, StreamError>(e) && *final(pos) == buf@.len(),
        },
{
    if !present {
        let out: Vec<PlayerSnapshot> = Vec::new();
        assert(player_views(out@) =~= Seq::empty());
        return Ok(out);
    }
    let len = buf.len();
    if *pos >= len {
        *pos = len;
        return Err(StreamError::PlayerCount);
    }
    let count = buf[*pos];
    proof {
        lemma_skip_more(buf@, *pos as int, 1);
    }
    *pos = *pos + 1;
    Ok(read_players(buf, pos, count))
}

fn read_monster_list(buf: &[u8], pos: &mut usize, present: bool) -> (r: Result<Vec<MonsterSnapshot>, StreamError>)
    requires
        *old(pos) <= buf@.len(),
    ensures
        *final(pos) <= buf@.len(),
        match rd_monster_list(buf@.skip(*old(pos) as int), present) {
            Ok((v, rest)) => r matches Ok(x) && x@ == v && buf@.skip(*final(pos) as int) == rest,
            Err(e) => r == Err::<Vec<MonsterSnapshot>, StreamError>(e) && *final(pos) == buf@.len(),
        },
{
    if !present {
        return Ok(Vec::new());
    }
    let len = buf.len();
    if *pos >= len {
        *pos = len;
        return Err(StreamError::MonsterCount);
    }
    let count = buf[*pos];
    proof {
        lemma_skip_more(buf@, *pos as int, 1);
    }
    *pos = *pos + 1;
    Ok(read_monsters(buf, pos, count))
}

fn read_pickup_list(buf: &[u8], pos: &mut usize, present: bool) -> (r: Result<Vec<PickupSnapshot>, StreamError>)
    requires
        *old(pos) <= buf@.len(),
    ensures
        *final(pos) <= buf@.len(),
        match rd_pickup_list(buf@.skip(*old(pos) as int), present) {
            Ok((v, rest)) => r matches Ok(x) && x@ == v && buf@.skip(*final(pos) as int) == rest,
            Err(e) => r == Err::<Vec<PickupSnapshot>, StreamError>(e) && *final(pos) == buf@.len(),
        },
{
    if !present {
        return Ok(Vec::new());
    }
    let len = buf.len();
    if *pos >= len {
        *pos = len;
        return Err(StreamError::PickupCount);
    }
    let count = buf[*pos];
    proof {
        lemma_skip_more(buf@, *pos as int, 1);
    }
    *pos = *pos + 1;
    Ok(read_pickups(buf, pos, count))
}

impl Snapshot {
    /// Reads a snapshot from `buf` at `*pos` and moves `*pos` past it; on
    /// error `*pos` is left at the end of `buf`. A player, monster or pickup
    /// record that cannot be read is skipped.
    pub fn read_from_stream(buf: &[u8], pos: &mut usize) -> (r: Result<Snapshot, StreamError>)
        requires
            *old(pos) <= buf@.len(),
        ensures
            *final(pos) <= buf@.len(),
            match parse_snapshot(buf@.skip(*old(pos) as int)) {
                Ok((v, rest)) => r matches Ok(x) && x@ == v && buf@.skip(*final(pos) as int)
                    == rest,
                Err(e) => r == Err::<Snapshot, StreamError>(e) && *final(pos) == buf@.len(),
            },
    {
        let p0 = *pos;
        let len = buf.len();
        if len - p0 < 8 {
            *pos = len;
            return Err(StreamError::SnapshotId);
        }
        if len - p0 < 10 {
            *pos = len;
            return Err(StreamError::SnapshotHead);
        }
        proof {
            lemma_skip_more(buf@, p0 as int, 10);
            lemma_be_skip(buf@, p0 as int, 8);
            lemma_be_skip(buf@, p0 + 8, 2);
            lemma_skip_more(buf@, p0 as int, 8);
            let s = buf@.skip(p0 as int);
            assert(be_u16(s, 8) == be_u16(s.skip(8), 0));
        }
        let id = read_be_u64(buf, p0);
        let head = read_be_u16(buf, p0 + 8);
        *pos = p0 + 10;
        Self::read_fields(buf, pos, id, head)
    }

    fn read_fields(buf: &[u8], pos: &mut usize, id: u64, head: u16) -> (r: Result<Snapshot, StreamError>)
        requires
            *old(pos) <= buf@.len(),
        ensures
            *final(pos) <= buf@.len(),
            match parse_snapshot_fields(buf@.skip(*old(pos) as int), id, head) {
                Ok((v, rest)) => r matches Ok(x) && x@ == v && buf@.skip(*final(pos) as int)
                    == rest,
                Err(e) => r == Err::<Snapshot, StreamError>(e) && *final(pos) == buf@.len(),
            },
    {
        let players = read_player_list(buf, pos, head & 2u16 != 0u16)?;
        let monsters = read_monster_list(buf, pos, head & 4u16 != 0u16)?;
        let pickups = read_pickup_list(buf, pos, head & 8u16 != 0u16)?;
        let partial = Snapshot {
            id,
            absolute: head & 1u16 != 0u16,
            players,
            monsters,
            pickups,
            local_player_id: None,
            local_last_processed_input_id: None,
            player_deletions: Vec::new(),
            monster_deletions: Vec::new(),
            pickup_deletions: Vec::new(),
        };
        proof {
            assert(partial@.player_deletions =~= Seq::<u8>::empty());
            assert(partial@.monster_deletions =~= Seq::<u8>::empty());
            assert(partial@.pickup_deletions =~= Seq::<u8>::empty());
        }
        Self::read_tail(buf, pos, head, partial)
    }

    fn read_tail(buf: &[u8], pos: &mut usize, head: u16, partial: Snapshot) -> (r: Result<Snapshot, StreamError>)
        requires
            *old(pos) <= buf@.len(),
        ensures
            *final(pos) <= buf@.len(),
            match parse_snapshot_tail(buf@.skip(*old(pos) as int), head, partial@) {
                Ok((v, rest)) => r matches Ok(x) && x@ == v && buf@.skip(*final(pos) as int)
                    == rest,
                Err(e) => r == Err::<Snapshot, StreamError>(e) && *final(pos) == buf@.len(),
            },
    {
        let len = buf.len();
        let (local_player_id, q) = match read_opt_u8(
            buf,
            *pos,
            head & 16u16 != 0u16,
            StreamError::LocalPlayerId,
        ) {
            Ok(x) => x,
            Err(e) => {
                *pos = len;
                return Err(e);
            },
        };
        let (local_last_processed_input_id, q) = match read_opt_u64(
            buf,
            q,
            head & 32u16 != 0u16,
            StreamError::LocalLastProcessedInputId,
        ) {
            Ok(x) => x,
            Err(e) => {
                *pos = len;
                return Err(e);
            },
        };
        *pos = q;
        let player_deletions = read_ids(
            buf,
            pos,
            head & 64u16 != 0u16,
            StreamError::PlayerDeletionsCount,
            StreamError::PlayerDeletion,
        )?;
        let monster_deletions = read_ids(
            buf,
            pos,
            head & 128u16 != 0u16,
            StreamError::MonsterDeletionsCount,
            StreamError::MonsterDeletion,
        )?;
        let pickup_deletions = read_ids(
            buf,
            pos,
            head & 256u16 != 0u16,
            StreamError::PickupDeletionsCount,
            StreamError::PickupDeletion,
        )?;
        Ok(
            Snapshot {
                id: partial.id,
                absolute: partial.absolute,
                players: partial.players,
                monsters: partial.monsters,
                pickups: partial.pickups,
                local_player_id,
                local_last_processed_input_id,
                player_deletions,
                monster_deletions,
                pickup_deletions,
            },
        )
    }

    /// Reads a snapshot from the start of `bytes`.
    pub fn from_bytes(bytes: &[u8]) -> (r: Result<Snapshot, StreamError>)
        ensures
            match parse_snapshot(bytes@) {
                Ok((v, _)) => r matches Ok(x) && x@ == v,
                Err(e) => r == Err::<Snapshot, StreamError>(e),
            },
    {
        let mut pos: usize = 0;
        assert(bytes@.skip(0) =~= bytes@);
        Self::read_from_stream(bytes, &mut pos)
    }
}

} // verus!
