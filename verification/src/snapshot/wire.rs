//! The snapshot wire format, stated as an encoder and a decoder over byte
//! sequences, and the proof that decoding what was encoded gives back the
//! snapshot.
//!
//! Encoders take the bytes that follow (`k`) and put their own in front, so
//! that a whole snapshot reads as one nested term. Decoders take the bytes
//! from the current position on and return what they read together with the
//! bytes that remain. A read that runs out of bytes leaves the reader at the
//! end of its input.
use super::{
    MonsterSnapshot, PickupSnapshot, PlayerSnapshotView, SnapshotView, StreamError, Vec3Bits,
};
use crate::bytes::{
    be_i16, be_u16, be_u32, be_u64, i16_bytes, lemma_i16_roundtrip, lemma_u16_roundtrip,
    lemma_u32_roundtrip, lemma_u64_roundtrip, u16_bytes, u32_bytes, u64_bytes,
};
use crate::components::lemma_team_byte_roundtrip;
use crate::monsters::lemma_monster_kind_byte_roundtrip;
use crate::pickups::lemma_pickup_kind_byte_roundtrip;
use crate::components::{team_from_u8, team_to_u8, Team};
use crate::monsters::{monster_kind_from_u8, monster_kind_to_u8, MonsterKind};
use crate::net::serialize::{QuantizedRotation, QuantizedVec3U16};
use crate::pickups::{pickup_kind_from_u8, pickup_kind_to_u8, PickupKind};
use vstd::prelude::*;

verus! {

// ---------------------------------------------------------------------
// presence flags
// ---------------------------------------------------------------------
/// `h` with `bit` set when `b` holds.
pub open spec fn set_bit16(h: u16, b: bool, bit: u16) -> u16 {
    if b {
        h | bit
    } else {
        h
    }
}

/// `h` with `bit` set when `b` holds.
pub open spec fn set_bit8(h: u8, b: bool, bit: u8) -> u8 {
    if b {
        h | bit
    } else {
        h
    }
}

/// Eleven presence flags packed from the lowest bit up.
pub open spec fn flags11(
    b0: bool,
    b1: bool,
    b2: bool,
    b3: bool,
    b4: bool,
    b5: bool,
    b6: bool,
    b7: bool,
    b8: bool,
    b9: bool,
    b10: bool,
) -> u16 {
    set_bit16(
        set_bit16(
            set_bit16(
                set_bit16(
                    set_bit16(
                        set_bit16(
                            set_bit16(
                                set_bit16(
                                    set_bit16(
                                        set_bit16(set_bit16(0u16, b0, 1u16), b1, 2u16),
                                        b2,
                                        4u16,
                                    ),
                                    b3,
                                    8u16,
                                ),
                                b4,
                                16u16,
                            ),
                            b5,
                            32u16,
                        ),
                        b6,
                        64u16,
                    ),
                    b7,
                    128u16,
                ),
                b8,
                256u16,
            ),
            b9,
            512u16,
        ),
        b10,
        1024u16,
    )
}

/// Each flag packed by `flags11` reads back from its own bit.
pub proof fn lemma_flags11(
    b0: bool,
    b1: bool,
    b2: bool,
    b3: bool,
    b4: bool,
    b5: bool,
    b6: bool,
    b7: bool,
    b8: bool,
    b9: bool,
    b10: bool,
)
    by (bit_vector)
    ensures
        (flags11(b0, b1, b2, b3, b4, b5, b6, b7, b8, b9, b10) & 1u16 != 0u16) == b0,
        (flags11(b0, b1, b2, b3, b4, b5, b6, b7, b8, b9, b10) & 2u16 != 0u16) == b1,
        (flags11(b0, b1, b2, b3, b4, b5, b6, b7, b8, b9, b10) & 4u16 != 0u16) == b2,
        (flags11(b0, b1, b2, b3, b4, b5, b6, b7, b8, b9, b10) & 8u16 != 0u16) == b3,
        (flags11(b0, b1, b2, b3, b4, b5, b6, b7, b8, b9, b10) & 16u16 != 0u16) == b4,
        (flags11(b0, b1, b2, b3, b4, b5, b6, b7, b8, b9, b10) & 32u16 != 0u16) == b5,
        (flags11(b0, b1, b2, b3, b4, b5, b6, b7, b8, b9, b10) & 64u16 != 0u16) == b6,
        (flags11(b0, b1, b2, b3, b4, b5, b6, b7, b8, b9, b10) & 128u16 != 0u16) == b7,
        (flags11(b0, b1, b2, b3, b4, b5, b6, b7, b8, b9, b10) & 256u16 != 0u16) == b8,
        (flags11(b0, b1, b2, b3, b4, b5, b6, b7, b8, b9, b10) & 512u16 != 0u16) == b9,
        (flags11(b0, b1, b2, b3, b4, b5, b6, b7, b8, b9, b10) & 1024u16 != 0u16) == b10,
{
}

/// Three presence flags packed from the lowest bit up.
pub open spec fn flags3(b0: bool, b1: bool, b2: bool) -> u8 {
    set_bit8(set_bit8(set_bit8(0u8, b0, 1u8), b1, 2u8), b2, 4u8)
}

/// Each flag packed by `flags3` reads back from its own bit.
pub proof fn lemma_flags3(b0: bool, b1: bool, b2: bool)
    by (bit_vector)
    ensures
        (flags3(b0, b1, b2) & 1u8 != 0u8) == b0,
        (flags3(b0, b1, b2) & 2u8 != 0u8) == b1,
        (flags3(b0, b1, b2) & 4u8 != 0u8) == b2,
{
}

/// The presence flags of a player record.
pub open spec fn player_head(p: PlayerSnapshotView) -> u16 {
    flags11(
        p.translation is Some,
        p.rotation is Some,
        p.velocity is Some,
        p.frozen_amount is Some,
        p.health is Some,
        p.frags is Some,
        p.deaths is Some,
        p.score is Some,
        p.name is Some,
        p.team is Some,
        p.ping is Some,
    )
}

/// The presence flags of a monster record.
pub open spec fn monster_head(m: MonsterSnapshot) -> u8 {
    flags3(m.kind is Some, m.translation is Some, m.rotation is Some)
}

/// The presence flags of a pickup record.
pub open spec fn pickup_head(p: PickupSnapshot) -> u8 {
    flags3(p.translation is Some, p.kind is Some, false)
}

/// The presence flags of a snapshot.
pub open spec fn snapshot_head(v: SnapshotView) -> u16 {
    flags11(
        v.absolute,
        v.players.len() > 0,
        v.monsters.len() > 0,
        v.pickups.len() > 0,
        v.local_player_id is Some,
        v.local_last_processed_input_id is Some,
        v.player_deletions.len() > 0,
        v.monster_deletions.len() > 0,
        v.pickup_deletions.len() > 0,
        false,
        false,
    )
}

// ---------------------------------------------------------------------
// encoding
// ---------------------------------------------------------------------
pub open spec fn vec3bits_bytes(t: Vec3Bits) -> Seq<u8> {
    u32_bytes(t.x) + u32_bytes(t.y) + u32_bytes(t.z)
}

pub open spec fn rotation_bytes(r: QuantizedRotation) -> Seq<u8> {
    seq![r.pitch, r.yaw, r.roll]
}

pub open spec fn qvec_bytes(v: QuantizedVec3U16) -> Seq<u8> {
    u16_bytes(v.x) + u16_bytes(v.y) + u16_bytes(v.z)
}

pub open spec fn enc_opt_u8(o: Option<u8>, k: Seq<u8>) -> Seq<u8> {
    match o {
        Some(v) => seq![v] + k,
        None => k,
    }
}

pub open spec fn enc_opt_u16(o: Option<u16>, k: Seq<u8>) -> Seq<u8> {
    match o {
        Some(v) => u16_bytes(v) + k,
        None => k,
    }
}

pub open spec fn enc_opt_i16(o: Option<i16>, k: Seq<u8>) -> Seq<u8> {
    match o {
        Some(v) => i16_bytes(v) + k,
        None => k,
    }
}

pub open spec fn enc_opt_u64(o: Option<u64>, k: Seq<u8>) -> Seq<u8> {
    match o {
        Some(v) => u64_bytes(v) + k,
        None => k,
    }
}

pub open spec fn enc_opt_vec3bits(o: Option<Vec3Bits>, k: Seq<u8>) -> Seq<u8> {
    match o {
        Some(t) => vec3bits_bytes(t) + k,
        None => k,
    }
}

pub open spec fn enc_opt_rotation(o: Option<QuantizedRotation>, k: Seq<u8>) -> Seq<u8> {
    match o {
        Some(r) => rotation_bytes(r) + k,
        None => k,
    }
}

pub open spec fn enc_opt_qvec(o: Option<QuantizedVec3U16>, k: Seq<u8>) -> Seq<u8> {
    match o {
        Some(v) => qvec_bytes(v) + k,
        None => k,
    }
}

pub open spec fn enc_opt_bytes(o: Option<Seq<u8>>, k: Seq<u8>) -> Seq<u8> {
    match o {
        Some(n) => n + k,
        None => k,
    }
}

pub open spec fn enc_opt_team(o: Option<Team>, k: Seq<u8>) -> Seq<u8> {
    match o {
        Some(t) => seq![team_to_u8(t)] + k,
        None => k,
    }
}

pub open spec fn enc_opt_monster_kind(o: Option<MonsterKind>, k: Seq<u8>) -> Seq<u8> {
    match o {
        Some(t) => seq![monster_kind_to_u8(t)] + k,
        None => k,
    }
}

pub open spec fn enc_opt_pickup_kind(o: Option<PickupKind>, k: Seq<u8>) -> Seq<u8> {
    match o {
        Some(t) => seq![pickup_kind_to_u8(t)] + k,
        None => k,
    }
}

/// The fields of a player record after its id and flags.
pub open spec fn enc_player_fields(p: PlayerSnapshotView, k: Seq<u8>) -> Seq<u8> {
    enc_opt_vec3bits(
        p.translation,
        enc_opt_rotation(
            p.rotation,
            enc_opt_qvec(
                p.velocity,
                enc_opt_i16(
                    p.health,
                    enc_opt_u8(
                        p.frozen_amount,
                        enc_opt_u16(
                            p.frags,
                            enc_opt_u16(
                                p.deaths,
                                enc_opt_u16(
                                    p.score,
                                    enc_opt_bytes(
                                        p.name,
                                        enc_opt_team(p.team, enc_opt_u8(p.ping, k)),
                                    ),
                                ),
                            ),
                        ),
                    ),
                ),
            ),
        ),
    )
}

/// A player record followed by `k`.
pub open spec fn enc_player(p: PlayerSnapshotView, k: Seq<u8>) -> Seq<u8> {
    seq![p.id] + (u16_bytes(player_head(p)) + enc_player_fields(p, k))
}

/// A monster record followed by `k`.
pub open spec fn enc_monster(m: MonsterSnapshot, k: Seq<u8>) -> Seq<u8> {
    seq![m.id] + (seq![monster_head(m)] + enc_opt_monster_kind(
        m.kind,
        enc_opt_qvec(m.translation, enc_opt_rotation(m.rotation, k)),
    ))
}

/// A pickup record followed by `k`.
pub open spec fn enc_pickup(p: PickupSnapshot, k: Seq<u8>) -> Seq<u8> {
    seq![p.id] + (seq![pickup_head(p)] + enc_opt_qvec(
        p.translation,
        enc_opt_pickup_kind(p.kind, k),
    ))
}

/// Player records one after the other, followed by `k`.
pub open spec fn enc_players(ps: Seq<PlayerSnapshotView>, k: Seq<u8>) -> Seq<u8>
    decreases ps.len(),
{
    if ps.len() == 0 {
        k
    } else {
        enc_player(ps[0], enc_players(ps.drop_first(), k))
    }
}

/// Monster records one after the other, followed by `k`.
pub open spec fn enc_monsters(ms: Seq<MonsterSnapshot>, k: Seq<u8>) -> Seq<u8>
    decreases ms.len(),
{
    if ms.len() == 0 {
        k
    } else {
        enc_monster(ms[0], enc_monsters(ms.drop_first(), k))
    }
}

/// Pickup records one after the other, followed by `k`.
pub open spec fn enc_pickups(ps: Seq<PickupSnapshot>, k: Seq<u8>) -> Seq<u8>
    decreases ps.len(),
{
    if ps.len() == 0 {
        k
    } else {
        enc_pickup(ps[0], enc_pickups(ps.drop_first(), k))
    }
}

/// A non-empty list is written as its length byte and its records; an empty
/// one is left out.
pub open spec fn enc_player_list(ps: Seq<PlayerSnapshotView>, k: Seq<u8>) -> Seq<u8> {
    if ps.len() > 0 {
        seq![ps.len() as u8] + enc_players(ps, k)
    } else {
        k
    }
}

pub open spec fn enc_monster_list(ms: Seq<MonsterSnapshot>, k: Seq<u8>) -> Seq<u8> {
    if ms.len() > 0 {
        seq![ms.len() as u8] + enc_monsters(ms, k)
    } else {
        k
    }
}

pub open spec fn enc_pickup_list(ps: Seq<PickupSnapshot>, k: Seq<u8>) -> Seq<u8> {
    if ps.len() > 0 {
        seq![ps.len() as u8] + enc_pickups(ps, k)
    } else {
        k
    }
}

/// A non-empty list of ids is written as its length byte and the ids.
pub open spec fn enc_ids(d: Seq<u8>, k: Seq<u8>) -> Seq<u8> {
    if d.len() > 0 {
        seq![d.len() as u8] + (d + k)
    } else {
        k
    }
}

/// The parts of a snapshot after its id and flags.
pub open spec fn enc_snapshot_fields(v: SnapshotView, k: Seq<u8>) -> Seq<u8> {
    enc_player_list(
        v.players,
        enc_monster_list(
            v.monsters,
            enc_pickup_list(
                v.pickups,
                enc_opt_u8(
                    v.local_player_id,
                    enc_opt_u64(
                        v.local_last_processed_input_id,
                        enc_ids(
                            v.player_deletions,
                            enc_ids(v.monster_deletions, enc_ids(v.pickup_deletions, k)),
                        ),
                    ),
                ),
            ),
        ),
    )
}

/// A snapshot followed by `k`.
pub open spec fn enc_snapshot(v: SnapshotView, k: Seq<u8>) -> Seq<u8> {
    u64_bytes(v.id) + (u16_bytes(snapshot_head(v)) + enc_snapshot_fields(v, k))
}

/// The bytes of a snapshot.
pub open spec fn encode_snapshot(v: SnapshotView) -> Seq<u8> {
    enc_snapshot(v, Seq::empty())
}

// ---------------------------------------------------------------------
// decoding
// ---------------------------------------------------------------------
/// What one optional field reads: the value and the bytes after it.
pub type Read<T> = Result<(T, Seq<u8>), StreamError>;

pub open spec fn rd_opt_u8(s: Seq<u8>, present: bool, e: StreamError) -> Read<Option<u8>> {
    if !present {
        Ok((None, s))
    } else if s.len() >= 1 {
        Ok((Some(s[0]), s.skip(1)))
    } else {
        Err(e)
    }
}

pub open spec fn rd_opt_u16(s: Seq<u8>, present: bool, e: StreamError) -> Read<Option<u16>> {
    if !present {
        Ok((None, s))
    } else if s.len() >= 2 {
        Ok((Some(be_u16(s, 0)), s.skip(2)))
    } else {
        Err(e)
    }
}

pub open spec fn rd_opt_i16(s: Seq<u8>, present: bool, e: StreamError) -> Read<Option<i16>> {
    if !present {
        Ok((None, s))
    } else if s.len() >= 2 {
        Ok((Some(be_i16(s, 0)), s.skip(2)))
    } else {
        Err(e)
    }
}

pub open spec fn rd_opt_u64(s: Seq<u8>, present: bool, e: StreamError) -> Read<Option<u64>> {
    if !present {
        Ok((None, s))
    } else if s.len() >= 8 {
        Ok((Some(be_u64(s, 0)), s.skip(8)))
    } else {
        Err(e)
    }
}

pub open spec fn rd_opt_name(s: Seq<u8>, present: bool, e: StreamError) -> Read<Option<Seq<u8>>> {
    if !present {
        Ok((None, s))
    } else if s.len() >= 32 {
        Ok((Some(s.take(32)), s.skip(32)))
    } else {
        Err(e)
    }
}

pub open spec fn rd_opt_team(s: Seq<u8>, present: bool, e: StreamError) -> Read<Option<Team>> {
    if !present {
        Ok((None, s))
    } else if s.len() >= 1 {
        Ok((Some(team_from_u8(s[0])), s.skip(1)))
    } else {
        Err(e)
    }
}

pub open spec fn rd_opt_monster_kind(s: Seq<u8>, present: bool, e: StreamError) -> Read<
    Option<MonsterKind>,
> {
    if !present {
        Ok((None, s))
    } else if s.len() >= 1 {
        Ok((Some(monster_kind_from_u8(s[0])), s.skip(1)))
    } else {
        Err(e)
    }
}

pub open spec fn rd_opt_pickup_kind(s: Seq<u8>, present: bool, e: StreamError) -> Read<
    Option<PickupKind>,
> {
    if !present {
        Ok((None, s))
    } else if s.len() >= 1 {
        Ok((Some(pickup_kind_from_u8(s[0])), s.skip(1)))
    } else {
        Err(e)
    }
}

/// Three big-endian `u32` bit patterns; each missing one has its own error.
pub open spec fn rd_opt_vec3bits(
    s: Seq<u8>,
    present: bool,
    ex: StreamError,
    ey: StreamError,
    ez: StreamError,
) -> Read<Option<Vec3Bits>> {
    if !present {
        Ok((None, s))
    } else if s.len() < 4 {
        Err(ex)
    } else if s.len() < 8 {
        Err(ey)
    } else if s.len() < 12 {
        Err(ez)
    } else {
        Ok((Some(Vec3Bits { x: be_u32(s, 0), y: be_u32(s, 4), z: be_u32(s, 8) }), s.skip(12)))
    }
}

/// Three angle bytes; each missing one has its own error.
pub open spec fn rd_opt_rotation(
    s: Seq<u8>,
    present: bool,
    ep: StreamError,
    ey: StreamError,
    er: StreamError,
) -> Read<Option<QuantizedRotation>> {
    if !present {
        Ok((None, s))
    } else if s.len() < 1 {
        Err(ep)
    } else if s.len() < 2 {
        Err(ey)
    } else if s.len() < 3 {
        Err(er)
    } else {
        Ok((Some(QuantizedRotation { pitch: s[0], yaw: s[1], roll: s[2] }), s.skip(3)))
    }
}

/// Three big-endian `u16` axes; each missing one has its own error.
pub open spec fn rd_opt_qvec(
    s: Seq<u8>,
    present: bool,
    ex: StreamError,
    ey: StreamError,
    ez: StreamError,
) -> Read<Option<QuantizedVec3U16>> {
    if !present {
        Ok((None, s))
    } else if s.len() < 2 {
        Err(ex)
    } else if s.len() < 4 {
        Err(ey)
    } else if s.len() < 6 {
        Err(ez)
    } else {
        Ok((Some(QuantizedVec3U16 { x: be_u16(s, 0), y: be_u16(s, 2), z: be_u16(s, 4) }), s.skip(6)))
    }
}

/// The fields of a player record after its id and flags.
pub open spec fn parse_player_fields(s: Seq<u8>, id: u8, head: u16) -> Read<PlayerSnapshotView> {
    match rd_opt_vec3bits(
        s,
        head & 1u16 != 0u16,
        StreamError::PlayerTranslationX,
        StreamError::PlayerTranslationY,
        StreamError::PlayerTranslationZ,
    ) {
        Err(e) => Err(e),
        Ok((translation, s1)) => match rd_opt_rotation(
            s1,
            head & 2u16 != 0u16,
            StreamError::PlayerPitch,
            StreamError::PlayerYaw,
            StreamError::PlayerRoll,
        ) {
            Err(e) => Err(e),
            Ok((rotation, s2)) => match rd_opt_qvec(
                s2,
                head & 4u16 != 0u16,
                StreamError::PlayerVelocityX,
                StreamError::PlayerVelocityY,
                StreamError::PlayerVelocityZ,
            ) {
                Err(e) => Err(e),
                Ok((velocity, s3)) => match rd_opt_i16(
                    s3,
                    head & 16u16 != 0u16,
                    StreamError::PlayerHealth,
                ) {
                    Err(e) => Err(e),
                    Ok((health, s4)) => match rd_opt_u8(
                        s4,
                        head & 8u16 != 0u16,
                        StreamError::FrozenAmount,
                    ) {
                        Err(e) => Err(e),
                        Ok((frozen_amount, s5)) => parse_player_tail(
                            s5,
                            head,
                            PlayerSnapshotView {
                                id,
                                translation,
                                rotation,
                                velocity,
                                frozen_amount,
                                health,
                                frags: None,
                                deaths: None,
                                score: None,
                                name: None,
                                team: None,
                                ping: None,
                                entity: None,
                            },
                        ),
                    },
                },
            },
        },
    }
}

/// The last six fields of a player record, filled into `p`.
pub open spec fn parse_player_tail(s: Seq<u8>, head: u16, p: PlayerSnapshotView) -> Read<
    PlayerSnapshotView,
> {
    match rd_opt_u16(s, head & 32u16 != 0u16, StreamError::PlayerFrags) {
        Err(e) => Err(e),
        Ok((frags, s6)) => match rd_opt_u16(s6, head & 64u16 != 0u16, StreamError::PlayerDeaths) {
            Err(e) => Err(e),
            Ok((deaths, s7)) => match rd_opt_u16(
                s7,
                head & 128u16 != 0u16,
                StreamError::PlayerScore,
            ) {
                Err(e) => Err(e),
                Ok((score, s8)) => match rd_opt_name(
                    s8,
                    head & 256u16 != 0u16,
                    StreamError::PlayerName,
                ) {
                    Err(e) => Err(e),
                    Ok((name, s9)) => match rd_opt_team(
                        s9,
                        head & 512u16 != 0u16,
                        StreamError::PlayerTeam,
                    ) {
                        Err(e) => Err(e),
                        Ok((team, s10)) => match rd_opt_u8(
                            s10,
                            head & 1024u16 != 0u16,
                            StreamError::PlayerPing,
                        ) {
                            Err(e) => Err(e),
                            Ok((ping, s11)) => Ok(
                                (
                                    PlayerSnapshotView {
                                        id: p.id,
                                        translation: p.translation,
                                        rotation: p.rotation,
                                        velocity: p.velocity,
                                        frozen_amount: p.frozen_amount,
                                        health: p.health,
                                        frags,
                                        deaths,
                                        score,
                                        name,
                                        team,
                                        ping,
                                        entity: None,
                                    },
                                    s11,
                                ),
                            ),
                        },
                    },
                },
            },
        },
    }
}

/// A player record: id, flags, then the flagged fields.
pub open spec fn parse_player(s: Seq<u8>) -> Read<PlayerSnapshotView> {
    if s.len() < 1 {
        Err(StreamError::SnapshotId)
    } else if s.len() < 3 {
        Err(StreamError::SnapshotHead)
    } else {
        parse_player_fields(s.skip(3), s[0], be_u16(s, 1))
    }
}

/// A monster record: id, flags, then kind, position and rotation as
/// flagged.
pub open spec fn parse_monster(s: Seq<u8>) -> Read<MonsterSnapshot> {
    if s.len() < 1 {
        Err(StreamError::MonsterId)
    } else if s.len() < 2 {
        Err(StreamError::MonsterHead)
    } else {
        let id = s[0];
        let head = s[1];
        match rd_opt_monster_kind(s.skip(2), head & 1u8 != 0u8, StreamError::MonsterKind) {
            Err(e) => Err(e),
            Ok((kind, s1)) => match rd_opt_qvec(
                s1,
                head & 2u8 != 0u8,
                StreamError::MonsterTranslationX,
                StreamError::MonsterTranslationY,
                StreamError::MonsterTranslationZ,
            ) {
                Err(e) => Err(e),
                Ok((translation, s2)) => match rd_opt_rotation(
                    s2,
                    head & 4u8 != 0u8,
                    StreamError::MonsterPitch,
                    StreamError::MonsterYaw,
                    StreamError::MonsterRoll,
                ) {
                    Err(e) => Err(e),
                    Ok((rotation, s3)) => Ok(
                        (MonsterSnapshot { id, kind, translation, rotation, entity: None }, s3),
                    ),
                },
            },
        }
    }
}

/// A pickup record: id, flags, then position and kind as flagged.
pub open spec fn parse_pickup(s: Seq<u8>) -> Read<PickupSnapshot> {
    if s.len() < 1 {
        Err(StreamError::PickupId)
    } else if s.len() < 2 {
        Err(StreamError::PickupHead)
    } else {
        let id = s[0];
        let head = s[1];
        match rd_opt_qvec(
            s.skip(2),
            head & 1u8 != 0u8,
            StreamError::PickupX,
            StreamError::PickupY,
            StreamError::PickupZ,
        ) {
            Err(e) => Err(e),
            Ok((translation, s1)) => match rd_opt_pickup_kind(
                s1,
                head & 2u8 != 0u8,
                StreamError::PickupKind,
            ) {
                Err(e) => Err(e),
                Ok((kind, s2)) => Ok((PickupSnapshot { id, translation, kind }, s2)),
            },
        }
    }
}

/// `n` player records; one that cannot be read is skipped and leaves the
/// reader at the end of its input.
pub open spec fn parse_players(s: Seq<u8>, n: nat) -> (Seq<PlayerSnapshotView>, Seq<u8>)
    decreases n,
{
    if n == 0 {
        (Seq::empty(), s)
    } else {
        match parse_player(s) {
            Ok((p, r)) => {
                let (ps, r2) = parse_players(r, (n - 1) as nat);
                (seq![p] + ps, r2)
            },
            Err(_) => parse_players(Seq::empty(), (n - 1) as nat),
        }
    }
}

/// `n` monster records, skipping those that cannot be read.
pub open spec fn parse_monsters(s: Seq<u8>, n: nat) -> (Seq<MonsterSnapshot>, Seq<u8>)
    decreases n,
{
    if n == 0 {
        (Seq::empty(), s)
    } else {
        match parse_monster(s) {
            Ok((m, r)) => {
                let (ms, r2) = parse_monsters(r, (n - 1) as nat);
                (seq![m] + ms, r2)
            },
            Err(_) => parse_monsters(Seq::empty(), (n - 1) as nat),
        }
    }
}

/// `n` pickup records, skipping those that cannot be read.
pub open spec fn parse_pickups(s: Seq<u8>, n: nat) -> (Seq<PickupSnapshot>, Seq<u8>)
    decreases n,
{
    if n == 0 {
        (Seq::empty(), s)
    } else {
        match parse_pickup(s) {
            Ok((p, r)) => {
                let (ps, r2) = parse_pickups(r, (n - 1) as nat);
                (seq![p] + ps, r2)
            },
            Err(_) => parse_pickups(Seq::empty(), (n - 1) as nat),
        }
    }
}

pub open spec fn rd_player_list(s: Seq<u8>, present: bool) -> Read<Seq<PlayerSnapshotView>> {
    if !present {
        Ok((Seq::empty(), s))
    } else if s.len() < 1 {
        Err(StreamError::PlayerCount)
    } else {
        Ok(parse_players(s.skip(1), s[0] as nat))
    }
}

pub open spec fn rd_monster_list(s: Seq<u8>, present: bool) -> Read<Seq<MonsterSnapshot>> {
    if !present {
        Ok((Seq::empty(), s))
    } else if s.len() < 1 {
        Err(StreamError::MonsterCount)
    } else {
        Ok(parse_monsters(s.skip(1), s[0] as nat))
    }
}

pub open spec fn rd_pickup_list(s: Seq<u8>, present: bool) -> Read<Seq<PickupSnapshot>> {
    if !present {
        Ok((Seq::empty(), s))
    } else if s.len() < 1 {
        Err(StreamError::PickupCount)
    } else {
        Ok(parse_pickups(s.skip(1), s[0] as nat))
    }
}

/// A count byte and that many ids.
pub open spec fn rd_ids(
    s: Seq<u8>,
    present: bool,
    ecount: StreamError,
    eid: StreamError,
) -> Read<Seq<u8>> {
    if !present {
        Ok((Seq::empty(), s))
    } else if s.len() < 1 {
        Err(ecount)
    } else if s.len() - 1 < s[0] {
        Err(eid)
    } else {
        Ok((s.subrange(1, 1 + s[0] as int), s.skip(1 + s[0] as int)))
    }
}

/// The parts of a snapshot after its id and flags.
pub open spec fn parse_snapshot_fields(s: Seq<u8>, id: u64, head: u16) -> Read<SnapshotView> {
    match rd_player_list(s, head & 2u16 != 0u16) {
        Err(e) => Err(e),
        Ok((players, s1)) => match rd_monster_list(s1, head & 4u16 != 0u16) {
            Err(e) => Err(e),
            Ok((monsters, s2)) => match rd_pickup_list(s2, head & 8u16 != 0u16) {
                Err(e) => Err(e),
                Ok((pickups, s3)) => parse_snapshot_tail(
                    s3,
                    head,
                    SnapshotView {
                        id,
                        absolute: head & 1u16 != 0u16,
                        players,
                        monsters,
                        pickups,
                        local_player_id: None,
                        local_last_processed_input_id: None,
                        player_deletions: Seq::empty(),
                        monster_deletions: Seq::empty(),
                        pickup_deletions: Seq::empty(),
                    },
                ),
            },
        },
    }
}

/// The parts of a snapshot after its lists, filled into `v`.
pub open spec fn parse_snapshot_tail(s: Seq<u8>, head: u16, v: SnapshotView) -> Read<SnapshotView> {
    match rd_opt_u8(s, head & 16u16 != 0u16, StreamError::LocalPlayerId) {
        Err(e) => Err(e),
        Ok((local_player_id, s4)) => match rd_opt_u64(
            s4,
            head & 32u16 != 0u16,
            StreamError::LocalLastProcessedInputId,
        ) {
            Err(e) => Err(e),
            Ok((local_last_processed_input_id, s5)) => match rd_ids(
                s5,
                head & 64u16 != 0u16,
                StreamError::PlayerDeletionsCount,
                StreamError::PlayerDeletion,
            ) {
                Err(e) => Err(e),
                Ok((player_deletions, s6)) => match rd_ids(
                    s6,
                    head & 128u16 != 0u16,
                    StreamError::MonsterDeletionsCount,
                    StreamError::MonsterDeletion,
                ) {
                    Err(e) => Err(e),
                    Ok((monster_deletions, s7)) => match rd_ids(
                        s7,
                        head & 256u16 != 0u16,
                        StreamError::PickupDeletionsCount,
                        StreamError::PickupDeletion,
                    ) {
                        Err(e) => Err(e),
                        Ok((pickup_deletions, s8)) => Ok(
                            (
                                SnapshotView {
                                    id: v.id,
                                    absolute: v.absolute,
                                    players: v.players,
                                    monsters: v.monsters,
                                    pickups: v.pickups,
                                    local_player_id,
                                    local_last_processed_input_id,
                                    player_deletions,
                                    monster_deletions,
                                    pickup_deletions,
                                },
                                s8,
                            ),
                        ),
                    },
                },
            },
        },
    }
}

/// A snapshot: id, flags, then the flagged parts.
pub open spec fn parse_snapshot(s: Seq<u8>) -> Read<SnapshotView> {
    if s.len() < 8 {
        Err(StreamError::SnapshotId)
    } else if s.len() < 10 {
        Err(StreamError::SnapshotHead)
    } else {
        parse_snapshot_fields(s.skip(10), be_u64(s, 0), be_u16(s, 8))
    }
}

// ---------------------------------------------------------------------
// decoding what was encoded
// ---------------------------------------------------------------------
/// A player record as it arrives: the server-side entity is not sent.
pub open spec fn player_sent(p: PlayerSnapshotView) -> PlayerSnapshotView {
    PlayerSnapshotView {
        id: p.id,
        translation: p.translation,
        rotation: p.rotation,
        velocity: p.velocity,
        frozen_amount: p.frozen_amount,
        health: p.health,
        frags: p.frags,
        deaths: p.deaths,
        score: p.score,
        name: p.name,
        team: p.team,
        ping: p.ping,
        entity: None,
    }
}

/// A monster record as it arrives: the server-side entity is not sent.
pub open spec fn monster_sent(m: MonsterSnapshot) -> MonsterSnapshot {
    MonsterSnapshot { id: m.id, kind: m.kind, translation: m.translation, rotation: m.rotation, entity: None }
}

/// A snapshot as it arrives: all as sent but the entities.
pub open spec fn snapshot_sent(v: SnapshotView) -> SnapshotView {
    SnapshotView {
        id: v.id,
        absolute: v.absolute,
        players: v.players.map_values(|p: PlayerSnapshotView| player_sent(p)),
        monsters: v.monsters.map_values(|m: MonsterSnapshot| monster_sent(m)),
        pickups: v.pickups,
        local_player_id: v.local_player_id,
        local_last_processed_input_id: v.local_last_processed_input_id,
        player_deletions: v.player_deletions,
        monster_deletions: v.monster_deletions,
        pickup_deletions: v.pickup_deletions,
    }
}

/// A player name is always thirty-two bytes.
pub open spec fn player_encodable(p: PlayerSnapshotView) -> bool {
    p.name matches Some(n) ==> n.len() == 32
}

/// Every list of the snapshot fits its one-byte count.
pub open spec fn snapshot_encodable(v: SnapshotView) -> bool {
    &&& v.players.len() <= 255
    &&& v.monsters.len() <= 255
    &&& v.pickups.len() <= 255
    &&& v.player_deletions.len() <= 255
    &&& v.monster_deletions.len() <= 255
    &&& v.pickup_deletions.len() <= 255
    &&& forall|i: int| 0 <= i < v.players.len() ==> player_encodable(#[trigger] v.players[i])
}

proof fn lemma_rd_opt_u8(o: Option<u8>, k: Seq<u8>, e: StreamError)
    ensures
        rd_opt_u8(enc_opt_u8(o, k), o is Some, e) == Ok::<_, StreamError>((o, k)),
{
    if let Some(v) = o {
        assert((seq![v] + k).skip(1) =~= k);
    }
}

proof fn lemma_rd_opt_u16(o: Option<u16>, k: Seq<u8>, e: StreamError)
    ensures
        rd_opt_u16(enc_opt_u16(o, k), o is Some, e) == Ok::<_, StreamError>((o, k)),
{
    if let Some(v) = o {
        let s = u16_bytes(v) + k;
        assert(s.subrange(0, 2) =~= u16_bytes(v));
        lemma_u16_roundtrip(v, s, 0);
        assert(s.skip(2) =~= k);
    }
}

proof fn lemma_rd_opt_i16(o: Option<i16>, k: Seq<u8>, e: StreamError)
    ensures
        rd_opt_i16(enc_opt_i16(o, k), o is Some, e) == Ok::<_, StreamError>((o, k)),
{
    if let Some(v) = o {
        let s = i16_bytes(v) + k;
        assert(s.subrange(0, 2) =~= i16_bytes(v));
        lemma_i16_roundtrip(v, s, 0);
        assert(s.skip(2) =~= k);
    }
}

proof fn lemma_rd_opt_u64(o: Option<u64>, k: Seq<u8>, e: StreamError)
    ensures
        rd_opt_u64(enc_opt_u64(o, k), o is Some, e) == Ok::<_, StreamError>((o, k)),
{
    if let Some(v) = o {
        let s = u64_bytes(v) + k;
        assert(s.subrange(0, 8) =~= u64_bytes(v));
        lemma_u64_roundtrip(v, s, 0);
        assert(s.skip(8) =~= k);
    }
}

proof fn lemma_rd_opt_name(o: Option<Seq<u8>>, k: Seq<u8>, e: StreamError)
    requires
        o matches Some(n) ==> n.len() == 32,
    ensures
        rd_opt_name(enc_opt_bytes(o, k), o is Some, e) == Ok::<_, StreamError>((o, k)),
{
    if let Some(n) = o {
        let s = n + k;
        assert(s.take(32) =~= n);
        assert(s.skip(32) =~= k);
    }
}

proof fn lemma_rd_opt_team(o: Option<Team>, k: Seq<u8>, e: StreamError)
    ensures
        rd_opt_team(enc_opt_team(o, k), o is Some, e) == Ok::<_, StreamError>((o, k)),
{
    if let Some(t) = o {
        lemma_team_byte_roundtrip(t);
        assert((seq![team_to_u8(t)] + k).skip(1) =~= k);
    }
}

proof fn lemma_rd_opt_monster_kind(o: Option<MonsterKind>, k: Seq<u8>, e: StreamError)
    ensures
        rd_opt_monster_kind(enc_opt_monster_kind(o, k), o is Some, e) == Ok::<_, StreamError>(
            (o, k),
        ),
{
    if let Some(t) = o {
        lemma_monster_kind_byte_roundtrip(t);
        assert((seq![monster_kind_to_u8(t)] + k).skip(1) =~= k);
    }
}

proof fn lemma_rd_opt_pickup_kind(o: Option<PickupKind>, k: Seq<u8>, e: StreamError)
    ensures
        rd_opt_pickup_kind(enc_opt_pickup_kind(o, k), o is Some, e) == Ok::<_, StreamError>(
            (o, k),
        ),
{
    if let Some(t) = o {
        lemma_pickup_kind_byte_roundtrip(t);
        assert((seq![pickup_kind_to_u8(t)] + k).skip(1) =~= k);
    }
}

proof fn lemma_rd_opt_vec3bits(
    o: Option<Vec3Bits>,
    k: Seq<u8>,
    ex: StreamError,
    ey: StreamError,
    ez: StreamError,
)
    ensures
        rd_opt_vec3bits(enc_opt_vec3bits(o, k), o is Some, ex, ey, ez) == Ok::<_, StreamError>(
            (o, k),
        ),
{
    if let Some(t) = o {
        let s = vec3bits_bytes(t) + k;
        assert(s.subrange(0, 4) =~= u32_bytes(t.x));
        assert(s.subrange(4, 8) =~= u32_bytes(t.y));
        assert(s.subrange(8, 12) =~= u32_bytes(t.z));
        lemma_u32_roundtrip(t.x, s, 0);
        lemma_u32_roundtrip(t.y, s, 4);
        lemma_u32_roundtrip(t.z, s, 8);
        assert(s.skip(12) =~= k);
    }
}

proof fn lemma_rd_opt_rotation(
    o: Option<QuantizedRotation>,
    k: Seq<u8>,
    ep: StreamError,
    ey: StreamError,
    er: StreamError,
)
    ensures
        rd_opt_rotation(enc_opt_rotation(o, k), o is Some, ep, ey, er) == Ok::<_, StreamError>(
            (o, k),
        ),
{
    if let Some(r) = o {
        let s = rotation_bytes(r) + k;
        assert(s[0] == r.pitch && s[1] == r.yaw && s[2] == r.roll);
        assert(s.skip(3) =~= k);
    }
}

proof fn lemma_rd_opt_qvec(
    o: Option<QuantizedVec3U16>,
    k: Seq<u8>,
    ex: StreamError,
    ey: StreamError,
    ez: StreamError,
)
    ensures
        rd_opt_qvec(enc_opt_qvec(o, k), o is Some, ex, ey, ez) == Ok::<_, StreamError>((o, k)),
{
    if let Some(v) = o {
        let s = qvec_bytes(v) + k;
        assert(s.subrange(0, 2) =~= u16_bytes(v.x));
        assert(s.subrange(2, 4) =~= u16_bytes(v.y));
        assert(s.subrange(4, 6) =~= u16_bytes(v.z));
        lemma_u16_roundtrip(v.x, s, 0);
        lemma_u16_roundtrip(v.y, s, 2);
        lemma_u16_roundtrip(v.z, s, 4);
        assert(s.skip(6) =~= k);
    }
}

proof fn lemma_player_tail_roundtrip(p: PlayerSnapshotView, k: Seq<u8>, head: u16, q: PlayerSnapshotView)
    requires
        player_encodable(p),
        q.id == p.id,
        q.translation == p.translation,
        q.rotation == p.rotation,
        q.velocity == p.velocity,
        q.frozen_amount == p.frozen_amount,
        q.health == p.health,
        (head & 32u16 != 0u16) == (p.frags is Some),
        (head & 64u16 != 0u16) == (p.deaths is Some),
        (head & 128u16 != 0u16) == (p.score is Some),
        (head & 256u16 != 0u16) == (p.name is Some),
        (head & 512u16 != 0u16) == (p.team is Some),
        (head & 1024u16 != 0u16) == (p.ping is Some),
    ensures
        parse_player_tail(
            enc_opt_u16(
                p.frags,
                enc_opt_u16(
                    p.deaths,
                    enc_opt_u16(
                        p.score,
                        enc_opt_bytes(p.name, enc_opt_team(p.team, enc_opt_u8(p.ping, k))),
                    ),
                ),
            ),
            head,
            q,
        ) == Ok::<_, StreamError>((player_sent(p), k)),
{
    let k10 = enc_opt_u8(p.ping, k);
    let k9 = enc_opt_team(p.team, k10);
    let k8 = enc_opt_bytes(p.name, k9);
    let k7 = enc_opt_u16(p.score, k8);
    let k6 = enc_opt_u16(p.deaths, k7);
    lemma_rd_opt_u8(p.ping, k, StreamError::PlayerPing);
    lemma_rd_opt_team(p.team, k10, StreamError::PlayerTeam);
    lemma_rd_opt_name(p.name, k9, StreamError::PlayerName);
    lemma_rd_opt_u16(p.score, k8, StreamError::PlayerScore);
    lemma_rd_opt_u16(p.deaths, k7, StreamError::PlayerDeaths);
    lemma_rd_opt_u16(p.frags, k6, StreamError::PlayerFrags);
}

/// A player record reads back as written, less its entity.
pub proof fn lemma_player_roundtrip(p: PlayerSnapshotView, k: Seq<u8>)
    requires
        player_encodable(p),
    ensures
        parse_player(enc_player(p, k)) == Ok::<_, StreamError>((player_sent(p), k)),
{
    let s = enc_player(p, k);
    let head = player_head(p);
    assert(s.subrange(1, 3) =~= u16_bytes(head));
    lemma_u16_roundtrip(head, s, 1);
    assert(s.skip(3) =~= enc_player_fields(p, k));
    lemma_flags11(
        p.translation is Some,
        p.rotation is Some,
        p.velocity is Some,
        p.frozen_amount is Some,
        p.health is Some,
        p.frags is Some,
        p.deaths is Some,
        p.score is Some,
        p.name is Some,
        p.team is Some,
        p.ping is Some,
    );
    let k5 = enc_opt_u16(
        p.frags,
        enc_opt_u16(
            p.deaths,
            enc_opt_u16(p.score, enc_opt_bytes(p.name, enc_opt_team(p.team, enc_opt_u8(p.ping, k)))),
        ),
    );
    let k4 = enc_opt_u8(p.frozen_amount, k5);
    let k3 = enc_opt_i16(p.health, k4);
    let k2 = enc_opt_qvec(p.velocity, k3);
    let k1 = enc_opt_rotation(p.rotation, k2);
    let q = PlayerSnapshotView {
        id: p.id,
        translation: p.translation,
        rotation: p.rotation,
        velocity: p.velocity,
        frozen_amount: p.frozen_amount,
        health: p.health,
        frags: None,
        deaths: None,
        score: None,
        name: None,
        team: None,
        ping: None,
        entity: None,
    };
    lemma_player_tail_roundtrip(p, k, head, q);
    lemma_rd_opt_u8(p.frozen_amount, k5, StreamError::FrozenAmount);
    lemma_rd_opt_i16(p.health, k4, StreamError::PlayerHealth);
    lemma_rd_opt_qvec(
        p.velocity,
        k3,
        StreamError::PlayerVelocityX,
        StreamError::PlayerVelocityY,
        StreamError::PlayerVelocityZ,
    );
    lemma_rd_opt_rotation(
        p.rotation,
        k2,
        StreamError::PlayerPitch,
        StreamError::PlayerYaw,
        StreamError::PlayerRoll,
    );
    lemma_rd_opt_vec3bits(
        p.translation,
        k1,
        StreamError::PlayerTranslationX,
        StreamError::PlayerTranslationY,
        StreamError::PlayerTranslationZ,
    );
}

/// A monster record reads back as written, less its entity.
pub proof fn lemma_monster_roundtrip(m: MonsterSnapshot, k: Seq<u8>)
    ensures
        parse_monster(enc_monster(m, k)) == Ok::<_, StreamError>((monster_sent(m), k)),
{
    let s = enc_monster(m, k);
    lemma_flags3(m.kind is Some, m.translation is Some, m.rotation is Some);
    let k2 = enc_opt_rotation(m.rotation, k);
    let k1 = enc_opt_qvec(m.translation, k2);
    assert(s.skip(2) =~= enc_opt_monster_kind(m.kind, k1));
    lemma_rd_opt_rotation(
        m.rotation,
        k,
        StreamError::MonsterPitch,
        StreamError::MonsterYaw,
        StreamError::MonsterRoll,
    );
    lemma_rd_opt_qvec(
        m.translation,
        k2,
        StreamError::MonsterTranslationX,
        StreamError::MonsterTranslationY,
        StreamError::MonsterTranslationZ,
    );
    lemma_rd_opt_monster_kind(m.kind, k1, StreamError::MonsterKind);
}

/// A pickup record reads back as written.
pub proof fn lemma_pickup_roundtrip(p: PickupSnapshot, k: Seq<u8>)
    ensures
        parse_pickup(enc_pickup(p, k)) == Ok::<_, StreamError>((p, k)),
{
    let s = enc_pickup(p, k);
    lemma_flags3(p.translation is Some, p.kind is Some, false);
    let k1 = enc_opt_pickup_kind(p.kind, k);
    assert(s.skip(2) =~= enc_opt_qvec(p.translation, k1));
    lemma_rd_opt_pickup_kind(p.kind, k, StreamError::PickupKind);
    lemma_rd_opt_qvec(
        p.translation,
        k1,
        StreamError::PickupX,
        StreamError::PickupY,
        StreamError::PickupZ,
    );
}

proof fn lemma_players_roundtrip(ps: Seq<PlayerSnapshotView>, k: Seq<u8>)
    requires
        forall|i: int| 0 <= i < ps.len() ==> player_encodable(#[trigger] ps[i]),
    ensures
        parse_players(enc_players(ps, k), ps.len()) == (
            ps.map_values(|p: PlayerSnapshotView| player_sent(p)),
            k,
        ),
    decreases ps.len(),
{
    if ps.len() > 0 {
        let rest = ps.drop_first();
        assert forall|i: int| 0 <= i < rest.len() implies player_encodable(#[trigger] rest[i]) by {
            assert(rest[i] == ps[i + 1]);
        }
        assert(player_encodable(ps[0]));
        lemma_player_roundtrip(ps[0], enc_players(rest, k));
        lemma_players_roundtrip(rest, k);
        assert(ps.map_values(|p: PlayerSnapshotView| player_sent(p)) =~= seq![player_sent(ps[0])]
            + rest.map_values(|p: PlayerSnapshotView| player_sent(p)));
    } else {
        assert(ps.map_values(|p: PlayerSnapshotView| player_sent(p)) =~= Seq::empty());
    }
}

proof fn lemma_monsters_roundtrip(ms: Seq<MonsterSnapshot>, k: Seq<u8>)
    ensures
        parse_monsters(enc_monsters(ms, k), ms.len()) == (
            ms.map_values(|m: MonsterSnapshot| monster_sent(m)),
            k,
        ),
    decreases ms.len(),
{
    if ms.len() > 0 {
        let rest = ms.drop_first();
        lemma_monster_roundtrip(ms[0], enc_monsters(rest, k));
        lemma_monsters_roundtrip(rest, k);
        assert(ms.map_values(|m: MonsterSnapshot| monster_sent(m)) =~= seq![monster_sent(ms[0])]
            + rest.map_values(|m: MonsterSnapshot| monster_sent(m)));
    } else {
        assert(ms.map_values(|m: MonsterSnapshot| monster_sent(m)) =~= Seq::empty());
    }
}

proof fn lemma_pickups_roundtrip(ps: Seq<PickupSnapshot>, k: Seq<u8>)
    ensures
        parse_pickups(enc_pickups(ps, k), ps.len()) == (ps, k),
    decreases ps.len(),
{
    if ps.len() > 0 {
        let rest = ps.drop_first();
        lemma_pickup_roundtrip(ps[0], enc_pickups(rest, k));
        lemma_pickups_roundtrip(rest, k);
        assert(ps =~= seq![ps[0]] + rest);
    } else {
        assert(ps =~= Seq::empty());
    }
}

proof fn lemma_rd_ids(d: Seq<u8>, k: Seq<u8>, ec: StreamError, ei: StreamError)
    requires
        d.len() <= 255,
    ensures
        rd_ids(enc_ids(d, k), d.len() > 0, ec, ei) == Ok::<_, StreamError>((d, k)),
{
    if d.len() > 0 {
        let s = seq![d.len() as u8] + (d + k);
        assert(s[0] == d.len());
        assert(s.subrange(1, 1 + d.len() as int) =~= d);
        assert(s.skip(1 + d.len() as int) =~= k);
    } else {
        assert(d =~= Seq::<u8>::empty());
    }
}

proof fn lemma_rd_player_list(ps: Seq<PlayerSnapshotView>, k: Seq<u8>)
    requires
        ps.len() <= 255,
        forall|i: int| 0 <= i < ps.len() ==> player_encodable(#[trigger] ps[i]),
    ensures
        rd_player_list(enc_player_list(ps, k), ps.len() > 0) == Ok::<_, StreamError>(
            (ps.map_values(|p: PlayerSnapshotView| player_sent(p)), k),
        ),
{
    if ps.len() > 0 {
        let t = enc_player_list(ps, k);
        assert(t[0] == ps.len());
        assert(t.skip(1) =~= enc_players(ps, k));
        lemma_players_roundtrip(ps, k);
    } else {
        assert(ps.map_values(|p: PlayerSnapshotView| player_sent(p)) =~= Seq::empty());
    }
}

proof fn lemma_rd_monster_list(ms: Seq<MonsterSnapshot>, k: Seq<u8>)
    requires
        ms.len() <= 255,
    ensures
        rd_monster_list(enc_monster_list(ms, k), ms.len() > 0) == Ok::<_, StreamError>(
            (ms.map_values(|m: MonsterSnapshot| monster_sent(m)), k),
        ),
{
    if ms.len() > 0 {
        let t = enc_monster_list(ms, k);
        assert(t[0] == ms.len());
        assert(t.skip(1) =~= enc_monsters(ms, k));
        lemma_monsters_roundtrip(ms, k);
    } else {
        assert(ms.map_values(|m: MonsterSnapshot| monster_sent(m)) =~= Seq::empty());
    }
}

proof fn lemma_rd_pickup_list(ps: Seq<PickupSnapshot>, k: Seq<u8>)
    requires
        ps.len() <= 255,
    ensures
        rd_pickup_list(enc_pickup_list(ps, k), ps.len() > 0) == Ok::<_, StreamError>((ps, k)),
{
    if ps.len() > 0 {
        let t = enc_pickup_list(ps, k);
        assert(t[0] == ps.len());
        assert(t.skip(1) =~= enc_pickups(ps, k));
        lemma_pickups_roundtrip(ps, k);
    } else {
        assert(ps =~= Seq::<PickupSnapshot>::empty());
    }
}

proof fn lemma_snapshot_fields_roundtrip(v: SnapshotView, k: Seq<u8>, head: u16)
    requires
        snapshot_encodable(v),
        (head & 1u16 != 0u16) == v.absolute,
        (head & 2u16 != 0u16) == (v.players.len() > 0),
        (head & 4u16 != 0u16) == (v.monsters.len() > 0),
        (head & 8u16 != 0u16) == (v.pickups.len() > 0),
        (head & 16u16 != 0u16) == (v.local_player_id is Some),
        (head & 32u16 != 0u16) == (v.local_last_processed_input_id is Some),
        (head & 64u16 != 0u16) == (v.player_deletions.len() > 0),
        (head & 128u16 != 0u16) == (v.monster_deletions.len() > 0),
        (head & 256u16 != 0u16) == (v.pickup_deletions.len() > 0),
    ensures
        parse_snapshot_fields(enc_snapshot_fields(v, k), v.id, head) == Ok::<_, StreamError>(
            (snapshot_sent(v), k),
        ),
{
    let k7 = enc_ids(v.pickup_deletions, k);
    let k6 = enc_ids(v.monster_deletions, k7);
    let k5 = enc_ids(v.player_deletions, k6);
    let k4 = enc_opt_u64(v.local_last_processed_input_id, k5);
    let k3 = enc_opt_u8(v.local_player_id, k4);
    let k2 = enc_pickup_list(v.pickups, k3);
    let k1 = enc_monster_list(v.monsters, k2);
    lemma_rd_pickup_list(v.pickups, k3);
    lemma_rd_monster_list(v.monsters, k2);
    lemma_rd_player_list(v.players, k1);
    let partial = SnapshotView {
        id: v.id,
        absolute: head & 1u16 != 0u16,
        players: v.players.map_values(|p: PlayerSnapshotView| player_sent(p)),
        monsters: v.monsters.map_values(|m: MonsterSnapshot| monster_sent(m)),
        pickups: v.pickups,
        local_player_id: None,
        local_last_processed_input_id: None,
        player_deletions: Seq::empty(),
        monster_deletions: Seq::empty(),
        pickup_deletions: Seq::empty(),
    };
    lemma_snapshot_tail_roundtrip(v, k, head, partial);
}

proof fn lemma_snapshot_tail_roundtrip(v: SnapshotView, k: Seq<u8>, head: u16, w: SnapshotView)
    requires
        snapshot_encodable(v),
        w.id == v.id,
        w.absolute == v.absolute,
        w.players == v.players.map_values(|p: PlayerSnapshotView| player_sent(p)),
        w.monsters == v.monsters.map_values(|m: MonsterSnapshot| monster_sent(m)),
        w.pickups == v.pickups,
        (head & 16u16 != 0u16) == (v.local_player_id is Some),
        (head & 32u16 != 0u16) == (v.local_last_processed_input_id is Some),
        (head & 64u16 != 0u16) == (v.player_deletions.len() > 0),
        (head & 128u16 != 0u16) == (v.monster_deletions.len() > 0),
        (head & 256u16 != 0u16) == (v.pickup_deletions.len() > 0),
    ensures
        parse_snapshot_tail(
            enc_opt_u8(
                v.local_player_id,
                enc_opt_u64(
                    v.local_last_processed_input_id,
                    enc_ids(
                        v.player_deletions,
                        enc_ids(v.monster_deletions, enc_ids(v.pickup_deletions, k)),
                    ),
                ),
            ),
            head,
            w,
        ) == Ok::<_, StreamError>((snapshot_sent(v), k)),
{
    let k7 = enc_ids(v.pickup_deletions, k);
    let k6 = enc_ids(v.monster_deletions, k7);
    let k5 = enc_ids(v.player_deletions, k6);
    let k4 = enc_opt_u64(v.local_last_processed_input_id, k5);
    lemma_rd_ids(v.pickup_deletions, k, StreamError::PickupDeletionsCount, StreamError::PickupDeletion);
    lemma_rd_ids(v.monster_deletions, k7, StreamError::MonsterDeletionsCount, StreamError::MonsterDeletion);
    lemma_rd_ids(v.player_deletions, k6, StreamError::PlayerDeletionsCount, StreamError::PlayerDeletion);
    lemma_rd_opt_u64(v.local_last_processed_input_id, k5, StreamError::LocalLastProcessedInputId);
    lemma_rd_opt_u8(v.local_player_id, k4, StreamError::LocalPlayerId);
}

/// A snapshot reads back as written, less its entities, whatever follows it.
pub proof fn lemma_snapshot_roundtrip(v: SnapshotView, k: Seq<u8>)
    requires
        snapshot_encodable(v),
    ensures
        parse_snapshot(enc_snapshot(v, k)) == Ok::<_, StreamError>((snapshot_sent(v), k)),
{
    let s = enc_snapshot(v, k);
    let head = snapshot_head(v);
    assert(s.subrange(0, 8) =~= u64_bytes(v.id));
    lemma_u64_roundtrip(v.id, s, 0);
    assert(s.subrange(8, 10) =~= u16_bytes(head));
    lemma_u16_roundtrip(head, s, 8);
    assert(s.skip(10) =~= enc_snapshot_fields(v, k));
    lemma_flags11(
        v.absolute,
        v.players.len() > 0,
        v.monsters.len() > 0,
        v.pickups.len() > 0,
        v.local_player_id is Some,
        v.local_last_processed_input_id is Some,
        v.player_deletions.len() > 0,
        v.monster_deletions.len() > 0,
        v.pickup_deletions.len() > 0,
        false,
        false,
    );
    lemma_snapshot_fields_roundtrip(v, k, head);
}

/// Reading the bytes of a snapshot whose lists fit their one-byte counts
/// gives the snapshot back, all but the server-side entities, and uses every
/// byte.
pub proof fn snapshot_wire_roundtrip(v: SnapshotView)
    requires
        snapshot_encodable(v),
    ensures
        parse_snapshot(encode_snapshot(v)) == Ok::<_, StreamError>(
            (snapshot_sent(v), Seq::<u8>::empty()),
        ),
{
    lemma_snapshot_roundtrip(v, Seq::empty());
}

} // verus!
