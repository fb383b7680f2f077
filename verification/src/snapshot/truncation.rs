//! Records cut short: every field of a record is read from the bytes that
//! follow the previous one, so a record whose bytes end early cannot be
//! read.
use super::wire::{
    enc_monster, enc_pickup, enc_player, lemma_monster_roundtrip, lemma_pickup_roundtrip, lemma_player_roundtrip,
    parse_monster, parse_pickup, parse_player, parse_player_fields, parse_player_tail, player_encodable, rd_opt_i16,
    rd_opt_monster_kind, rd_opt_name, rd_opt_pickup_kind, rd_opt_qvec, rd_opt_rotation, rd_opt_team, rd_opt_u16,
    rd_opt_u8, rd_opt_vec3bits, Read,
};
use super::{MonsterSnapshot, PickupSnapshot, PlayerSnapshot, PlayerSnapshotView, StreamError, Vec3Bits};
use crate::net::serialize::QuantizedRotation;
use vstd::prelude::*;

verus! {

/// How a read of the first `n` of `len` bytes relates to the read of all of
/// them: it reads the same value, with the first `n` bytes of what followed,
/// where it had the bytes the full read used, and fails otherwise.
pub open spec fn truncates<T>(full: Read<T>, short: Read<T>, len: int, n: int) -> bool {
    match full {
        Ok((v, rest)) => if n >= len - rest.len() {
            short == Ok::<(T, Seq<u8>), StreamError>((v, rest.take(n - (len - rest.len()))))
        } else {
            short is Err
        },
        Err(_) => short is Err,
    }
}

proof fn lemma_take_skip(s: Seq<u8>, n: int, w: int)
    requires
        0 <= w <= n <= s.len(),
    ensures
        s.take(n).skip(w) == s.skip(w).take(n - w),
        s.skip(w).len() == s.len() - w,
{
    assert(s.take(n).skip(w) =~= s.skip(w).take(n - w));
}

proof fn lemma_rd_u8(s: Seq<u8>, n: int, present: bool, e: StreamError)
    requires
        0 <= n <= s.len(),
    ensures
        truncates(rd_opt_u8(s, present, e), rd_opt_u8(s.take(n), present, e), s.len() as int, n),
{
    if present && n >= 1 {
        lemma_take_skip(s, n, 1);
    }
}

proof fn lemma_rd_u16(s: Seq<u8>, n: int, present: bool, e: StreamError)
    requires
        0 <= n <= s.len(),
    ensures
        truncates(rd_opt_u16(s, present, e), rd_opt_u16(s.take(n), present, e), s.len() as int, n),
{
    if present && n >= 2 {
        lemma_take_skip(s, n, 2);
        assert(s.take(n)[0] == s[0] && s.take(n)[1] == s[1]);
    }
}

proof fn lemma_rd_i16(s: Seq<u8>, n: int, present: bool, e: StreamError)
    requires
        0 <= n <= s.len(),
    ensures
        truncates(rd_opt_i16(s, present, e), rd_opt_i16(s.take(n), present, e), s.len() as int, n),
{
    if present && n >= 2 {
        lemma_take_skip(s, n, 2);
        assert(s.take(n)[0] == s[0] && s.take(n)[1] == s[1]);
    }
}

proof fn lemma_rd_name(s: Seq<u8>, n: int, present: bool, e: StreamError)
    requires
        0 <= n <= s.len(),
    ensures
        truncates(rd_opt_name(s, present, e), rd_opt_name(s.take(n), present, e), s.len() as int, n),
{
    if present && n >= 32 {
        lemma_take_skip(s, n, 32);
        assert(s.take(n).take(32) =~= s.take(32));
    }
}

proof fn lemma_rd_team(s: Seq<u8>, n: int, present: bool, e: StreamError)
    requires
        0 <= n <= s.len(),
    ensures
        truncates(rd_opt_team(s, present, e), rd_opt_team(s.take(n), present, e), s.len() as int, n),
{
    if present && n >= 1 {
        lemma_take_skip(s, n, 1);
    }
}

proof fn lemma_rd_monster_kind(s: Seq<u8>, n: int, present: bool, e: StreamError)
    requires
        0 <= n <= s.len(),
    ensures
        truncates(
            rd_opt_monster_kind(s, present, e),
            rd_opt_monster_kind(s.take(n), present, e),
            s.len() as int,
            n,
        ),
{
    if present && n >= 1 {
        lemma_take_skip(s, n, 1);
    }
}

proof fn lemma_rd_pickup_kind(s: Seq<u8>, n: int, present: bool, e: StreamError)
    requires
        0 <= n <= s.len(),
    ensures
        truncates(
            rd_opt_pickup_kind(s, present, e),
            rd_opt_pickup_kind(s.take(n), present, e),
            s.len() as int,
            n,
        ),
{
    if present && n >= 1 {
        lemma_take_skip(s, n, 1);
    }
}

proof fn lemma_rd_vec3bits(s: Seq<u8>, n: int, present: bool, ex: StreamError, ey: StreamError, ez: StreamError)
    requires
        0 <= n <= s.len(),
    ensures
        truncates(
            rd_opt_vec3bits(s, present, ex, ey, ez),
            rd_opt_vec3bits(s.take(n), present, ex, ey, ez),
            s.len() as int,
            n,
        ),
{
    if present && n >= 12 {
        lemma_take_skip(s, n, 12);
        let t = s.take(n);
        assert(t[0] == s[0] && t[1] == s[1] && t[2] == s[2] && t[3] == s[3]);
        assert(t[4] == s[4] && t[5] == s[5] && t[6] == s[6] && t[7] == s[7]);
        assert(t[8] == s[8] && t[9] == s[9] && t[10] == s[10] && t[11] == s[11]);
    }
}

proof fn lemma_rd_rotation(s: Seq<u8>, n: int, present: bool, ep: StreamError, ey: StreamError, er: StreamError)
    requires
        0 <= n <= s.len(),
    ensures
        truncates(
            rd_opt_rotation(s, present, ep, ey, er),
            rd_opt_rotation(s.take(n), present, ep, ey, er),
            s.len() as int,
            n,
        ),
{
    if present && n >= 3 {
        lemma_take_skip(s, n, 3);
        let t = s.take(n);
        assert(t[0] == s[0] && t[1] == s[1] && t[2] == s[2]);
    }
}

proof fn lemma_rd_qvec(s: Seq<u8>, n: int, present: bool, ex: StreamError, ey: StreamError, ez: StreamError)
    requires
        0 <= n <= s.len(),
    ensures
        truncates(
            rd_opt_qvec(s, present, ex, ey, ez),
            rd_opt_qvec(s.take(n), present, ex, ey, ez),
            s.len() as int,
            n,
        ),
{
    if present && n >= 6 {
        lemma_take_skip(s, n, 6);
        let t = s.take(n);
        assert(t[0] == s[0] && t[1] == s[1] && t[2] == s[2]);
        assert(t[3] == s[3] && t[4] == s[4] && t[5] == s[5]);
    }
}

#[verifier::rlimit(100)]
#[verifier::spinoff_prover]
proof fn lemma_player_tail(s: Seq<u8>, n: int, head: u16, p: PlayerSnapshotView)
    requires
        0 <= n <= s.len(),
    ensures
        truncates(parse_player_tail(s, head, p), parse_player_tail(s.take(n), head, p), s.len() as int, n),
{
    lemma_rd_u16(s, n, head & 32u16 != 0u16, StreamError::PlayerFrags);
    if let Ok((_, s6)) = rd_opt_u16(s, head & 32u16 != 0u16, StreamError::PlayerFrags) {
        let n6 = n - (s.len() - s6.len());
        if n6 >= 0 {
            lemma_rd_u16(s6, n6, head & 64u16 != 0u16, StreamError::PlayerDeaths);
            if let Ok((_, s7)) = rd_opt_u16(s6, head & 64u16 != 0u16, StreamError::PlayerDeaths) {
                let n7 = n6 - (s6.len() - s7.len());
                if n7 >= 0 {
                    lemma_rd_u16(s7, n7, head & 128u16 != 0u16, StreamError::PlayerScore);
                    if let Ok((_, s8)) = rd_opt_u16(s7, head & 128u16 != 0u16, StreamError::PlayerScore) {
                        let n8 = n7 - (s7.len() - s8.len());
                        if n8 >= 0 {
                            lemma_rd_name(s8, n8, head & 256u16 != 0u16, StreamError::PlayerName);
                            if let Ok((_, s9)) = rd_opt_name(s8, head & 256u16 != 0u16, StreamError::PlayerName) {
                                let n9 = n8 - (s8.len() - s9.len());
                                if n9 >= 0 {
                                    lemma_rd_team(s9, n9, head & 512u16 != 0u16, StreamError::PlayerTeam);
                                    if let Ok((_, s10)) = rd_opt_team(
                                        s9,
                                        head & 512u16 != 0u16,
                                        StreamError::PlayerTeam,
                                    ) {
                                        let n10 = n9 - (s9.len() - s10.len());
                                        if n10 >= 0 {
                                            lemma_rd_u8(s10, n10, head & 1024u16 != 0u16, StreamError::PlayerPing);
                                        }
                                    }
                                }
                            }
                        }
                    }
                }
            }
        }
    }
}

/// A player record's fields from its velocity on, after the position and
/// rotation were read.
#[verifier::opaque]
spec fn fields_after_rotation(
    s2: Seq<u8>,
    id: u8,
    head: u16,
    translation: Option<Vec3Bits>,
    rotation: Option<QuantizedRotation>,
) -> Read<PlayerSnapshotView> {
    match rd_opt_qvec(
        s2,
        head & 4u16 != 0u16,
        StreamError::PlayerVelocityX,
        StreamError::PlayerVelocityY,
        StreamError::PlayerVelocityZ,
    ) {
        Err(e) => Err(e),
        Ok((velocity, s3)) => match rd_opt_i16(s3, head & 16u16 != 0u16, StreamError::PlayerHealth) {
            Err(e) => Err(e),
            Ok((health, s4)) => match rd_opt_u8(s4, head & 8u16 != 0u16, StreamError::FrozenAmount) {
                Err(e) => Err(e),
                Ok((frozen_amount, s5)) => parse_player_tail(
                    s5,
                    head,
                    PlayerSnapshotView {
                        id,
                        translation,
                        rotation,
                        velocity,
                        frozen_amount,
                        health,
                        frags: None,
                        deaths: None,
                        score: None,
                        name: None,
                        team: None,
                        ping: None,
                        entity: None,
                    },
                ),
            },
        },
    }
}

proof fn lemma_fields_unfold(s: Seq<u8>, id: u8, head: u16)
    ensures
        parse_player_fields(s, id, head) == match rd_opt_vec3bits(
            s,
            head & 1u16 != 0u16,
            StreamError::PlayerTranslationX,
            StreamError::PlayerTranslationY,
            StreamError::PlayerTranslationZ,
        ) {
            Err(e) => Err(e),
            Ok((translation, s1)) => match rd_opt_rotation(
                s1,
                head & 2u16 != 0u16,
                StreamError::PlayerPitch,
                StreamError::PlayerYaw,
                StreamError::PlayerRoll,
            ) {
                Err(e) => Err(e),
                Ok((rotation, s2)) => fields_after_rotation(s2, id, head, translation, rotation),
            },
        },
{
    reveal(fields_after_rotation);
}

#[verifier::rlimit(100)]
#[verifier::spinoff_prover]
proof fn lemma_after_rotation(
    s2: Seq<u8>,
    n2: int,
    id: u8,
    head: u16,
    translation: Option<Vec3Bits>,
    rotation: Option<QuantizedRotation>,
)
    requires
        0 <= n2 <= s2.len(),
    ensures
        truncates(
            fields_after_rotation(s2, id, head, translation, rotation),
            fields_after_rotation(s2.take(n2), id, head, translation, rotation),
            s2.len() as int,
            n2,
        ),
{
    reveal(fields_after_rotation);
    let (vx, vy, vz) = (StreamError::PlayerVelocityX, StreamError::PlayerVelocityY, StreamError::PlayerVelocityZ);
    lemma_rd_qvec(s2, n2, head & 4u16 != 0u16, vx, vy, vz);
    if let Ok((velocity, s3)) = rd_opt_qvec(s2, head & 4u16 != 0u16, vx, vy, vz) {
        let n3 = n2 - (s2.len() - s3.len());
        if n3 >= 0 {
            lemma_rd_i16(s3, n3, head & 16u16 != 0u16, StreamError::PlayerHealth);
            if let Ok((health, s4)) = rd_opt_i16(s3, head & 16u16 != 0u16, StreamError::PlayerHealth) {
                let n4 = n3 - (s3.len() - s4.len());
                if n4 >= 0 {
                    lemma_rd_u8(s4, n4, head & 8u16 != 0u16, StreamError::FrozenAmount);
                    if let Ok((frozen_amount, s5)) = rd_opt_u8(s4, head & 8u16 != 0u16, StreamError::FrozenAmount) {
                        let n5 = n4 - (s4.len() - s5.len());
                        if n5 >= 0 {
                            lemma_player_tail(
                                s5,
                                n5,
                                head,
                                PlayerSnapshotView {
                                    id,
                                    translation,
                                    rotation,
                                    velocity,
                                    frozen_amount,
                                    health,
                                    frags: None,
                                    deaths: None,
                                    score: None,
                                    name: None,
                                    team: None,
                                    ping: None,
                                    entity: None,
                                },
                            );
                        }
                    }
                }
            }
        }
    }
}

#[verifier::rlimit(100)]
#[verifier::spinoff_prover]
proof fn lemma_player_fields(s: Seq<u8>, n: int, id: u8, head: u16)
    requires
        0 <= n <= s.len(),
    ensures
        truncates(parse_player_fields(s, id, head), parse_player_fields(s.take(n), id, head), s.len() as int, n),
{
    lemma_fields_unfold(s, id, head);
    lemma_fields_unfold(s.take(n), id, head);
    let (ex, ey, ez) = (
        StreamError::PlayerTranslationX,
        StreamError::PlayerTranslationY,
        StreamError::PlayerTranslationZ,
    );
    lemma_rd_vec3bits(s, n, head & 1u16 != 0u16, ex, ey, ez);
    if let Ok((translation, s1)) = rd_opt_vec3bits(s, head & 1u16 != 0u16, ex, ey, ez) {
        let n1 = n - (s.len() - s1.len());
        if n1 >= 0 {
            let (ep, eyw, er) = (StreamError::PlayerPitch, StreamError::PlayerYaw, StreamError::PlayerRoll);
            lemma_rd_rotation(s1, n1, head & 2u16 != 0u16, ep, eyw, er);
            if let Ok((rotation, s2)) = rd_opt_rotation(s1, head & 2u16 != 0u16, ep, eyw, er) {
                let n2 = n1 - (s1.len() - s2.len());
                if n2 >= 0 {
                    lemma_after_rotation(s2, n2, id, head, translation, rotation);
                }
            }
        }
    }
}

proof fn lemma_player(s: Seq<u8>, n: int)
    requires
        3 <= n <= s.len(),
    ensures
        truncates(parse_player(s), parse_player(s.take(n)), s.len() as int, n),
{
    lemma_take_skip(s, n, 3);
    assert(s.take(n)[0] == s[0] && s.take(n)[1] == s[1] && s.take(n)[2] == s[2]);
    lemma_player_fields(s.skip(3), n - 3, s[0], crate::bytes::be_u16(s, 1));
}

proof fn lemma_monster(s: Seq<u8>, n: int)
    requires
        2 <= n <= s.len(),
    ensures
        truncates(parse_monster(s), parse_monster(s.take(n)), s.len() as int, n),
{
    lemma_take_skip(s, n, 2);
    assert(s.take(n)[0] == s[0] && s.take(n)[1] == s[1]);
    let head = s[1];
    let s0 = s.skip(2);
    let n0 = n - 2;
    lemma_rd_monster_kind(s0, n0, head & 1u8 != 0u8, StreamError::MonsterKind);
    if let Ok((_, s1)) = rd_opt_monster_kind(s0, head & 1u8 != 0u8, StreamError::MonsterKind) {
        let n1 = n0 - (s0.len() - s1.len());
        if n1 >= 0 {
            let (ex, ey, ez) = (
                StreamError::MonsterTranslationX,
                StreamError::MonsterTranslationY,
                StreamError::MonsterTranslationZ,
            );
            lemma_rd_qvec(s1, n1, head & 2u8 != 0u8, ex, ey, ez);
            if let Ok((_, s2)) = rd_opt_qvec(s1, head & 2u8 != 0u8, ex, ey, ez) {
                let n2 = n1 - (s1.len() - s2.len());
                if n2 >= 0 {
                    lemma_rd_rotation(
                        s2,
                        n2,
                        head & 4u8 != 0u8,
                        StreamError::MonsterPitch,
                        StreamError::MonsterYaw,
                        StreamError::MonsterRoll,
                    );
                }
            }
        }
    }
}

proof fn lemma_pickup(s: Seq<u8>, n: int)
    requires
        2 <= n <= s.len(),
    ensures
        truncates(parse_pickup(s), parse_pickup(s.take(n)), s.len() as int, n),
{
    lemma_take_skip(s, n, 2);
    assert(s.take(n)[0] == s[0] && s.take(n)[1] == s[1]);
    let head = s[1];
    let s0 = s.skip(2);
    let n0 = n - 2;
    lemma_rd_qvec(s0, n0, head & 1u8 != 0u8, StreamError::PickupX, StreamError::PickupY, StreamError::PickupZ);
    if let Ok((_, s1)) = rd_opt_qvec(
        s0,
        head & 1u8 != 0u8,
        StreamError::PickupX,
        StreamError::PickupY,
        StreamError::PickupZ,
    ) {
        let n1 = n0 - (s0.len() - s1.len());
        if n1 >= 0 {
            lemma_rd_pickup_kind(s1, n1, head & 2u8 != 0u8, StreamError::PickupKind);
        }
    }
}

/// A player record cut short by one byte or more cannot be read: wherever
/// it stands in a buffer, reading it from bytes that end before the record
/// does fails.
pub proof fn truncated_player_record_fails(p: PlayerSnapshot, prefix: Seq<u8>, n: int)
    requires
        0 <= n < enc_player(p@, Seq::empty()).len(),
    ensures
        parse_player((prefix + enc_player(p@, Seq::<u8>::empty()).take(n)).skip(prefix.len() as int)) is Err,
{
    let e = enc_player(p@, Seq::<u8>::empty());
    assert((prefix + e.take(n)).skip(prefix.len() as int) =~= e.take(n));
    if n >= 3 {
        lemma_player_roundtrip(p@, Seq::empty());
        lemma_player(e, n);
    }
}

/// A monster record cut short by one byte or more cannot be read.
pub proof fn truncated_monster_record_fails(m: MonsterSnapshot, prefix: Seq<u8>, n: int)
    requires
        0 <= n < enc_monster(m, Seq::empty()).len(),
    ensures
        parse_monster((prefix + enc_monster(m, Seq::<u8>::empty()).take(n)).skip(prefix.len() as int)) is Err,
{
    let e = enc_monster(m, Seq::<u8>::empty());
    assert((prefix + e.take(n)).skip(prefix.len() as int) =~= e.take(n));
    if n >= 2 {
        lemma_monster_roundtrip(m, Seq::empty());
        lemma_monster(e, n);
    }
}

/// A pickup record cut short by one byte or more cannot be read.
pub proof fn truncated_pickup_record_fails(p: PickupSnapshot, prefix: Seq<u8>, n: int)
    requires
        0 <= n < enc_pickup(p, Seq::empty()).len(),
    ensures
        parse_pickup((prefix + enc_pickup(p, Seq::<u8>::empty()).take(n)).skip(prefix.len() as int)) is Err,
{
    let e = enc_pickup(p, Seq::<u8>::empty());
    assert((prefix + e.take(n)).skip(prefix.len() as int) =~= e.take(n));
    if n >= 2 {
        lemma_pickup_roundtrip(p, Seq::empty());
        lemma_pickup(e, n);
    }
}

} // verus!
