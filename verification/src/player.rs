//! Players: their input, the local player, and how a player takes on the
//! state a snapshot gives.
use crate::components::{Health, Team};
use crate::net::AUTHORITY_ID;
use crate::snapshot::{PlayerSnapshot, Vec3Bits};
use vstd::prelude::*;
use vstd::utf8::{decode_utf8, encode_scalar, encode_utf8, valid_utf8};

verus! {

/// A rotation as the IEEE-754 bit patterns of its four `f32` components.
#[derive(Clone, Copy, PartialEq, Eq, Structural, Debug, Default)]
pub struct QuatBits {
    pub x: u32,
    pub y: u32,
    pub z: u32,
    pub w: u32,
}

/// One frame of a player's input.
#[derive(Clone, Copy, PartialEq, Eq, Structural, Debug)]
pub struct PlayerInput {
    pub id: u64,
    pub snapshot_id: Option<u64>,
    pub move_direction: Vec3Bits,
    pub look_rotation: QuatBits,
    pub holding_down_fire: bool,
    pub weapon_key: Option<u8>,
    pub num_left_in_burst: u8,
    pub wish_weapon_key: Option<u8>,
}

/// `a` with `b`'s shot and weapon choices folded in: fire held in either
/// counts, and `b`'s weapon keys win where it has them.
pub open spec fn merged_input(a: PlayerInput, b: PlayerInput) -> PlayerInput {
    PlayerInput {
        holding_down_fire: a.holding_down_fire || b.holding_down_fire,
        weapon_key: if b.weapon_key is Some { b.weapon_key } else { a.weapon_key },
        wish_weapon_key: if b.wish_weapon_key is Some { b.wish_weapon_key } else { a.wish_weapon_key },
        ..a
    }
}

impl PlayerInput {
    /// Folds a later input into this one without losing a shot or a weapon
    /// choice: fire held in either counts, and the other's weapon keys win
    /// where it has them.
    pub fn merge_important_props(&mut self, other: &PlayerInput)
        ensures
            *final(self) == merged_input(*old(self), *other),
    {
        if other.holding_down_fire {
            self.holding_down_fire = true;
        }
        if other.weapon_key.is_some() {
            self.weapon_key = other.weapon_key;
        }
        if other.wish_weapon_key.is_some() {
            self.wish_weapon_key = other.wish_weapon_key;
        }
    }
}

/// The weapon wished after the number keys `pressed` (for weapons 1 on)
/// were read: the highest one held, or `previous` when none was.
pub open spec fn wish_after(previous: Option<u8>, pressed: Seq<bool>) -> Option<u8>
    decreases pressed.len(),
{
    if pressed.len() == 0 {
        previous
    } else if pressed.last() {
        Some(pressed.len() as u8)
    } else {
        wish_after(previous, pressed.drop_last())
    }
}

/// The weapon a player wishes to hold after a frame in which the number
/// keys `pressed[0..5]`, for weapons 1 to 5, were held: the highest one held,
/// or the earlier wish when none was.
pub fn wish_weapon_key(previous: Option<u8>, pressed: &[bool; 5]) -> (r: Option<u8>)
    ensures
        r == wish_after(previous, pressed@),
        (forall|i: int| 0 <= i < 5 ==> !#[trigger] pressed@[i]) ==> r == previous,
        (exists|i: int| 0 <= i < 5 && #[trigger] pressed@[i]) ==> (r matches Some(k) && 1 <= k <= 5
            && pressed@[k - 1] && forall|i: int| k <= i < 5 ==> !#[trigger] pressed@[i]),
{
    let mut wish = previous;
    let mut i: usize = 0;
    assert(pressed@.take(0) =~= Seq::<bool>::empty());
    while i < 5
        invariant
            i <= 5,
            pressed@.len() == 5,
            wish == wish_after(previous, pressed@.take(i as int)),
            (forall|j: int| 0 <= j < i ==> !#[trigger] pressed@[j]) ==> wish == previous,
            (exists|j: int| 0 <= j < i && #[trigger] pressed@[j]) ==> (wish matches Some(k) && 1 <= k <= i
                && pressed@[k - 1] && forall|j: int| k <= j < i ==> !#[trigger] pressed@[j]),
        decreases 5 - i,
    {
        proof {
            assert(pressed@.take(i + 1).drop_last() =~= pressed@.take(i as int));
            assert(pressed@.take(i + 1).last() == pressed@[i as int]);
        }
        if pressed[i] {
            wish = Some((i + 1) as u8);
        }
        i = i + 1;
    }
    assert(pressed@.take(5) =~= pressed@);
    wish
}

/// The bit pattern of the `f32` 1.0.
pub const ONE_F32_BITS: u32 = 0x3f80_0000;

/// The identity rotation.
pub open spec fn identity_rotation() -> QuatBits {
    QuatBits { x: 0, y: 0, z: 0, w: ONE_F32_BITS }
}

/// A frame's input, stamped `id` and with the last reconciled snapshot. It
/// starts from the previous input's weapon wish and look rotation, standing
/// still with the trigger released; where the player's controls are taken,
/// the fire button, the number keys held (see `wish_weapon_key`), and the
/// look rotation and movement worked out from the mouse and the movement
/// keys are put in. The weapon fired is filled in once the weapon ticks.
pub fn frame_input(
    id: u64,
    snapshot_id: Option<u64>,
    previous: &Option<PlayerInput>,
    takes_input: bool,
    fire_pressed: bool,
    pressed: &[bool; 5],
    look_rotation: QuatBits,
    move_direction: Vec3Bits,
) -> (r: PlayerInput)
    ensures
        r.id == id,
        r.snapshot_id == snapshot_id,
        r.weapon_key is None,
        r.num_left_in_burst == 0,
        ({
            let prev_wish = match *previous {
                Some(p) => p.wish_weapon_key,
                None => None,
            };
            let prev_look = match *previous {
                Some(p) => p.look_rotation,
                None => identity_rotation(),
            };
            &&& takes_input ==> {
                &&& r.holding_down_fire == fire_pressed
                &&& r.wish_weapon_key == wish_after(prev_wish, pressed@)
                &&& r.look_rotation == look_rotation
                &&& r.move_direction == move_direction
            }
            &&& !takes_input ==> {
                &&& !r.holding_down_fire
                &&& r.wish_weapon_key == prev_wish
                &&& r.look_rotation == prev_look
                &&& r.move_direction == (Vec3Bits { x: 0, y: 0, z: 0 })
            }
        }),
{
    let (prev_wish, prev_look) = match previous {
        Some(p) => (p.wish_weapon_key, p.look_rotation),
        None => (None, QuatBits { x: 0, y: 0, z: 0, w: ONE_F32_BITS }),
    };
    if takes_input {
        PlayerInput {
            id,
            snapshot_id,
            move_direction,
            look_rotation,
            holding_down_fire: fire_pressed,
            weapon_key: None,
            num_left_in_burst: 0,
            wish_weapon_key: wish_weapon_key(prev_wish, pressed),
        }
    } else {
        PlayerInput {
            id,
            snapshot_id,
            move_direction: Vec3Bits { x: 0, y: 0, z: 0 },
            look_rotation: prev_look,
            holding_down_fire: false,
            weapon_key: None,
            num_left_in_burst: 0,
            wish_weapon_key: prev_wish,
        }
    }
}

/// Whether the player's keys and mouse steer the player: not while typing
/// in the chat nor in the pause menu.
pub fn takes_input(chat_open: bool, app_state: &crate::states::AppState) -> (r: bool)
    ensures
        r == (!chat_open && *app_state != crate::states::AppState::Playing(crate::states::PlayingSubState::Menu)),
{
    !chat_open && !crate::states::is_paused(app_state)
}

/// The player this process controls.
#[derive(Clone, Copy, PartialEq, Eq, Structural, Debug)]
pub struct LocalPlayer {
    pub client_id: u64,
    pub player_id: u8,
}

impl Default for LocalPlayer {
    fn default() -> (r: LocalPlayer)
        ensures
            r.client_id == 0,
            r.player_id == 0,
    {
        LocalPlayer { client_id: 0, player_id: 0 }
    }
}

impl LocalPlayer {
    /// Whether this process runs the game: the server's own client.
    pub fn has_authority(&self) -> (r: bool)
        ensures
            r == (self.client_id == AUTHORITY_ID),
    {
        self.client_id == AUTHORITY_ID
    }

    /// Whether `player` is the local one.
    pub fn equals(&self, player: &Player) -> (r: bool)
        ensures
            r == (player.id == self.player_id),
    {
        player.id == self.player_id
    }
}

/// Whether a run condition that asks for authority holds: there is a local
/// player and it has authority.
pub fn has_authority(local_player: Option<&LocalPlayer>) -> (r: bool)
    ensures
        r == match local_player {
            Some(p) => p.client_id == AUTHORITY_ID,
            None => false,
        },
{
    match local_player {
        Some(p) => p.has_authority(),
        None => false,
    }
}

/// A player's standing; the respawn timer and the entity of its visuals are
/// kept by the game engine.
#[derive(Clone, PartialEq, Debug)]
pub struct Player {
    pub latest_processed_input: Option<PlayerInput>,
    pub id: u8,
    pub name: String,
    pub frags: u16,
    pub deaths: u16,
    pub score: u16,
    pub ping: u8,
    pub frozen_amount: u8,
}

/// The text `String::from_utf8_lossy` makes of `bytes`.
pub uninterp spec fn utf8_lossy(bytes: Seq<u8>) -> Seq<char>;

/// `String::from_utf8_lossy`: `bytes` read as UTF-8, each invalid sequence
/// replaced by U+FFFD; valid UTF-8 comes back as the text it encodes.
#[verifier::external_body]
fn from_utf8_lossy(bytes: &[u8]) -> (r: String)
    ensures
        r@ == utf8_lossy(bytes@),
        valid_utf8(bytes@) ==> r@ == decode_utf8(bytes@),
{
    String::from_utf8_lossy(bytes).into_owned()
}

/// `bytes` without the zero bytes at either end.
pub open spec fn strip_zeros(bytes: Seq<u8>) -> Seq<u8> {
    let lo = first_nonzero(bytes, 0);
    let hi = last_nonzero_end(bytes, bytes.len() as int);
    if lo < hi {
        bytes.subrange(lo, hi)
    } else {
        Seq::empty()
    }
}

/// The first position at or after `i` holding a non-zero byte, or the length.
pub open spec fn first_nonzero(bytes: Seq<u8>, i: int) -> int
    decreases bytes.len() - i,
{
    if i >= bytes.len() || i < 0 {
        bytes.len() as int
    } else if bytes[i] != 0 {
        i
    } else {
        first_nonzero(bytes, i + 1)
    }
}

/// One past the last position before `j` holding a non-zero byte, or 0.
pub open spec fn last_nonzero_end(bytes: Seq<u8>, j: int) -> int
    decreases j,
{
    if j <= 0 || j > bytes.len() {
        0
    } else if bytes[j - 1] != 0 {
        j
    } else {
        last_nonzero_end(bytes, j - 1)
    }
}

/// The bytes of a character other than NUL are not zero.
proof fn lemma_scalar_bytes_nonzero(c: char)
    requires
        c != '\0',
    ensures
        forall|i: int| 0 <= i < encode_scalar(c as u32).len() ==> #[trigger] encode_scalar(c as u32)[i] != 0,
{
    let s = c as u32;
    assert(s != 0);
    let e = encode_scalar(s);
    assert forall|i: int| 0 <= i < e.len() implies #[trigger] e[i] != 0 by {
        let b = e[i];
        if s <= 0x7F {
            assert(b == (s & 0x7F) as u8);
            assert(s != 0 && s <= 0x7F ==> (s & 0x7F) as u8 != 0) by (bit_vector);
        } else {
            assert(b >= 0x80) by {
                let x1 = ((s >> 6) & 0x1F) as u8;
                let x2 = ((s >> 12) & 0x0F) as u8;
                let x3 = ((s >> 18) & 0x7) as u8;
                let y0 = (s & 0x3F) as u8;
                let y1 = ((s >> 6) & 0x3F) as u8;
                let y2 = ((s >> 12) & 0x3F) as u8;
                assert((0xC0u8 | x1) >= 0x80 && (0xE0u8 | x2) >= 0x80 && (0xF0u8 | x3) >= 0x80 && (0x80u8
                    | y0) >= 0x80 && (0x80u8 | y1) >= 0x80 && (0x80u8 | y2) >= 0x80) by (bit_vector);
            }
        }
    }
}

/// The first non-zero position from `i` on is not before `i`.
proof fn lemma_first_nonzero_from(bytes: Seq<u8>, i: int)
    requires
        0 <= i,
    ensures
        first_nonzero(bytes, i) >= i || first_nonzero(bytes, i) == bytes.len(),
        first_nonzero(bytes, i) >= 0,
    decreases bytes.len() - i,
{
    if i < bytes.len() && bytes[i] == 0 {
        lemma_first_nonzero_from(bytes, i + 1);
    }
}

/// The encoding of a text starts with the first byte of its first
/// character and ends with the last byte of its last character.
proof fn lemma_text_bytes_ends(chars: Seq<char>)
    requires
        chars.len() > 0,
    ensures
        encode_utf8(chars).len() > 0,
        encode_utf8(chars)[0] == encode_scalar(chars[0] as u32)[0],
        encode_utf8(chars).last() == encode_scalar(chars.last() as u32).last(),
    decreases chars.len(),
{
    let head = encode_scalar(chars[0] as u32);
    let tail = encode_utf8(chars.drop_first());
    assert(encode_utf8(chars) == head + tail);
    assert(head.len() > 0);
    assert((head + tail)[0] == head[0]);
    if chars.len() == 1 {
        assert(tail.len() == 0);
        assert((head + tail).last() == head.last());
    } else {
        lemma_text_bytes_ends(chars.drop_first());
        assert((head + tail).last() == tail.last());
        assert(chars.drop_first().last() == chars.last());
    }
}

/// Past the end of the non-zero bytes, only zeros follow.
proof fn lemma_last_nonzero_end_of_padding(b: Seq<u8>, z: Seq<u8>, j: int)
    requires
        b.len() <= j <= b.len() + z.len(),
        forall|i: int| 0 <= i < z.len() ==> #[trigger] z[i] == 0,
        b.len() > 0 ==> b[b.len() - 1] != 0,
    ensures
        last_nonzero_end(b + z, j) == b.len(),
    decreases j,
{
    if j > b.len() {
        assert((b + z)[j - 1] == z[j - 1 - b.len()]);
        lemma_last_nonzero_end_of_padding(b, z, j - 1);
    } else if b.len() > 0 {
        assert((b + z)[j - 1] == b[j - 1]);
    }
}

/// A name that neither starts nor ends with a NUL character comes back
/// from its 32 padded bytes: stripping the zero padding leaves its UTF-8
/// encoding, which is valid and decodes to the name.
pub proof fn name_bytes_roundtrip(name: Seq<char>)
    requires
        encode_utf8(name).len() <= 32,
        name.len() > 0 ==> name[0] != '\0' && name.last() != '\0',
    ensures
        strip_zeros(encode_utf8(name) + Seq::new((32 - encode_utf8(name).len()) as nat, |i: int| 0u8))
            == encode_utf8(name),
        valid_utf8(encode_utf8(name)),
        decode_utf8(encode_utf8(name)) == name,
{
    broadcast use vstd::utf8::encode_utf8_valid_utf8;
    broadcast use vstd::utf8::encode_utf8_decode_utf8;

    let b = encode_utf8(name);
    let z = Seq::new((32 - b.len()) as nat, |i: int| 0u8);
    let all = b + z;
    if name.len() > 0 {
        lemma_text_bytes_ends(name);
        lemma_scalar_bytes_nonzero(name[0]);
        lemma_scalar_bytes_nonzero(name.last());
        let e0 = encode_scalar(name[0] as u32);
        let e1 = encode_scalar(name.last() as u32);
        assert(e0[0] != 0);
        assert(e1[e1.len() - 1] != 0);
    }
    lemma_last_nonzero_end_of_padding(b, z, 32);
    if b.len() > 0 {
        assert(all[0] == b[0]);
        assert(first_nonzero(all, 0) == 0);
        assert(all.subrange(0, b.len() as int) =~= b);
    } else {
        lemma_first_nonzero_from(all, 0);
        assert(strip_zeros(all) =~= b);
    }
}

impl PlayerSnapshot {
    /// A player name as the 32 bytes that carry it: its UTF-8 bytes, then
    /// zeros.
    pub fn encode_name(name: &String) -> (r: [u8; 32])
        requires
            encode_utf8(name@).len() <= 32,
        ensures
            r@ == encode_utf8(name@) + Seq::new((32 - encode_utf8(name@).len()) as nat, |i: int| 0u8),
    {
        let mut encoded_name = [0u8; 32];
        let name_bytes = name.as_str().as_bytes();
        let mut i: usize = 0;
        while i < name_bytes.len()
            invariant
                name_bytes@ == encode_utf8(name@),
                name_bytes@.len() <= 32,
                i <= name_bytes@.len(),
                encoded_name@.len() == 32,
                forall|j: int| 0 <= j < i ==> encoded_name@[j] == name_bytes@[j],
                forall|j: int| i <= j < 32 ==> encoded_name@[j] == 0,
            decreases name_bytes@.len() - i,
        {
            encoded_name[i] = name_bytes[i];
            i = i + 1;
        }
        assert(encoded_name@ =~= encode_utf8(name@) + Seq::new(
            (32 - encode_utf8(name@).len()) as nat,
            |i: int| 0u8,
        ));
        encoded_name
    }

    /// The name carried by 32 bytes: the bytes between the leading and the
    /// trailing zeros, read as UTF-8.
    pub fn decode_name(name: &[u8; 32]) -> (r: String)
        ensures
            r@ == utf8_lossy(strip_zeros(name@)),
            valid_utf8(strip_zeros(name@)) ==> r@ == decode_utf8(strip_zeros(name@)),
    {
        let mut lo: usize = 0;
        while lo < 32 && name[lo] == 0
            invariant
                lo <= 32,
                name@.len() == 32,
                first_nonzero(name@, 0) == first_nonzero(name@, lo as int),
            decreases 32 - lo,
        {
            lo = lo + 1;
        }
        let mut hi: usize = 32;
        while hi > 0 && name[hi - 1] == 0
            invariant
                hi <= 32,
                name@.len() == 32,
                last_nonzero_end(name@, 32) == last_nonzero_end(name@, hi as int),
            decreases hi,
        {
            hi = hi - 1;
        }
        let mut kept: Vec<u8> = Vec::new();
        if lo < hi {
            let mut i: usize = lo;
            while i < hi
                invariant
                    lo <= i <= hi <= 32,
                    name@.len() == 32,
                    kept@ == name@.subrange(lo as int, i as int),
                decreases hi - i,
            {
                kept.push(name[i]);
                i = i + 1;
                assert(kept@ =~= name@.subrange(lo as int, i as int));
            }
        }
        assert(kept@ =~= strip_zeros(name@));
        from_utf8_lossy(kept.as_slice())
    }

    /// Takes on the player's standing from the snapshot: each field the
    /// snapshot gives replaces the player's.
    pub fn update_player(&self, player: &mut Player, team: &mut Team, health: &mut Health)
        ensures
            final(health).spec_current() == match self.health {
                Some(h) => h,
                None => old(health).spec_current(),
            },
            final(health).spec_max_health() == old(health).spec_max_health(),
            final(player).frozen_amount == match self.frozen_amount {
                Some(f) => f,
                None => old(player).frozen_amount,
            },
            final(player).name@ == match self.name {
                Some(n) => utf8_lossy(strip_zeros(n@)),
                None => old(player).name@,
            },
            final(player).score == match self.score {
                Some(s) => s,
                None => old(player).score,
            },
            final(player).frags == match self.frags {
                Some(f) => f,
                None => old(player).frags,
            },
            final(player).deaths == match self.deaths {
                Some(d) => d,
                None => old(player).deaths,
            },
            final(player).ping == match self.ping {
                Some(p) => p,
                None => old(player).ping,
            },
            *final(team) == match self.team {
                Some(t) => t,
                None => *old(team),
            },
            final(player).id == old(player).id,
            final(player).latest_processed_input == old(player).latest_processed_input,
    {
        if let Some(h) = self.health {
            health.set_current(h);
        }
        if let Some(frozen_amount) = self.frozen_amount {
            player.frozen_amount = frozen_amount;
        }
        if let Some(name) = self.name {
            player.name = Self::decode_name(&name);
        }
        if let Some(score) = self.score {
            player.score = score;
        }
        if let Some(frags) = self.frags {
            player.frags = frags;
        }
        if let Some(deaths) = self.deaths {
            player.deaths = deaths;
        }
        if let Some(ping) = self.ping {
            player.ping = ping;
        }
        if let Some(t) = self.team {
            *team = t;
        }
    }
}

} // verus!
