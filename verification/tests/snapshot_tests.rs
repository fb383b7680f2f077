use quantsum::components::Team;
use quantsum::monsters::MonsterKind;
use quantsum::net::serialize::{QuantizedRotation, QuantizedVec3U16};
use quantsum::pickups::PickupKind;
use quantsum::snapshot::history::BubbledUpDeletions;
use quantsum::snapshot::{MonsterSnapshot, PickupSnapshot, PlayerSnapshot, Snapshot, StreamError, Vec3Bits};

fn v3(x: f32, y: f32, z: f32) -> Vec3Bits {
    Vec3Bits { x: x.to_bits(), y: y.to_bits(), z: z.to_bits() }
}

fn moved(a: Vec3Bits, b: Vec3Bits) -> bool {
    let dx = f32::from_bits(a.x) - f32::from_bits(b.x);
    let dy = f32::from_bits(a.y) - f32::from_bits(b.y);
    let dz = f32::from_bits(a.z) - f32::from_bits(b.z);
    (dx * dx + dy * dy + dz * dz).sqrt() > 0.001
}

fn rot() -> QuantizedRotation {
    QuantizedRotation { pitch: 200, yaw: 220, roll: 100 }
}

fn player(translation: Vec3Bits, frozen: u8, health: i16) -> PlayerSnapshot {
    PlayerSnapshot {
        id: 0,
        translation: Some(translation),
        rotation: Some(rot()),
        velocity: Some(QuantizedVec3U16 { x: 0, y: 0, z: 0 }),
        frozen_amount: Some(frozen),
        health: Some(health),
        frags: Some(24),
        deaths: Some(20),
        score: Some(20),
        name: Some([0; 32]),
        team: Some(Team::AntiVirus),
        ping: Some(20),
        entity: None,
    }
}

fn grunt() -> MonsterSnapshot {
    MonsterSnapshot {
        id: 0,
        kind: Some(MonsterKind::GruntLasers),
        translation: Some(QuantizedVec3U16 { x: 0, y: 0, z: 0 }),
        rotation: Some(rot()),
        entity: None,
    }
}

fn health_pack() -> PickupSnapshot {
    PickupSnapshot {
        id: 0,
        translation: Some(QuantizedVec3U16 { x: 200, y: 45, z: 300 }),
        kind: Some(PickupKind::Health),
    }
}

fn world(players: Vec<PlayerSnapshot>) -> Snapshot {
    Snapshot {
        id: 0,
        absolute: true,
        players,
        monsters: vec![grunt(), grunt(), grunt()],
        pickups: vec![health_pack()],
        local_last_processed_input_id: Some(0),
        local_player_id: Some(0),
        player_deletions: Vec::new(),
        monster_deletions: Vec::new(),
        pickup_deletions: Vec::new(),
    }
}

#[test]
fn test_snapshot_diff() {
    let old = world(vec![player(v3(20.0, 30.0, 0.0), 100, 100), player(v3(20.0, 30.0, 0.0), 100, 100)]);
    let new = world(vec![player(v3(0.0, 50.0, 75.0), 15, 200), player(v3(20.0, 30.0, 0.0), 100, 100)]);

    let expected_diff = Snapshot {
        id: 0,
        absolute: false,
        players: vec![PlayerSnapshot {
            id: 0,
            translation: Some(v3(0.0, 50.0, 75.0)),
            rotation: None,
            velocity: None,
            frozen_amount: Some(15),
            health: Some(200),
            frags: None,
            deaths: None,
            score: None,
            name: None,
            team: None,
            ping: None,
            entity: None,
        }],
        monsters: Vec::new(),
        pickups: Vec::new(),
        local_last_processed_input_id: None,
        local_player_id: None,
        player_deletions: Vec::new(),
        monster_deletions: Vec::new(),
        pickup_deletions: Vec::new(),
    };

    assert_eq!(new.diff(&old, &moved), expected_diff);

    let serialized_diff = expected_diff.encode_message().unwrap();
    let deserialized_diff = Snapshot::decode_message(&serialized_diff).unwrap();
    assert_eq!(expected_diff, deserialized_diff);
}

#[test]
fn test_snapshot_serialization() {
    let mut p = player(v3(0.0, 0.0, 0.0), 100, -10);
    p.rotation = Some(rot());
    let snapshot = world(vec![p]);

    let serialized_snapshot = snapshot.encode_message().unwrap();
    let deserialized_snapshot = Snapshot::decode_message(&serialized_snapshot).unwrap();
    assert_eq!(snapshot, deserialized_snapshot);
}

#[test]
fn message_is_a_bincode_byte_string() {
    let snapshot = world(vec![player(v3(1.0, 2.0, 3.0), 1, 50)]);
    let bytes = snapshot.to_bytes();
    let message = snapshot.encode_message().unwrap();
    assert_eq!(message.len(), bytes.len() + 8);
    assert_eq!(&message[..8], &(bytes.len() as u64).to_le_bytes());
    assert_eq!(&message[8..], bytes.as_slice());
    assert_eq!(bincode::serialize(&bytes).unwrap(), message);
}

#[test]
fn cut_message_does_not_decode() {
    let snapshot = world(vec![player(v3(1.0, 2.0, 3.0), 1, 50)]);
    let message = snapshot.encode_message().unwrap();
    assert!(Snapshot::decode_message(&message[..message.len() - 1]).is_none());
    assert!(Snapshot::decode_message(&message[..4]).is_none());
    assert!(Snapshot::decode_message(&[]).is_none());
}

#[test]
fn entities_are_not_sent() {
    let mut p = player(v3(1.0, 2.0, 3.0), 1, 50);
    p.entity = Some(77);
    let mut snapshot = world(vec![p]);
    snapshot.monsters[0].entity = Some(5);
    let back = Snapshot::from_bytes(&snapshot.to_bytes()).unwrap();
    assert_eq!(back.players[0].entity, None);
    assert_eq!(back.monsters[0].entity, None);
    assert_eq!(back.players[0].translation, Some(v3(1.0, 2.0, 3.0)));
}

#[test]
fn snapshot_wire_starts_with_big_endian_id() {
    let mut snapshot = world(Vec::new());
    snapshot.id = 0x0102030405060708;
    let bytes = snapshot.to_bytes();
    assert_eq!(&bytes[..8], &[1, 2, 3, 4, 5, 6, 7, 8]);
}

#[test]
fn empty_input_reports_snapshot_id() {
    assert_eq!(Snapshot::from_bytes(&[]), Err(StreamError::SnapshotId));
    assert_eq!(Snapshot::from_bytes(&[0, 0, 0]), Err(StreamError::SnapshotId));
}

#[test]
fn short_input_reports_first_missing_field() {
    let snapshot = world(vec![player(v3(1.0, 2.0, 3.0), 1, 50)]);
    let bytes = snapshot.to_bytes();
    assert_eq!(Snapshot::from_bytes(&bytes[..8]), Err(StreamError::SnapshotHead));
    assert!(Snapshot::from_bytes(&bytes[..bytes.len() - 1]).is_err());
    let mut pos = 0usize;
    assert!(Snapshot::read_from_stream(&bytes, &mut pos).is_ok());
    assert_eq!(pos, bytes.len());
}

#[test]
fn player_stream_roundtrip() {
    let p = player(v3(-4.5, 0.25, 9.0), 3, -7);
    let mut bytes = Vec::new();
    p.write_to_stream(&mut bytes);
    let mut pos = 0usize;
    let back = PlayerSnapshot::read_from_stream(&bytes, &mut pos).unwrap();
    assert_eq!(back, p);
    assert_eq!(pos, bytes.len());
}

#[test]
fn monster_and_pickup_stream_roundtrip() {
    let m = grunt();
    let k = health_pack();
    let mut bytes = Vec::new();
    m.write_to_stream(&mut bytes);
    k.write_to_stream(&mut bytes);
    let mut pos = 0usize;
    assert_eq!(MonsterSnapshot::read_from_stream(&bytes, &mut pos).unwrap(), m);
    assert_eq!(PickupSnapshot::read_from_stream(&bytes, &mut pos).unwrap(), k);
    assert_eq!(pos, bytes.len());
}

#[test]
fn diff_against_empty_sends_all() {
    let new = world(vec![player(v3(0.0, 50.0, 75.0), 15, 200)]);
    let mut old = world(Vec::new());
    old.monsters = Vec::new();
    old.pickups = Vec::new();
    let d = new.diff(&old, &moved);
    assert_eq!(d.players, new.players);
    assert_eq!(d.monsters, new.monsters);
    assert_eq!(d.pickups, new.pickups);
    assert!(!d.absolute);
}

#[test]
fn diff_of_same_snapshot_carries_nothing() {
    let mut s = world(vec![player(v3(0.0, 50.0, 75.0), 15, 200)]);
    s.monsters = vec![grunt()];
    let d = s.diff(&s, &moved);
    assert!(d.players.is_empty());
    assert!(d.monsters.is_empty());
    assert!(d.pickups.is_empty());
    assert_eq!(d.local_player_id, None);
}

#[test]
fn diff_snapshots_carries_deletions() {
    let s = world(vec![player(v3(0.0, 50.0, 75.0), 15, 200)]);
    let deletions = BubbledUpDeletions {
        player_deletions: vec![4],
        monster_deletions: vec![5, 6],
        pickup_deletions: vec![],
    };
    let d = Snapshot::diff_snapshots(&s, &s, &deletions, &moved);
    assert_eq!(d.player_deletions, vec![4]);
    assert_eq!(d.monster_deletions, vec![5, 6]);
    assert!(d.pickup_deletions.is_empty());
}

#[test]
fn small_moves_are_not_sent() {
    let a = player(v3(1.0, 1.0, 1.0), 1, 10);
    let b = player(v3(1.0, 1.0, 1.0005), 1, 10);
    let d = b.diff(&a, &moved);
    assert_eq!(d.translation, None);
    assert!(d.is_empty());
    let c = player(v3(1.0, 1.0, 2.0), 1, 10);
    assert_eq!(c.diff(&a, &moved).translation, Some(v3(1.0, 1.0, 2.0)));
}

#[test]
fn monster_and_pickup_diffs() {
    let a = grunt();
    let mut b = grunt();
    b.translation = Some(QuantizedVec3U16 { x: 1, y: 2, z: 3 });
    let d = b.diff(&a);
    assert_eq!(d.translation, Some(QuantizedVec3U16 { x: 1, y: 2, z: 3 }));
    assert_eq!(d.kind, None);
    assert!(!d.is_empty());
    assert!(a.diff(&a).is_empty());
    let k = health_pack();
    assert!(k.diff(&k).is_empty());
    assert_eq!(k.id_u64(), 0);
}

#[test]
fn interpolation_partners_by_id() {
    let mut from = world(vec![player(v3(0.0, 0.0, 0.0), 1, 1), player(v3(0.0, 0.0, 0.0), 1, 1)]);
    from.players[1].id = 3;
    let mut to = world(vec![player(v3(1.0, 0.0, 0.0), 1, 1), player(v3(2.0, 0.0, 0.0), 1, 1)]);
    to.players[0].id = 3;
    to.players[1].id = 0;
    assert_eq!(from.player_partners(&to, 9), vec![Some(1), Some(0)]);
    assert_eq!(from.player_partners(&to, 0), vec![None, Some(0)]);
    to.pickups = Vec::new();
    assert_eq!(from.pickup_partners(&to), vec![None]);
    assert_eq!(from.pickup_partners(&from), vec![Some(0)]);
}
