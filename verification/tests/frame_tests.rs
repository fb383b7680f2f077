use quantsum::components::{Health, Team};
use quantsum::gamemode::{damage_step, DamageResult, GameMode, GameModeController, RESPAWN_TIME};
use quantsum::ids::IdPooler;
use quantsum::net::client::{receive_snapshots, SnapshotInterpolation};
use quantsum::player::{frame_input, LocalPlayer, QuatBits};
use quantsum::snapshot::history::SnapshotHistory;
use quantsum::snapshot::{PlayerSnapshot, Snapshot};
use quantsum::spawn::{is_locally_owned, spawn_events_to_apply, SpawnEvent, SpawnPlayer};
use quantsum::snapshot::Vec3Bits;
use quantsum::weapons::{
    nudges_first_step, player_weapons_frame, queue_projectile_deletion, FireWeapon, ShotProjectile, ShotSound,
    TickOutcome, Weapon, WeaponContainer, WeaponContainerConfig, WeaponContainerTickConfig, WeaponTiming,
    WeaponsFrame, WEAPON_KEY_SHOTGUN,
};

fn snap(id: u64) -> Snapshot {
    Snapshot {
        id,
        absolute: false,
        players: Vec::new(),
        monsters: Vec::new(),
        pickups: Vec::new(),
        local_player_id: None,
        local_last_processed_input_id: None,
        player_deletions: Vec::new(),
        monster_deletions: Vec::new(),
        pickup_deletions: Vec::new(),
    }
}

fn player(id: u8) -> PlayerSnapshot {
    PlayerSnapshot {
        id,
        translation: None,
        rotation: None,
        velocity: None,
        frozen_amount: None,
        health: None,
        frags: None,
        deaths: None,
        score: None,
        name: None,
        team: None,
        ping: None,
        entity: None,
    }
}

fn despawn_ids(events: &[SpawnEvent]) -> Vec<(u8, u8)> {
    events
        .iter()
        .map(|e| match e {
            SpawnEvent::DespawnPlayer(id) => (0, *id),
            SpawnEvent::DespawnMonster(id) => (1, *id),
            SpawnEvent::DespawnPickup(id) => (2, *id),
            _ => (9, 0),
        })
        .collect()
}

#[test]
fn received_snapshot_becomes_lerp_target() {
    let mut s = snap(12);
    s.local_player_id = Some(3);
    s.player_deletions = vec![4, 5];
    s.monster_deletions = vec![7];
    s.pickup_deletions = vec![1];
    let reliable = vec![s.encode_message().unwrap()];
    let unreliable = vec![snap(8).encode_message().unwrap()];
    let mut interp = SnapshotInterpolation { latest_reconciled_snapshot_id: Some(10), lerp_from: None, lerp_to: None };
    let mut local = LocalPlayer { client_id: 99, player_id: 0 };
    let events = receive_snapshots(&reliable, &unreliable, &mut interp, &mut local).unwrap();
    assert_eq!(despawn_ids(&events), vec![(0, 4), (0, 5), (1, 7), (2, 1)]);
    assert_eq!(interp.latest_reconciled_snapshot_id, Some(12));
    assert_eq!(interp.lerp_to.as_ref().map(|t| t.id), Some(12));
    assert!(interp.lerp_from.is_none());
    assert_eq!(local, LocalPlayer { client_id: 99, player_id: 3 });
}

#[test]
fn stale_snapshots_change_nothing() {
    let reliable = vec![snap(5).encode_message().unwrap()];
    let mut interp = SnapshotInterpolation { latest_reconciled_snapshot_id: Some(10), lerp_from: None, lerp_to: None };
    let mut local = LocalPlayer { client_id: 1, player_id: 2 };
    assert!(receive_snapshots(&reliable, &Vec::new(), &mut interp, &mut local).is_none());
    assert_eq!(interp.latest_reconciled_snapshot_id, Some(10));
    assert!(interp.lerp_to.is_none());
    assert_eq!(local.player_id, 2);
    let mut kept = snap(20);
    kept.local_player_id = None;
    let reliable = vec![kept.encode_message().unwrap()];
    let events = receive_snapshots(&reliable, &Vec::new(), &mut interp, &mut local).unwrap();
    assert!(events.is_empty());
    assert_eq!(local.player_id, 2);
    assert_eq!(interp.latest_reconciled_snapshot_id, Some(20));
}

fn timings() -> Vec<WeaponTiming> {
    vec![
        WeaponTiming { key: 1, fire_rate_millis: 100, burst_config: None, barrel_count: 1, projectiles_per_barrel: 1 },
        WeaponTiming { key: WEAPON_KEY_SHOTGUN, fire_rate_millis: 800, burst_config: None, barrel_count: 2, projectiles_per_barrel: 4 },
    ]
}

fn weapons(keys: &[u8]) -> WeaponContainer {
    WeaponContainer::new(WeaponContainerConfig {
        owner_id: 6,
        weapons: keys.iter().map(|k| Weapon::new(*k, None)).collect(),
    })
}

#[test]
fn new_container_fires_at_once() {
    assert_eq!(weapons(&[1]).fire_timer_millis, 0);
}

#[test]
fn dead_players_fire_nothing() {
    let mut c = weapons(&[WEAPON_KEY_SHOTGUN]);
    let f = player_weapons_frame(&mut c, 6, true, true, true, Some((true, None)), true, &Vec::new(), &timings());
    assert_eq!(f, WeaponsFrame { fired: None, restart_timer_millis: None, shotgun_event: false, input_weapon_key: None });
    assert_eq!(c.fire_timer_millis, 0);
}

#[test]
fn local_shotgun_blast_is_announced_by_the_server_only() {
    let mut c = weapons(&[WEAPON_KEY_SHOTGUN]);
    let f = player_weapons_frame(&mut c, 6, true, true, false, Some((true, None)), true, &Vec::new(), &timings());
    assert_eq!(
        f,
        WeaponsFrame {
            fired: Some(WEAPON_KEY_SHOTGUN),
            restart_timer_millis: Some(800),
            shotgun_event: true,
            input_weapon_key: Some(WEAPON_KEY_SHOTGUN),
        }
    );
    assert_eq!(c.fire_timer_millis, 800);
    let mut c = weapons(&[WEAPON_KEY_SHOTGUN]);
    let f = player_weapons_frame(&mut c, 6, false, true, false, Some((true, None)), true, &Vec::new(), &timings());
    assert_eq!(f.fired, Some(WEAPON_KEY_SHOTGUN));
    assert!(!f.shotgun_event);
    let mut c = weapons(&[1]);
    let f = player_weapons_frame(&mut c, 6, false, true, false, None, true, &Vec::new(), &timings());
    assert_eq!(f.fired, None);
}

#[test]
fn remote_players_fire_their_first_reported_shot_on_the_server() {
    let events = vec![(2, Some(1)), (6, Some(WEAPON_KEY_SHOTGUN)), (6, Some(1))];
    let mut c = weapons(&[WEAPON_KEY_SHOTGUN, 1]);
    let f = player_weapons_frame(&mut c, 6, true, false, false, None, false, &events, &timings());
    assert_eq!(
        f,
        WeaponsFrame {
            fired: Some(WEAPON_KEY_SHOTGUN),
            restart_timer_millis: None,
            shotgun_event: true,
            input_weapon_key: None,
        }
    );
    let f = player_weapons_frame(&mut c, 6, false, false, false, None, false, &events, &timings());
    assert_eq!(f.fired, None);
    let f = player_weapons_frame(&mut c, 4, true, false, false, None, false, &events, &timings());
    assert_eq!(f.fired, None);
    let mut rifle = weapons(&[1, WEAPON_KEY_SHOTGUN]);
    let f = player_weapons_frame(&mut rifle, 2, true, false, false, None, false, &events, &timings());
    assert_eq!(f.fired, Some(1));
    assert!(!f.shotgun_event);
    let f = player_weapons_frame(&mut rifle, 6, true, false, false, None, false, &events, &timings());
    assert_eq!(f.fired, Some(WEAPON_KEY_SHOTGUN));
    assert!(f.shotgun_event);
    let mut c = weapons(&[WEAPON_KEY_SHOTGUN, 1]);
    let f = player_weapons_frame(&mut c, 2, true, false, false, None, false, &events, &timings());
    assert_eq!(f.fired, Some(1));
    assert!(!f.shotgun_event);
}

#[test]
fn weapon_fire_spawns_per_barrel() {
    let mut pool = IdPooler::new(true);
    let fw = FireWeapon { proj_nudge_time_millis: 5, owner_id: 3, input_id: Some(42), predicted: true, seed: 7 };
    let (sounds, shots) = Weapon::new(WEAPON_KEY_SHOTGUN, None).fire(&fw, 2, 3, &mut pool);
    assert_eq!(sounds, vec![ShotSound { barrel: 0, first_person: true }, ShotSound { barrel: 1, first_person: true }]);
    assert_eq!(shots.len(), 6);
    assert_eq!(
        shots[4],
        ShotProjectile {
            id: 4,
            weapon_key: WEAPON_KEY_SHOTGUN,
            barrel: 1,
            owner_id: 3,
            input_id: Some(42),
            nudge_delta_millis: 5,
            predicted: true,
        }
    );
    let barrels: Vec<usize> = shots.iter().map(|s| s.barrel).collect();
    assert_eq!(barrels, vec![0, 0, 0, 1, 1, 1]);
}

#[test]
fn projectile_despawn_is_announced_once() {
    let mut queued = false;
    assert!(queue_projectile_deletion(&mut queued));
    assert!(queued);
    assert!(!queue_projectile_deletion(&mut queued));
    assert!(queued);
    assert!(nudges_first_step(10, true, 0));
    assert!(!nudges_first_step(10, true, 16));
    assert!(!nudges_first_step(0, true, 0));
    assert!(!nudges_first_step(10, false, 0));
}

#[test]
fn damage_step_on_server() {
    let c = GameModeController::new(GameMode::Deathmatch, String::new());
    let mut h = Health::new(30, 100);
    let r = damage_step(&c, true, 1, 2, Some(Team::Deathmatch), Some(Team::Deathmatch), &mut h, 50, Some(9), false);
    assert_eq!(r, DamageResult { killed: true, despawn_monster: Some(9), respawn_in_secs: None });
    assert_eq!(h.current(), 0);
    let mut h = Health::new(30, 100);
    let r = damage_step(&c, true, 1, 2, Some(Team::Deathmatch), Some(Team::Deathmatch), &mut h, 50, None, true);
    assert_eq!(r, DamageResult { killed: true, despawn_monster: None, respawn_in_secs: Some(RESPAWN_TIME) });
    let mut h = Health::new(30, 100);
    let r = damage_step(&c, true, 1, 2, Some(Team::Deathmatch), Some(Team::Deathmatch), &mut h, 10, None, true);
    assert_eq!(r, DamageResult { killed: false, despawn_monster: None, respawn_in_secs: None });
    assert_eq!(h.current(), 20);
    let mut h = Health::new(30, 100);
    let r = damage_step(&c, false, 1, 2, Some(Team::Deathmatch), Some(Team::Deathmatch), &mut h, 50, None, true);
    assert_eq!(r, DamageResult { killed: false, despawn_monster: None, respawn_in_secs: None });
    assert_eq!(h.current(), 30);
    let r = damage_step(&c, true, 1, 2, None, Some(Team::Deathmatch), &mut h, 50, None, true);
    assert!(!r.killed);
    assert_eq!(h.current(), 30);
}

#[test]
fn server_takes_absolute_snapshots() {
    let mut h = SnapshotHistory::new();
    let despawns = vec![SpawnEvent::DespawnMonster(3), SpawnEvent::DespawnPlayer(1), SpawnEvent::DespawnMonster(4)];
    h.take_snapshot(true, 500, vec![player(1)], Vec::new(), Vec::new(), &despawns);
    h.take_snapshot(true, 1600, vec![player(2)], Vec::new(), Vec::new(), &Vec::new());
    let s = h.server_snapshots.get(&500);
    assert!(s.is_none());
    let s = h.server_snapshots.get(&1600).unwrap();
    assert!(s.absolute);
    assert_eq!(s.players.len(), 1);
    h.take_snapshot(true, 1700, Vec::new(), Vec::new(), Vec::new(), &despawns);
    let s = h.server_snapshots.get(&1700).unwrap();
    assert_eq!(s.id, 1700);
    assert_eq!(s.monster_deletions, vec![3, 4]);
    assert_eq!(s.player_deletions, vec![1]);
    assert!(s.pickup_deletions.is_empty());
    assert_eq!(h.server_snapshots.len(), 2);
    let mut client = SnapshotHistory::new();
    client.take_snapshot(false, 500, vec![player(1)], Vec::new(), Vec::new(), &despawns);
    assert!(client.server_snapshots.is_empty());
}

fn spawn_player(id: u8) -> SpawnEvent {
    SpawnEvent::Player(SpawnPlayer {
        id,
        position: Vec3Bits { x: 0, y: 0, z: 0 },
        team: Team::Deathmatch,
        name: String::from("p"),
        health: 100,
    })
}

#[test]
fn present_players_are_not_spawned_again() {
    let events = vec![spawn_player(2), SpawnEvent::DespawnMonster(1), spawn_player(5), spawn_player(6)];
    assert_eq!(spawn_events_to_apply(&events, &vec![5]), vec![0, 1, 3]);
    assert_eq!(spawn_events_to_apply(&events, &vec![7]), vec![0, 1, 2, 3]);
    assert_eq!(spawn_events_to_apply(&events, &vec![2, 6]), vec![1, 2]);
    assert!(spawn_events_to_apply(&Vec::new(), &vec![2]).is_empty());
    if let SpawnEvent::Player(p) = &events[0] {
        assert!(is_locally_owned(p, 2));
        assert!(!is_locally_owned(p, 3));
    }
}

#[test]
fn player_record_cut_short_does_not_read() {
    let mut p = player(4);
    p.health = Some(-3);
    p.frags = Some(9);
    p.name = Some([7u8; 32]);
    let mut bytes = vec![1u8, 2, 3];
    p.write_to_stream(&mut bytes);
    let full = bytes.len();
    let mut pos = 3usize;
    assert_eq!(PlayerSnapshot::read_from_stream(&bytes, &mut pos), Ok(p));
    assert_eq!(pos, full);
    for cut in 1..(full - 3) {
        let short = &bytes[..full - cut];
        let mut pos = 3usize;
        assert!(PlayerSnapshot::read_from_stream(short, &mut pos).is_err());
        assert_eq!(pos, short.len());
    }
}

#[test]
fn tick_fires_the_weapon_with_its_barrels() {
    let mut c = weapons(&[WEAPON_KEY_SHOTGUN, 1]);
    let mut pool = IdPooler::new(true);
    let cfg = WeaponContainerTickConfig {
        try_fire: true,
        wish_weapon_key: None,
        input_id: Some(11),
        projectile_nudge_time_millis: None,
        predict: false,
        seed: 11,
    };
    let (outcome, sounds, shots) = c.tick_and_fire(&cfg, true, &timings(), &mut pool);
    assert_eq!(outcome, TickOutcome { fired: Some(WEAPON_KEY_SHOTGUN), restart_timer_millis: Some(800) });
    assert_eq!(sounds.len(), 2);
    assert_eq!(shots.len(), 8);
    assert!(shots.iter().all(|s| s.owner_id == 6 && s.weapon_key == WEAPON_KEY_SHOTGUN && s.nudge_delta_millis == 0));
    let ids: Vec<u16> = shots.iter().map(|s| s.id).collect();
    assert_eq!(ids, vec![0, 1, 2, 3, 4, 5, 6, 7]);
    let (outcome, sounds, shots) = c.tick_and_fire(&cfg, false, &timings(), &mut pool);
    assert_eq!(outcome.fired, None);
    assert!(sounds.is_empty() && shots.is_empty());
    let (sounds, shots) = c.fire_weapon_key(Some(1), &cfg, &timings(), &mut pool);
    assert_eq!(sounds.len(), 1);
    assert_eq!(shots[0].id, 8);
    assert_eq!(shots[0].weapon_key, 1);
    let (sounds, shots) = c.fire_weapon_key(Some(9), &cfg, &timings(), &mut pool);
    assert!(sounds.is_empty() && shots.is_empty());
}

#[test]
fn frame_input_keeps_wish_and_look_when_input_is_not_taken() {
    let look = QuatBits { x: 1, y: 2, z: 3, w: 4 };
    let step = Vec3Bits { x: 5, y: 6, z: 7 };
    let first = frame_input(100, Some(3), &None, false, true, &[false; 5], look, step);
    assert_eq!(first.look_rotation, QuatBits { x: 0, y: 0, z: 0, w: 0x3f80_0000 });
    assert_eq!(first.move_direction, Vec3Bits { x: 0, y: 0, z: 0 });
    assert!(!first.holding_down_fire);
    assert_eq!(first.wish_weapon_key, None);
    assert_eq!(first.snapshot_id, Some(3));
    let taken = frame_input(101, None, &Some(first), true, true, &[false, true, false, true, false], look, step);
    assert!(taken.holding_down_fire);
    assert_eq!(taken.wish_weapon_key, Some(4));
    assert_eq!(taken.look_rotation, look);
    assert_eq!(taken.move_direction, step);
    assert_eq!(taken.weapon_key, None);
    assert_eq!(taken.num_left_in_burst, 0);
    let paused = frame_input(102, None, &Some(taken), false, true, &[true; 5], QuatBits::default(), step);
    assert_eq!(paused.wish_weapon_key, Some(4));
    assert_eq!(paused.look_rotation, look);
    assert_eq!(paused.id, 102);
}
