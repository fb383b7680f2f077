use quantsum::components::Team;
use quantsum::monsters::MonsterKind;
use quantsum::net::client::{find_saved_input, ids_absent, inputs_to_replay, plan_snapshot, select_snapshot_to_process};
use quantsum::net::serialize::QuantizedVec3U16;
use quantsum::pickups::PickupKind;
use quantsum::snapshot::{MonsterSnapshot, PickupSnapshot, PlayerSnapshot, Snapshot};

fn empty_player(id: u8) -> PlayerSnapshot {
    PlayerSnapshot {
        id,
        translation: None,
        rotation: None,
        velocity: None,
        frozen_amount: None,
        health: None,
        frags: None,
        deaths: None,
        score: None,
        name: None,
        team: None,
        ping: None,
        entity: None,
    }
}

fn snap(id: u64) -> Snapshot {
    Snapshot {
        id,
        absolute: false,
        players: Vec::new(),
        monsters: Vec::new(),
        pickups: Vec::new(),
        local_player_id: None,
        local_last_processed_input_id: None,
        player_deletions: Vec::new(),
        monster_deletions: Vec::new(),
        pickup_deletions: Vec::new(),
    }
}

fn msg(id: u64) -> Vec<u8> {
    snap(id).encode_message().unwrap()
}

#[test]
fn picks_last_newer_snapshot() {
    let reliable = vec![msg(5), msg(9)];
    let unreliable = vec![msg(7), vec![1, 2, 3]];
    let s = select_snapshot_to_process(&reliable, &unreliable, Some(6)).unwrap();
    assert_eq!(s.id, 7);
    let s = select_snapshot_to_process(&reliable, &Vec::new(), Some(6)).unwrap();
    assert_eq!(s.id, 9);
    assert!(select_snapshot_to_process(&reliable, &unreliable, Some(9)).is_none());
    let s = select_snapshot_to_process(&reliable, &vec![msg(1)], None).unwrap();
    assert_eq!(s.id, 1);
    assert!(select_snapshot_to_process(&Vec::new(), &vec![vec![0u8; 3]], None).is_none());
}

#[test]
fn absent_ids_keep_order() {
    assert_eq!(ids_absent(&vec![1, 2, 3, 4], &vec![2, 4]), vec![1, 3]);
    assert!(ids_absent(&vec![], &vec![1]).is_empty());
}

#[test]
fn plan_for_absolute_snapshot() {
    let mut s = snap(3);
    s.absolute = true;
    s.local_player_id = Some(2);
    let mut named = empty_player(2);
    named.name = Some([65; 32]);
    named.health = Some(0);
    let mut known = empty_player(1);
    known.health = Some(30);
    s.players = vec![known, named, empty_player(9)];
    s.monsters = vec![MonsterSnapshot {
        id: 4,
        kind: Some(MonsterKind::GruntPlasma),
        translation: Some(QuantizedVec3U16 { x: 1, y: 1, z: 1 }),
        rotation: None,
        entity: None,
    }];
    s.pickups = vec![PickupSnapshot { id: 6, translation: None, kind: None }];
    let plan = plan_snapshot(&s, &vec![1, 5], &vec![8], &vec![6, 7], 0);
    assert_eq!(plan.local_player_id, 2);
    assert_eq!(plan.despawn_players, vec![5]);
    assert_eq!(plan.despawn_monsters, vec![8]);
    assert_eq!(plan.despawn_pickups, vec![7]);
    assert_eq!(plan.player_visibility, vec![(1, true)]);
    assert_eq!(plan.spawn_players.len(), 1);
    assert_eq!(plan.spawn_players[0].id, 2);
    assert_eq!(plan.spawn_monsters.len(), 1);
    assert!(plan.spawn_pickups.is_empty());
}

#[test]
fn plan_for_delta_snapshot_despawns_nothing() {
    let mut s = snap(3);
    let mut p = empty_player(1);
    p.health = Some(-5);
    p.team = Some(Team::Virus);
    s.players = vec![p];
    s.pickups = vec![PickupSnapshot { id: 2, translation: None, kind: Some(PickupKind::RedKey) }];
    let plan = plan_snapshot(&s, &vec![1, 5], &vec![8], &vec![], 4);
    assert_eq!(plan.local_player_id, 4);
    assert!(plan.despawn_players.is_empty());
    assert!(plan.despawn_monsters.is_empty());
    assert_eq!(plan.player_visibility, vec![(1, false)]);
    assert_eq!(plan.spawn_pickups.len(), 1);
}

#[test]
fn saved_inputs_lookup_and_replay() {
    let ids = vec![3u64, 4, 5, 4, 6];
    assert_eq!(find_saved_input(&ids, Some(4)), Some(1));
    assert_eq!(find_saved_input(&ids, Some(9)), None);
    assert_eq!(find_saved_input(&ids, None), None);
    assert_eq!(inputs_to_replay(&ids, 5), vec![2, 4]);
    assert_eq!(inputs_to_replay(&ids, 0), vec![0, 1, 2, 3, 4]);
    assert!(inputs_to_replay(&ids, 7).is_empty());
}
