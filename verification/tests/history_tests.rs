use quantsum::snapshot::history::SnapshotHistory;
use quantsum::snapshot::Snapshot;

fn snap(id: u64, players: Vec<u8>, monsters: Vec<u8>, pickups: Vec<u8>) -> Snapshot {
    Snapshot {
        id,
        absolute: true,
        players: Vec::new(),
        monsters: Vec::new(),
        pickups: Vec::new(),
        local_player_id: None,
        local_last_processed_input_id: None,
        player_deletions: players,
        monster_deletions: monsters,
        pickup_deletions: pickups,
    }
}

#[test]
fn empty_history_has_no_latest() {
    let h = SnapshotHistory::new();
    assert!(h.latest().is_none());
    assert!(h.second_latest().is_none());
}

#[test]
fn latest_and_second_latest_go_by_id() {
    let mut h = SnapshotHistory::new();
    h.record(snap(100, vec![], vec![], vec![]));
    assert_eq!(h.latest().unwrap().id, 100);
    assert!(h.second_latest().is_none());
    h.record(snap(300, vec![], vec![], vec![]));
    h.server_snapshots.insert(200, snap(200, vec![], vec![], vec![]));
    assert_eq!(h.latest().unwrap().id, 300);
    assert_eq!(h.second_latest().unwrap().id, 200);
}

#[test]
fn recording_drops_snapshots_a_second_old() {
    let mut h = SnapshotHistory::new();
    h.record(snap(1000, vec![], vec![], vec![]));
    h.record(snap(1500, vec![], vec![], vec![]));
    h.record(snap(2000, vec![], vec![], vec![]));
    let ids: Vec<u64> = h.server_snapshots.keys().copied().collect();
    assert_eq!(ids, vec![1500, 2000]);
    h.record(snap(2999, vec![], vec![], vec![]));
    let ids: Vec<u64> = h.server_snapshots.keys().copied().collect();
    assert_eq!(ids, vec![2000, 2999]);
    assert_eq!(h.latest().unwrap().id, 2999);
}

#[test]
fn clean_keeps_recent_and_acks() {
    let mut h = SnapshotHistory::new();
    for id in [10u64, 500, 1009, 1010] {
        h.server_snapshots.insert(id, snap(id, vec![], vec![], vec![]));
    }
    h.server_last_acked_snapshots.insert(7, 10);
    let latest = snap(1010, vec![], vec![], vec![]);
    h.clean_old_snapshots(&latest);
    let ids: Vec<u64> = h.server_snapshots.keys().copied().collect();
    assert_eq!(ids, vec![500, 1009, 1010]);
    assert_eq!(h.server_last_acked_snapshots.get(&7), Some(&10));
}

#[test]
fn clear_forgets_everything() {
    let mut h = SnapshotHistory::new();
    h.record(snap(5, vec![1], vec![], vec![]));
    h.server_last_acked_snapshots.insert(1, 5);
    h.clear();
    assert!(h.server_snapshots.is_empty());
    assert!(h.server_last_acked_snapshots.is_empty());
}

#[test]
fn bubble_up_collects_deletions_after_ack_in_order() {
    let mut h = SnapshotHistory::new();
    h.record(snap(100, vec![1], vec![10], vec![]));
    h.record(snap(200, vec![2], vec![], vec![20]));
    h.record(snap(300, vec![3, 4], vec![30], vec![]));
    h.server_last_acked_snapshots.insert(9, 100);
    let d = h.bubble_up_deletions(&9);
    assert_eq!(d.player_deletions, vec![2, 3, 4]);
    assert_eq!(d.monster_deletions, vec![30]);
    assert_eq!(d.pickup_deletions, vec![20]);
}

#[test]
fn bubble_up_without_ack_is_empty() {
    let mut h = SnapshotHistory::new();
    h.record(snap(100, vec![1], vec![10], vec![11]));
    let d = h.bubble_up_deletions(&42);
    assert!(d.player_deletions.is_empty());
    assert!(d.monster_deletions.is_empty());
    assert!(d.pickup_deletions.is_empty());
}

#[test]
fn bubble_up_with_ack_between_snapshots() {
    let mut h = SnapshotHistory::new();
    h.record(snap(100, vec![1], vec![], vec![]));
    h.record(snap(300, vec![3], vec![], vec![]));
    h.server_last_acked_snapshots.insert(2, 150);
    assert_eq!(h.bubble_up_deletions(&2).player_deletions, vec![3]);
    h.server_last_acked_snapshots.insert(2, 300);
    assert!(h.bubble_up_deletions(&2).player_deletions.is_empty());
}
