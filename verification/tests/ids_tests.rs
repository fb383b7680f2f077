use quantsum::ids::IdPooler;

#[test]
fn server_player_holds_id_zero() {
    let mut p = IdPooler::new(true);
    assert_eq!(p.get_player_id(0), Some(&0));
    assert_eq!(p.assign_and_reserve_player_id(55), Ok(1));
    assert_eq!(p.assign_and_reserve_player_id(56), Ok(2));
    assert_eq!(p.get_client_id_from_player_id(2), Some(&56));
    assert_eq!(p.get_client_id_from_player_id(0), Some(&0));
    assert_eq!(p.get_client_id_from_player_id(9), None);
}

#[test]
fn dedicated_server_starts_without_players() {
    let mut p = IdPooler::new(false);
    assert_eq!(p.get_player_id(0), None);
    assert!(p.get_all_player_ids().is_empty());
    assert_eq!(p.assign_and_reserve_player_id(3), Ok(1));
}

#[test]
fn released_player_id_is_reused() {
    let mut p = IdPooler::new(true);
    p.assign_and_reserve_player_id(10).unwrap();
    p.assign_and_reserve_player_id(11).unwrap();
    p.release_player_id(10);
    assert_eq!(p.get_player_id(10), None);
    assert_eq!(p.assign_and_reserve_player_id(12), Ok(1));
    let ids: Vec<u8> = p.get_all_player_ids().into_iter().copied().collect();
    assert_eq!(ids, vec![0, 2, 1]);
}

#[test]
fn player_ids_run_out_at_255() {
    let mut p = IdPooler::new(true);
    for c in 1..255u64 {
        assert_eq!(p.assign_and_reserve_player_id(c), Ok(c as u8));
    }
    assert_eq!(p.assign_and_reserve_player_id(1000), Err(()));
}

#[test]
fn pickup_and_monster_pools() {
    let mut p = IdPooler::default();
    assert_eq!(p.assign_and_reserve_pickup_id(), Ok(0));
    assert_eq!(p.assign_and_reserve_pickup_id(), Ok(1));
    assert_eq!(p.assign_and_reserve_monster_id(), Ok(0));
    p.release_pickup_id(0);
    assert_eq!(p.assign_and_reserve_pickup_id(), Ok(0));
    assert_eq!(p.assign_and_reserve_pickup_id(), Ok(2));
    p.release_bot_id(0);
    assert_eq!(p.assign_and_reserve_monster_id(), Ok(0));
}

#[test]
fn pickup_pool_runs_out() {
    let mut p = IdPooler::default();
    for i in 0..255u16 {
        assert_eq!(p.assign_and_reserve_pickup_id(), Ok(i as u8));
    }
    assert_eq!(p.assign_and_reserve_pickup_id(), Err(()));
}

#[test]
fn projectile_ids_wrap() {
    let mut p = IdPooler::default();
    assert_eq!(p.next_projectile_id(), 0);
    assert_eq!(p.next_projectile_id(), 1);
    for _ in 2..65536u32 {
        p.next_projectile_id();
    }
    assert_eq!(p.next_projectile_id(), 0);
}
