use quantsum::weapons::{
    announces_shotgun, find_fired_event, get_owner_entity,
    find_config, BurstConfig, TickOutcome, Weapon, WeaponContainer, WeaponContainerConfig, WeaponTiming,
    WEAPON_KEY_SHOTGUN,
};

fn configs() -> Vec<WeaponTiming> {
    vec![
        WeaponTiming { key: 1, fire_rate_millis: 100, burst_config: None, barrel_count: 1, projectiles_per_barrel: 1 },
        WeaponTiming {
            key: 2,
            fire_rate_millis: 500,
            burst_config: Some(BurstConfig { shots_per_burst: 3, burst_rate_millis: 50 }),
            barrel_count: 2,
            projectiles_per_barrel: 1,
        },
        WeaponTiming { key: WEAPON_KEY_SHOTGUN, fire_rate_millis: 800, burst_config: None, barrel_count: 1, projectiles_per_barrel: 1 },
    ]
}

fn container(keys: &[u8]) -> WeaponContainer {
    WeaponContainer::new(WeaponContainerConfig {
        owner_id: 4,
        weapons: keys.iter().map(|k| Weapon::new(*k, None)).collect(),
    })
}

#[test]
fn container_starts_with_first_weapon() {
    let c = container(&[2, 1]);
    assert_eq!(c.current_weapon_key, 2);
    assert_eq!(c.num_left_in_burst, 0);
    assert_eq!(c.owner_id, 4);
}

#[test]
fn fires_only_when_timer_finished() {
    let mut c = container(&[1]);
    let cfg = configs();
    assert_eq!(c.tick(true, None, false, &cfg), TickOutcome { fired: None, restart_timer_millis: None });
    assert_eq!(c.tick(true, None, true, &cfg), TickOutcome { fired: Some(1), restart_timer_millis: Some(100) });
    assert_eq!(c.tick(false, None, true, &cfg), TickOutcome { fired: None, restart_timer_millis: None });
}

#[test]
fn burst_fires_all_shots() {
    let mut c = container(&[2]);
    let cfg = configs();
    let first = c.tick(true, None, true, &cfg);
    assert_eq!(first, TickOutcome { fired: Some(2), restart_timer_millis: Some(50) });
    assert_eq!(c.num_left_in_burst, 2);
    let second = c.tick(false, None, true, &cfg);
    assert_eq!(second, TickOutcome { fired: Some(2), restart_timer_millis: Some(50) });
    assert_eq!(c.num_left_in_burst, 1);
    let third = c.tick(false, None, true, &cfg);
    assert_eq!(third, TickOutcome { fired: Some(2), restart_timer_millis: Some(500) });
    assert_eq!(c.num_left_in_burst, 0);
    let fourth = c.tick(false, None, true, &cfg);
    assert_eq!(fourth.fired, None);
}

#[test]
fn switches_weapon_when_timer_finished() {
    let mut c = container(&[1, WEAPON_KEY_SHOTGUN]);
    let cfg = configs();
    let r = c.tick(false, Some(WEAPON_KEY_SHOTGUN), false, &cfg);
    assert_eq!(r.fired, None);
    assert_eq!(c.current_weapon_key, 1);
    let r = c.tick(true, Some(WEAPON_KEY_SHOTGUN), true, &cfg);
    assert_eq!(c.current_weapon_key, WEAPON_KEY_SHOTGUN);
    assert_eq!(r, TickOutcome { fired: Some(WEAPON_KEY_SHOTGUN), restart_timer_millis: Some(800) });
}

#[test]
fn unknown_weapon_does_nothing() {
    let mut c = container(&[9]);
    let cfg = configs();
    assert_eq!(c.tick(true, Some(1), true, &cfg).fired, None);
    assert_eq!(c.current_weapon_key, 9);
    let c2 = container(&[1]);
    assert_eq!(c2.server_process_player_fired_event(Some(1), &cfg), Some(1));
    assert_eq!(c2.server_process_player_fired_event(Some(2), &cfg), None);
    assert_eq!(c2.server_process_player_fired_event(None, &cfg), None);
}

#[test]
fn weapon_ammo() {
    assert!(Weapon::new(1, None).has_ammo());
    assert!(Weapon::new(1, Some(3)).has_ammo());
    assert!(!Weapon::new(1, Some(0)).has_ammo());
}

#[test]
fn finds_first_config() {
    let mut cfg = configs();
    cfg.push(WeaponTiming { key: 1, fire_rate_millis: 7, burst_config: None, barrel_count: 1, projectiles_per_barrel: 1 });
    assert_eq!(find_config(&cfg, 1).unwrap().fire_rate_millis, 100);
    assert!(find_config(&cfg, 42).is_none());
}

#[test]
fn owners_and_events() {
    let players = vec![(100u64, 1u8), (101, 2), (102, 2)];
    let bots = vec![(200u64, 2u8)];
    assert_eq!(get_owner_entity(Some(5), 2, &players, &bots), Some(101));
    assert_eq!(get_owner_entity(None, 2, &players, &bots), Some(200));
    assert_eq!(get_owner_entity(None, 1, &players, &bots), None);
    assert_eq!(find_fired_event(&vec![3, 1, 1], 1), Some(1));
    assert_eq!(find_fired_event(&vec![3], 1), None);
    assert!(announces_shotgun(true, true, WEAPON_KEY_SHOTGUN));
    assert!(!announces_shotgun(false, true, WEAPON_KEY_SHOTGUN));
    assert!(!announces_shotgun(true, true, 1));
}

#[test]
fn projectile_ids_per_barrel() {
    let mut pool = quantsum::ids::IdPooler::default();
    pool.next_projectile_id();
    let ids = Weapon::new(WEAPON_KEY_SHOTGUN, None).projectile_ids(2, 3, &mut pool);
    assert_eq!(ids, vec![1, 2, 3, 4, 5, 6]);
    assert_eq!(pool.next_projectile_id(), 7);
    assert!(Weapon::new(1, None).projectile_ids(0, 3, &mut pool).is_empty());
}
