use quantsum::components::{Health, Team};
use quantsum::gamemode::{
    create_player, find_random_spawn_point, gamemode_from_name, parse_gamemode, respawn, GameMode, GameModeAction,
    GameModeCommands, GameModeController, RESPAWN_TIME, STARTING_HEALTH,
};
use quantsum::ids::IdPooler;
use quantsum::states::AppState;
use quantsum::gamemode::{classify_map_entity, post_build_map_entity, post_build_map_finish, MapEntityAction, MapEntityClass};
use quantsum::monsters::MonsterKind;
use quantsum::pickups::PickupKind;
use quantsum::states::PlayingSubState;

#[test]
fn parses_game_mode_names() {
    assert_eq!(parse_gamemode("sp"), GameMode::SinglePlayer);
    assert_eq!(parse_gamemode("  Coop "), GameMode::Coop);
    assert_eq!(parse_gamemode("COOPERATIVE"), GameMode::Coop);
    assert_eq!(parse_gamemode("dm"), GameMode::Deathmatch);
    assert_eq!(parse_gamemode("DeathMatch\n"), GameMode::Deathmatch);
    assert_eq!(parse_gamemode("tdm"), GameMode::TeamDeathmatch);
    assert_eq!(parse_gamemode("teamdeathmatch"), GameMode::TeamDeathmatch);
    assert_eq!(parse_gamemode("capture the flag"), GameMode::SinglePlayer);
    assert_eq!(gamemode_from_name("Dm"), GameMode::SinglePlayer);
}

#[test]
fn game_mode_names() {
    let mut c = GameModeController::default();
    assert_eq!(c.map, "m4");
    assert_eq!(c.get_game_mode_name(), "Single Player");
    c.game_mode = GameMode::TeamDeathmatch;
    assert_eq!(c.get_game_mode_name(), "Team Deathmatch");
    c.game_mode = GameMode::Coop;
    assert_eq!(c.get_game_mode_name(), "Coop");
    c.game_mode = GameMode::Deathmatch;
    assert_eq!(c.get_game_mode_name(), "Deathmatch");
}

#[test]
fn friendly_fire_rules() {
    let coop = GameModeController::new(GameMode::Coop, "m1".to_string());
    assert!(!coop.can_damage(&1, &2, &Team::AntiVirus, &Team::AntiVirus));
    assert!(coop.can_damage(&1, &2, &Team::AntiVirus, &Team::Virus));
    assert!(coop.can_damage(&1, &1, &Team::AntiVirus, &Team::AntiVirus));
    let dm = GameModeController::new(GameMode::Deathmatch, "m1".to_string());
    assert!(dm.can_damage(&1, &2, &Team::Deathmatch, &Team::Deathmatch));
    let tdm = GameModeController::new(GameMode::TeamDeathmatch, "m1".to_string());
    assert!(!tdm.can_damage(&1, &2, &Team::Virus, &Team::Virus));
}

#[test]
fn teams_for_modes() {
    assert_eq!(GameModeController::new(GameMode::Deathmatch, String::new()).team_for_mode(), Team::Deathmatch);
    assert_eq!(GameModeController::new(GameMode::TeamDeathmatch, String::new()).team_for_mode(), Team::AntiVirus);
    assert_eq!(GameModeController::new(GameMode::Coop, String::new()).team_for_mode(), Team::AntiVirus);
}

#[test]
fn damage_kills_once() {
    let c = GameModeController::new(GameMode::Deathmatch, String::new());
    let mut h = Health::new(30, 100);
    assert!(!c.apply_damage(&1, &2, &Team::Deathmatch, &Team::Deathmatch, &mut h, 20));
    assert_eq!(h.current(), 10);
    assert!(c.apply_damage(&1, &2, &Team::Deathmatch, &Team::Deathmatch, &mut h, 50));
    assert_eq!(h.current(), 0);
    assert!(!c.apply_damage(&1, &2, &Team::Deathmatch, &Team::Deathmatch, &mut h, 50));
    let coop = GameModeController::new(GameMode::Coop, String::new());
    let mut h2 = Health::new(30, 100);
    assert!(!coop.apply_damage(&1, &2, &Team::AntiVirus, &Team::AntiVirus, &mut h2, 50));
    assert_eq!(h2.current(), 30);
}

#[test]
fn load_map_sets_map_and_mode() {
    let mut c = GameModeController::default();
    assert_eq!(c.load_map("e1m1", &GameMode::Coop), AppState::LoadingMap);
    assert_eq!(c.map, "e1m1");
    assert_eq!(c.game_mode, GameMode::Coop);
}

#[test]
fn spawn_points() {
    assert_eq!(find_random_spawn_point(0), None);
    for _ in 0..20 {
        assert!(find_random_spawn_point(3).unwrap() < 3);
    }
    assert!(create_player(1, Team::Virus, 0).is_none());
    let s = create_player(1, Team::Virus, 2).unwrap();
    assert_eq!((s.id, s.team, s.health), (1, Team::Virus, STARTING_HEALTH));
    assert!(s.spawn_point < 2);
    assert_eq!(RESPAWN_TIME, 2);
}

#[test]
fn respawn_after_timer() {
    let mut h = Health::new(0, 100);
    assert_eq!(respawn(&mut h, false, 3), None);
    assert_eq!(h.current(), 0);
    assert!(respawn(&mut h, true, 3).unwrap() < 3);
    assert_eq!(h.current(), STARTING_HEALTH);
    let mut alive = Health::new(5, 100);
    assert_eq!(respawn(&mut alive, true, 3), None);
    let mut dead = Health::new(-3, 100);
    assert_eq!(respawn(&mut dead, true, 0), None);
}

#[test]
fn commands_spawn_and_despawn_players() {
    let c = GameModeController::new(GameMode::Deathmatch, String::new());
    let mut ids = IdPooler::new(true);
    match c.handle_command(GameModeCommands::PlayerConnected(77), &mut ids, 2) {
        GameModeAction::Spawn(s) => {
            assert_eq!(s.len(), 1);
            assert_eq!(s[0].id, 1);
            assert_eq!(s[0].team, Team::Deathmatch);
        }
        _ => panic!("expected a spawn"),
    }
    assert_eq!(ids.get_player_id(77), Some(&1));
    match c.handle_command(GameModeCommands::Start, &mut ids, 2) {
        GameModeAction::Spawn(s) => {
            let got: Vec<u8> = s.iter().map(|p| p.id).collect();
            assert_eq!(got, vec![0, 1]);
        }
        _ => panic!("expected spawns"),
    }
    match c.handle_command(GameModeCommands::PlayerDisconnected(1), &mut ids, 2) {
        GameModeAction::DespawnPlayer(id) => assert_eq!(id, 1),
        _ => panic!("expected a despawn"),
    }
    match c.handle_command(GameModeCommands::Start, &mut ids, 0) {
        GameModeAction::Spawn(s) => assert!(s.is_empty()),
        _ => panic!("expected no spawns"),
    }
}

#[test]
fn map_entities_by_class() {
    assert_eq!(classify_map_entity("light"), MapEntityClass::Light);
    assert_eq!(classify_map_entity("key_orange"), MapEntityClass::Key(PickupKind::OrangeKey));
    assert_eq!(classify_map_entity("worldspawn"), MapEntityClass::Other);
    let mut ids = IdPooler::new(true);
    assert_eq!(post_build_map_entity("player_spawn_point", true, &mut ids), MapEntityAction::PlayerSpawnPoint);
    assert_eq!(post_build_map_entity("player_spawn_point", false, &mut ids), MapEntityAction::Nothing);
    assert_eq!(
        post_build_map_entity("plasma_enemy_spawn_point", true, &mut ids),
        MapEntityAction::SpawnMonster { id: 0, seed: 0, kind: MonsterKind::GruntPlasma }
    );
    assert_eq!(
        post_build_map_entity("fusion_enemy_spawn_point", true, &mut ids),
        MapEntityAction::SpawnMonster { id: 1, seed: 1, kind: MonsterKind::GruntFusion }
    );
    assert_eq!(post_build_map_entity("laser_enemy_spawn_point", false, &mut ids), MapEntityAction::Nothing);
    assert_eq!(
        post_build_map_entity("key_red", true, &mut ids),
        MapEntityAction::SpawnPickup { id: 0, amount: 0, kind: PickupKind::RedKey }
    );
    assert_eq!(post_build_map_entity("mover", false, &mut ids), MapEntityAction::Mover);
    assert_eq!(post_build_map_entity("directional_light", false, &mut ids), MapEntityAction::DirectionalLight);
    assert_eq!(post_build_map_entity("navigation_node", false, &mut ids), MapEntityAction::Nothing);
    assert_eq!(post_build_map_entity("navigation_node", true, &mut ids), MapEntityAction::NavigationNode);
    assert_eq!(
        post_build_map_finish(true),
        (AppState::Playing(PlayingSubState::Playing), Some(GameModeCommands::Start))
    );
    assert_eq!(post_build_map_finish(false).1, None);
}

#[test]
fn respawn_notice_goes_to_the_client() {
    let mut ids = IdPooler::new(true);
    ids.assign_and_reserve_player_id(31).unwrap();
    assert_eq!(quantsum::gamemode::respawn_notice(&ids, 1), Some((31, RESPAWN_TIME)));
    assert_eq!(quantsum::gamemode::respawn_notice(&ids, 0), Some((0, RESPAWN_TIME)));
    assert_eq!(quantsum::gamemode::respawn_notice(&ids, 5), None);
}
