use quantsum::components::{Health, Team};
use quantsum::player::{has_authority, LocalPlayer, Player, PlayerInput, QuatBits};
use quantsum::snapshot::{PlayerSnapshot, Vec3Bits};
use quantsum::player::wish_weapon_key;
use quantsum::player::takes_input;
use quantsum::states::{AppState, PlayingSubState};
use quantsum::net::client::merge_unsent_inputs;
use quantsum::spawn::{OwnerType, SpawnPlayer};

fn input(fire: bool, weapon: Option<u8>, wish: Option<u8>) -> PlayerInput {
    PlayerInput {
        id: 1,
        snapshot_id: None,
        move_direction: Vec3Bits::default(),
        look_rotation: QuatBits::default(),
        holding_down_fire: fire,
        weapon_key: weapon,
        num_left_in_burst: 0,
        wish_weapon_key: wish,
    }
}

#[test]
fn merging_keeps_shots_and_choices() {
    let mut a = input(false, Some(1), None);
    a.merge_important_props(&input(true, None, Some(3)));
    assert!(a.holding_down_fire);
    assert_eq!(a.weapon_key, Some(1));
    assert_eq!(a.wish_weapon_key, Some(3));
    a.merge_important_props(&input(false, Some(2), None));
    assert!(a.holding_down_fire);
    assert_eq!(a.weapon_key, Some(2));
    assert_eq!(a.wish_weapon_key, Some(3));
}

#[test]
fn authority_is_client_zero() {
    let server = LocalPlayer::default();
    assert!(server.has_authority());
    let client = LocalPlayer { client_id: 12, player_id: 3 };
    assert!(!client.has_authority());
    assert!(has_authority(Some(&server)));
    assert!(!has_authority(Some(&client)));
    assert!(!has_authority(None));
}

fn player(id: u8) -> Player {
    Player {
        latest_processed_input: None,
        id,
        name: "old".to_string(),
        frags: 1,
        deaths: 2,
        score: 3,
        ping: 4,
        frozen_amount: 5,
    }
}

#[test]
fn local_player_equality() {
    let me = LocalPlayer { client_id: 12, player_id: 3 };
    assert!(me.equals(&player(3)));
    assert!(!me.equals(&player(4)));
}

#[test]
fn names_roundtrip_through_bytes() {
    let encoded = PlayerSnapshot::encode_name(&"Player 7".to_string());
    assert_eq!(&encoded[..8], b"Player 7");
    assert!(encoded[8..].iter().all(|b| *b == 0));
    assert_eq!(PlayerSnapshot::decode_name(&encoded), "Player 7");
    assert_eq!(PlayerSnapshot::decode_name(&[0; 32]), "");
    let mut padded = [0u8; 32];
    padded[3] = b'a';
    padded[4] = 0;
    padded[5] = b'b';
    assert_eq!(PlayerSnapshot::decode_name(&padded), "a\0b");
}

#[test]
fn update_player_takes_given_fields() {
    let mut s = PlayerSnapshot {
        id: 3,
        translation: None,
        rotation: None,
        velocity: None,
        frozen_amount: Some(9),
        health: Some(40),
        frags: None,
        deaths: Some(8),
        score: None,
        name: Some(PlayerSnapshot::encode_name(&"Neo".to_string())),
        team: Some(Team::Virus),
        ping: None,
        entity: None,
    };
    let mut p = player(3);
    let mut team = Team::AntiVirus;
    let mut health = Health::new(100, 100);
    s.update_player(&mut p, &mut team, &mut health);
    assert_eq!(p.name, "Neo");
    assert_eq!(p.frozen_amount, 9);
    assert_eq!(p.frags, 1);
    assert_eq!(p.deaths, 8);
    assert_eq!(p.ping, 4);
    assert_eq!(team, Team::Virus);
    assert_eq!(health.current(), 40);
    s.health = None;
    s.team = None;
    s.update_player(&mut p, &mut team, &mut health);
    assert_eq!(health.current(), 40);
    assert_eq!(team, Team::Virus);
}

#[test]
fn highest_number_key_wins() {
    assert_eq!(wish_weapon_key(Some(2), &[false; 5]), Some(2));
    assert_eq!(wish_weapon_key(None, &[false; 5]), None);
    assert_eq!(wish_weapon_key(Some(2), &[true, false, true, false, false]), Some(3));
    assert_eq!(wish_weapon_key(None, &[false, false, false, false, true]), Some(5));
}

#[test]
fn input_only_outside_chat_and_menu() {
    assert!(takes_input(false, &AppState::Playing(PlayingSubState::Playing)));
    assert!(!takes_input(true, &AppState::Playing(PlayingSubState::Playing)));
    assert!(!takes_input(false, &AppState::Playing(PlayingSubState::Menu)));
}

#[test]
fn unsent_inputs_are_folded_into_latest() {
    let inputs = vec![input(true, Some(1), None), input(false, Some(4), Some(2)), input(false, None, Some(7))];
    let mut sent = vec![false, true, false];
    let merged = merge_unsent_inputs(input(false, None, None), &inputs, &mut sent);
    assert!(merged.holding_down_fire);
    assert_eq!(merged.weapon_key, Some(1));
    assert_eq!(merged.wish_weapon_key, Some(7));
    assert_eq!(sent, vec![true, true, true]);
}

#[test]
fn spawn_from_snapshot_defaults() {
    let mut s = PlayerSnapshot {
        id: 6,
        translation: None,
        rotation: None,
        velocity: None,
        frozen_amount: None,
        health: None,
        frags: None,
        deaths: None,
        score: None,
        name: None,
        team: None,
        ping: None,
        entity: None,
    };
    assert!(SpawnPlayer::from_snapshot(&s).is_none());
    s.name = Some(PlayerSnapshot::encode_name(&"Trin".to_string()));
    let spawn = SpawnPlayer::from_snapshot(&s).unwrap();
    assert_eq!(spawn.name, "Trin");
    assert_eq!(spawn.team, Team::Spectator);
    assert_eq!(spawn.health, 100);
    assert_eq!(spawn.position, Vec3Bits::default());
    assert_eq!(OwnerType::default(), OwnerType::Player);
}
