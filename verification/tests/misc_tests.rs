use quantsum::components::{Health, Team};
use quantsum::console::is_slash_command;
use quantsum::gameplay::{door_motion, trigger_opens_door, DoorMotion};
use quantsum::monsters::MonsterKind;
use quantsum::net::NetChannel;
use quantsum::pickups::{pickup_outcome, PickupKind, PickupOutcome};
use quantsum::states::{in_playing_state, is_dedicated_server, is_loading_map, is_paused, AppState, PlayingSubState, WorldState};
use quantsum::vfx::{color_keys, random_i32, spawn_vfx_emitter, scale_keys, ScaleKeys, VfxEmitterKind};
use quantsum::hud::Chat;
use quantsum::components::DoorKey;
use quantsum::hud::door_key_label;

#[test]
fn team_bytes() {
    assert_eq!(Team::from(0), Team::AntiVirus);
    assert_eq!(Team::from(4), Team::World);
    assert_eq!(Team::from(200), Team::Spectator);
    assert_eq!(Team::from(Team::Virus.to_u8()), Team::Virus);
}

#[test]
fn monster_and_pickup_bytes() {
    assert_eq!(MonsterKind::from(1), MonsterKind::GruntLasers);
    assert_eq!(MonsterKind::from(77), MonsterKind::GruntFusion);
    assert_eq!(MonsterKind::GruntPlasma.weapon_key(), 30);
    assert_eq!(PickupKind::from(3), PickupKind::YellowKey);
    assert_eq!(PickupKind::from(99), PickupKind::Health);
    assert_eq!(PickupKind::from(PickupKind::OrangeKey.to_u8()), PickupKind::OrangeKey);
}

#[test]
fn health_bounds() {
    let mut h = Health::new(90, 100);
    h.increment(30);
    assert_eq!(h.current(), 100);
    h.decrement(150);
    assert_eq!(h.current(), 0);
    assert!(h.dead());
    assert_eq!(Health::default().current(), 100);
}

#[test]
fn pickups_outcomes() {
    assert_eq!(pickup_outcome(PickupKind::Health, Some(25)), PickupOutcome::HealAndDespawn(25));
    assert_eq!(pickup_outcome(PickupKind::Health, None), PickupOutcome::Nothing);
    assert_eq!(pickup_outcome(PickupKind::RedKey, None), PickupOutcome::Despawn);
}

#[test]
fn channel_numbers() {
    assert_eq!(u8::from(NetChannel::SnapshotUnreliable), 0);
    assert_eq!(u8::from(NetChannel::SnapshotReliable), 1);
    assert_eq!(u8::from(NetChannel::GameState), 2);
    assert_eq!(u8::from(NetChannel::Weapons), 3);
}

#[test]
fn app_state_tests() {
    assert!(in_playing_state(&AppState::Playing(PlayingSubState::Menu)));
    assert!(in_playing_state(&AppState::Playing(PlayingSubState::Playing)));
    assert!(!in_playing_state(&AppState::LoadingMap));
    assert!(is_paused(&AppState::Playing(PlayingSubState::Menu)));
    assert!(!is_paused(&AppState::Playing(PlayingSubState::Playing)));
    assert!(is_loading_map(&AppState::LoadingMap));
    assert!(!is_loading_map(&AppState::Initial));
    assert!(is_dedicated_server(&WorldState::DedicatedServer));
    assert!(!is_dedicated_server(&WorldState::ListenServer));
}

#[test]
fn slash_commands() {
    assert!(is_slash_command("/help"));
    assert!(is_slash_command("   /map e1m1"));
    assert!(!is_slash_command("hello /all"));
    assert!(!is_slash_command("   "));
}

#[test]
fn doors() {
    assert!(trigger_opens_door(None, false, false, false));
    assert!(trigger_opens_door(Some("red"), true, false, false));
    assert!(!trigger_opens_door(Some("red"), false, true, true));
    assert!(trigger_opens_door(Some("yellow"), false, false, true));
    assert!(!trigger_opens_door(Some("green"), true, true, true));
    assert_eq!(door_motion(true, Some(99999), 10), DoorMotion::Open);
    assert_eq!(door_motion(false, Some(5), 10), DoorMotion::Open);
    assert_eq!(door_motion(false, Some(10), 10), DoorMotion::Hold);
    assert_eq!(door_motion(false, None, 10), DoorMotion::Close);
    assert_eq!(door_motion(true, None, 10), DoorMotion::Close);
}

#[test]
fn emitter_counts_bursts() {
    let kind = VfxEmitterKind::Continuous { count_per_burst: 4, burst_count: 3, rate_millis: 20 };
    let VfxEmitterKind::Continuous { count_per_burst, burst_count, .. } = kind;
    let (first, mut e) = spawn_vfx_emitter(count_per_burst, burst_count, 20);
    assert_eq!(first, 4);
    assert_eq!(e.burst_rate_millis, 20);
    assert_eq!(e.count_left, 2);
    let s = e.tick(false);
    assert!(!s.burst && !s.despawn);
    let s = e.tick(true);
    assert!(s.burst && !s.despawn);
    let s = e.tick(true);
    assert!(s.burst && s.despawn);
    assert_eq!(e.count_left, 0);
    let s = e.tick(true);
    assert!(!s.burst && s.despawn);
}

#[test]
fn color_curve_keys() {
    let keys = vec![0, 50, 100];
    assert_eq!(color_keys(&keys, 25), (0, Some(1)));
    assert_eq!(color_keys(&keys, 50), (1, Some(2)));
    assert_eq!(color_keys(&keys, 150), (2, None));
    assert_eq!(color_keys(&vec![10, 20], 5), (0, Some(1)));
    assert_eq!(color_keys(&vec![10], 5), (0, None));
}

#[test]
fn scale_curve_keys() {
    assert_eq!(scale_keys(&vec![], 10), ScaleKeys::Keep);
    assert_eq!(scale_keys(&vec![40], 10), ScaleKeys::At(0));
    let keys = vec![0, 50, 100];
    assert_eq!(scale_keys(&keys, 25), ScaleKeys::Blend(0, 1));
    assert_eq!(scale_keys(&keys, 75), ScaleKeys::Blend(1, 2));
    assert_eq!(scale_keys(&keys, 100), ScaleKeys::At(2));
    assert_eq!(scale_keys(&vec![20, 50], 10), ScaleKeys::At(0));
}

#[test]
fn random_ints_in_range() {
    assert_eq!(random_i32(5, 5), 5);
    assert_eq!(random_i32(9, 2), 9);
    for _ in 0..50 {
        let r = random_i32(-3, 4);
        assert!((-3..4).contains(&r));
    }
}

#[test]
fn chat_keeps_last_ten() {
    let mut chat = Chat::default();
    assert!(!chat.receive_messages(Vec::new()));
    let incoming: Vec<String> = (0..12).map(|i| format!("m{}", i)).collect();
    assert!(chat.receive_messages(incoming));
    assert_eq!(chat.messages.len(), 10);
    assert_eq!(chat.messages[0], "m2");
    assert_eq!(chat.messages[9], "m11");
    assert!(chat.receive_messages(vec!["last".to_string()]));
    assert_eq!(chat.messages[0], "m3");
    assert_eq!(chat.messages[9], "last");
}

#[test]
fn chat_typing() {
    let mut chat = Chat::default();
    assert_eq!(chat.send_step(false, false, false), None);
    assert!(!chat.show);
    assert_eq!(chat.send_step(true, false, false), None);
    assert!(chat.show);
    chat.message = "hello".to_string();
    assert_eq!(chat.send_step(false, false, true), Some("hello".to_string()));
    assert!(!chat.show);
    assert!(chat.message.is_empty());
    chat.send_step(true, false, false);
    chat.message = "drop me".to_string();
    assert_eq!(chat.send_step(false, true, false), None);
    assert!(!chat.show && chat.message.is_empty());
}

#[test]
fn door_key_labels() {
    assert_eq!(door_key_label(DoorKey::Red), "Red Key");
    assert_eq!(door_key_label(DoorKey::Blue), "Blue Key");
    assert_eq!(door_key_label(DoorKey::Yellow), "Yellow Key");
}
