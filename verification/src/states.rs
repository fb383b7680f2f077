//! The states the application moves through, and the tests on them that
//! decide which systems run.
use vstd::prelude::*;

verus! {

/// What the player is doing while a map is being played.
#[derive(Clone, Copy, PartialEq, Eq, Structural, Debug, Hash)]
pub enum PlayingSubState {
    Playing,
    Menu,
}

/// The part this process plays in a game.
#[derive(Clone, Copy, PartialEq, Eq, Structural, Debug, Hash)]
pub enum WorldState {
    SinglePlayer,
    Client,
    ListenServer,
    DedicatedServer,
}

/// The screen or phase the application is in.
#[derive(Clone, Copy, PartialEq, Eq, Structural, Debug, Hash)]
pub enum AppState {
    Initial,
    SplashScreen,
    TitleScreen,
    LoadingMap,
    Playing(PlayingSubState),
    ConnectingToServer,
}

/// Whether a map is being played, with or without the menu open.
pub fn in_playing_state(app_state: &AppState) -> (r: bool)
    ensures
        r == (*app_state is Playing),
{
    match app_state {
        AppState::Playing(_) => true,
        _ => false,
    }
}

/// Whether this process is a server without a player of its own.
pub fn is_dedicated_server(world_state: &WorldState) -> (r: bool)
    ensures
        r == (*world_state == WorldState::DedicatedServer),
{
    *world_state == WorldState::DedicatedServer
}

/// Whether the game is paused behind the menu.
pub fn is_paused(app_state: &AppState) -> (r: bool)
    ensures
        r == (*app_state == AppState::Playing(PlayingSubState::Menu)),
{
    *app_state == AppState::Playing(PlayingSubState::Menu)
}

/// Whether a map is being loaded.
pub fn is_loading_map(app_state: &AppState) -> (r: bool)
    ensures
        r == (*app_state == AppState::LoadingMap),
{
    *app_state == AppState::LoadingMap
}

} // verus!
