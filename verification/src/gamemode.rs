//! Game modes: their rules on teams and damage, the map being played, and
//! the decisions the server takes when players join, die and respawn.
use crate::components::{Health, Team};
use crate::monsters::MonsterKind;
use crate::pickups::PickupKind;
use crate::ids::{id_taken, least_free_in_pool, least_free_player_id, IdPooler};
use crate::snapshot::history::ids_in_order;
use crate::states::{AppState, PlayingSubState};
use vstd::prelude::*;

verus! {

/// Seconds a dead player waits before respawning.
pub const RESPAWN_TIME: u8 = 2;

/// Health a player spawns with.
pub const STARTING_HEALTH: i16 = 200;

#[derive(Clone, Copy, PartialEq, Eq, Structural, Debug, Hash)]
pub enum GameMode {
    SinglePlayer,
    Coop,
    Deathmatch,
    TeamDeathmatch,
}

impl Default for GameMode {
    fn default() -> (r: GameMode)
        ensures
            r == GameMode::SinglePlayer,
    {
        GameMode::SinglePlayer
    }
}

/// The map and the game mode being played.
pub struct GameModeController {
    pub map: String,
    pub game_mode: GameMode,
}

/// The mode a lower-cased, trimmed mode name stands for; unknown names mean
/// single player.
pub open spec fn gamemode_named(name: Seq<char>) -> GameMode {
    if name == "singleplayer"@ || name == "sp"@ {
        GameMode::SinglePlayer
    } else if name == "cooperative"@ || name == "coop"@ {
        GameMode::Coop
    } else if name == "deathmatch"@ || name == "dm"@ {
        GameMode::Deathmatch
    } else if name == "teamdeathmatch"@ || name == "tdm"@ {
        GameMode::TeamDeathmatch
    } else {
        GameMode::SinglePlayer
    }
}

/// The team a joining player is put in under `mode`.
pub open spec fn team_for(mode: GameMode) -> Team {
    match mode {
        GameMode::Deathmatch => Team::Deathmatch,
        _ => Team::AntiVirus,
    }
}

/// Whether `instigator` may hurt `victim` under `mode`: one can always hurt
/// oneself; in coop and team deathmatch nobody hurts a team mate.
pub open spec fn damage_allowed(mode: GameMode, instigator: u64, victim: u64, instigator_team: Team, victim_team: Team) -> bool {
    if instigator == victim {
        true
    } else {
        match mode {
            GameMode::Coop | GameMode::TeamDeathmatch => instigator_team != victim_team,
            _ => true,
        }
    }
}

/// Whether `c` has the Unicode `White_Space` property, the whitespace that
/// `str::trim` removes.
pub open spec fn is_white_space(c: char) -> bool {
    let u = c as u32;
    ||| 0x09 <= u <= 0x0d
    ||| u == 0x20
    ||| u == 0x85
    ||| u == 0xa0
    ||| u == 0x1680
    ||| 0x2000 <= u <= 0x200a
    ||| u == 0x2028
    ||| u == 0x2029
    ||| u == 0x202f
    ||| u == 0x205f
    ||| u == 0x3000
}

/// `s` without its leading whitespace.
pub open spec fn trimmed_start(s: Seq<char>) -> Seq<char>
    decreases s.len(),
{
    if s.len() > 0 && is_white_space(s[0]) {
        trimmed_start(s.drop_first())
    } else {
        s
    }
}

/// `s` without its trailing whitespace.
pub open spec fn trimmed_end(s: Seq<char>) -> Seq<char>
    decreases s.len(),
{
    if s.len() > 0 && is_white_space(s.last()) {
        trimmed_end(s.drop_last())
    } else {
        s
    }
}

/// `s` without its leading and trailing whitespace.
pub open spec fn str_trimmed(s: Seq<char>) -> Seq<char> {
    trimmed_end(trimmed_start(s))
}

/// The string `str::to_lowercase` gives for `s`.
pub uninterp spec fn str_lowercased(s: Seq<char>) -> Seq<char>;

/// `str::trim`: `s` without its leading and trailing whitespace, as the
/// Unicode `White_Space` property defines it.
#[verifier::external_body]
pub(crate) fn trim(s: &str) -> (r: &str)
    ensures
        r@ == str_trimmed(s@),
{
    s.trim()
}

/// `str::to_lowercase`: `s` with every character lower-cased.
#[verifier::external_body]
fn to_lowercase(s: &str) -> (r: String)
    ensures
        r@ == str_lowercased(s@),
{
    s.to_lowercase()
}

/// The game mode a lower-cased, trimmed mode name stands for.
pub fn gamemode_from_name(name: &str) -> (r: GameMode)
    ensures
        r == gamemode_named(name@),
{
    let s = name.to_owned();
    if s == String::from_str("singleplayer") || s == String::from_str("sp") {
        GameMode::SinglePlayer
    } else if s == String::from_str("cooperative") || s == String::from_str("coop") {
        GameMode::Coop
    } else if s == String::from_str("deathmatch") || s == String::from_str("dm") {
        GameMode::Deathmatch
    } else if s == String::from_str("teamdeathmatch") || s == String::from_str("tdm") {
        GameMode::TeamDeathmatch
    } else {
        GameMode::SinglePlayer
    }
}

/// The game mode named on the command line, in any case and with blanks
/// around it; unknown names mean single player.
pub fn parse_gamemode(input: &str) -> (r: GameMode)
    ensures
        r == gamemode_named(str_lowercased(str_trimmed(input@))),
{
    let trimmed = trim(input);
    let lowered = to_lowercase(trimmed);
    gamemode_from_name(lowered.as_str())
}

/// A player the server is about to spawn.
#[derive(Clone, Copy, PartialEq, Eq, Structural, Debug)]
pub struct PlayerSpawn {
    pub id: u8,
    pub health: i16,
    pub team: Team,
    /// Which spawn point to place the player at.
    pub spawn_point: usize,
}

/// What the server does on a game-mode command.
pub enum GameModeAction {
    Spawn(Vec<PlayerSpawn>),
    DespawnPlayer(u8),
    Nothing,
}

/// A game-mode command.
#[derive(Clone, Copy, PartialEq, Eq, Structural, Debug)]
pub enum GameModeCommands {
    /// The game starts: every known player spawns.
    Start,
    /// A client connected.
    PlayerConnected(u64),
    /// The player with this id left.
    PlayerDisconnected(u8),
}

/// A uniformly random index below `n`, from the thread's generator.
#[verifier::external_body]
fn random_index(n: usize) -> (r: usize)
    requires
        n > 0,
    ensures
        r < n,
{
    rand::Rng::gen_range(&mut rand::thread_rng(), 0..n)
}

/// A random spawn point out of `count`, if there are any.
pub fn find_random_spawn_point(count: usize) -> (r: Option<usize>)
    ensures
        count == 0 ==> r is None,
        count > 0 ==> (r matches Some(i) && i < count),
{
    if count == 0 {
        None
    } else {
        Some(random_index(count))
    }
}

/// The spawn of player `id` in `team` at a random spawn point, if there is
/// one.
pub fn create_player(id: u8, team: Team, spawn_point_count: usize) -> (r: Option<PlayerSpawn>)
    ensures
        spawn_point_count == 0 ==> r is None,
        spawn_point_count > 0 ==> (r matches Some(s) && s.id == id && s.team == team && s.health
            == STARTING_HEALTH && s.spawn_point < spawn_point_count),
{
    match find_random_spawn_point(spawn_point_count) {
        Some(i) => Some(PlayerSpawn { id, health: STARTING_HEALTH, team, spawn_point: i }),
        None => None,
    }
}

impl GameModeController {
    pub fn new(game_mode: GameMode, map: String) -> (r: GameModeController)
        ensures
            r.game_mode == game_mode,
            r.map@ == map@,
    {
        GameModeController { map, game_mode }
    }

    /// The mode's name as the scoreboard shows it.
    pub fn get_game_mode_name(&self) -> (r: &str)
        ensures
            r@ == match self.game_mode {
                GameMode::SinglePlayer => "Single Player"@,
                GameMode::Coop => "Coop"@,
                GameMode::Deathmatch => "Deathmatch"@,
                GameMode::TeamDeathmatch => "Team Deathmatch"@,
            },
    {
        match self.game_mode {
            GameMode::SinglePlayer => "Single Player",
            GameMode::Coop => "Coop",
            GameMode::Deathmatch => "Deathmatch",
            GameMode::TeamDeathmatch => "Team Deathmatch",
        }
    }

    /// Whether `instigator` may hurt `victim`, entities given by their ids.
    pub fn can_damage(&self, instigator: &u64, victim: &u64, instigator_team: &Team, victim_team: &Team) -> (r: bool)
        ensures
            r == damage_allowed(self.game_mode, *instigator, *victim, *instigator_team, *victim_team),
    {
        if *instigator == *victim {
            return true;
        }
        match self.game_mode {
            GameMode::SinglePlayer => true,
            GameMode::Coop => *instigator_team != *victim_team,
            GameMode::Deathmatch => true,
            GameMode::TeamDeathmatch => *instigator_team != *victim_team,
        }
    }

    /// The team a joining player is put in.
    pub fn team_for_mode(&self) -> (r: Team)
        ensures
            r == team_for(self.game_mode),
    {
        match self.game_mode {
            GameMode::Deathmatch => Team::Deathmatch,
            GameMode::TeamDeathmatch => Team::AntiVirus,
            _ => Team::AntiVirus,
        }
    }

    /// Applies a hit of `amount` where the mode allows it; true when the
    /// hit killed the victim.
    pub fn apply_damage(
        &self,
        instigator: &u64,
        victim: &u64,
        instigator_team: &Team,
        victim_team: &Team,
        health: &mut Health,
        amount: i16,
    ) -> (r: bool)
        requires
            i16::MIN <= old(health).spec_current() - amount <= i16::MAX,
        ensures
            final(health).spec_max_health() == old(health).spec_max_health(),
            final(health).spec_current() == if damage_allowed(self.game_mode, *instigator, *victim,
                *instigator_team, *victim_team) {
                if old(health).spec_current() - amount >= 0 {
                    old(health).spec_current() - amount
                } else {
                    0
                }
            } else {
                old(health).spec_current() as int
            },
            r == (final(health).spec_current() <= 0 && old(health).spec_current() > 0),
    {
        let already_dead = health.dead();
        if self.can_damage(instigator, victim, instigator_team, victim_team) {
            health.decrement(amount);
        }
        health.dead() && !already_dead
    }

    /// Switches to `map` under `gamemode`; the app goes on to load it.
    pub fn load_map(&mut self, map: &str, gamemode: &GameMode) -> (r: AppState)
        ensures
            final(self).map@ == map@,
            final(self).game_mode == *gamemode,
            r == AppState::LoadingMap,
    {
        self.map = map.to_owned();
        self.game_mode = *gamemode;
        AppState::LoadingMap
    }

    /// The server's answer to a game-mode command, given the spawn points
    /// the map has.
    pub fn handle_command(&self, command: GameModeCommands, idpooler: &mut IdPooler, spawn_point_count: usize) -> (r: GameModeAction)
        ensures
            match command {
                GameModeCommands::Start => {
                    &&& final(idpooler)@ == old(idpooler)@
                    &&& r matches GameModeAction::Spawn(spawns) && (spawn_point_count == 0 ==> spawns@.len() == 0)
                        && (spawn_point_count > 0 ==> spawns@.len() == old(idpooler)@.players.len()
                        && forall|i: int| 0 <= i < spawns@.len() ==> {
                            let s = #[trigger] spawns@[i];
                            &&& s.team == team_for(self.game_mode)
                            &&& s.health == STARTING_HEALTH
                            &&& s.spawn_point < spawn_point_count
                            &&& id_taken(old(idpooler)@.players, s.id)
                            &&& s.id == old(idpooler)@.players[ids_in_order(old(idpooler)@.players.dom())[i]]
                        })
                },
                GameModeCommands::PlayerConnected(client) => match least_free_player_id(old(idpooler)@.players) {
                    Some(id) => {
                        &&& final(idpooler)@.players == old(idpooler)@.players.insert(client, id)
                        &&& r matches GameModeAction::Spawn(spawns) && (spawn_point_count == 0 ==> spawns@.len() == 0)
                            && (spawn_point_count > 0 ==> spawns@.len() == 1 && spawns@[0].id == id
                            && spawns@[0].team == team_for(self.game_mode) && spawns@[0].health == STARTING_HEALTH
                            && spawns@[0].spawn_point < spawn_point_count)
                    },
                    None => final(idpooler)@ == old(idpooler)@ && r is Nothing,
                },
                GameModeCommands::PlayerDisconnected(id) => final(idpooler)@ == old(idpooler)@ && (r
                    matches GameModeAction::DespawnPlayer(d) && d == id),
            },
    {
        let team = self.team_for_mode();
        match command {
            GameModeCommands::Start => {
                let ids = idpooler.get_all_player_ids();
                let mut spawns: Vec<PlayerSpawn> = Vec::new();
                let ghost players = idpooler@.players;
                proof {
                    let order = ids_in_order(players.dom());
                    assert forall|k: int| 0 <= k < ids@.len() implies id_taken(players, *#[trigger] ids@[k]) by {
                        assert(order.to_set().contains(order[k]));
                        assert(players.contains_key(order[k]) && players[order[k]] == *ids@[k]);
                    }
                }
                let mut i: usize = 0;
                while i < ids.len()
                    invariant
                        i <= ids@.len(),
                        ids@.len() == players.len(),
                        forall|k: int| 0 <= k < ids@.len() ==> id_taken(players, *#[trigger] ids@[k]),
                        forall|k: int| 0 <= k < ids@.len() ==> *#[trigger] ids@[k] == players[ids_in_order(players.dom())[k]],
                        spawn_point_count > 0 ==> forall|k: int| 0 <= k < spawns@.len() ==> #[trigger] spawns@[k].id == *ids@[k],
                        spawn_point_count == 0 ==> spawns@.len() == 0,
                        spawn_point_count > 0 ==> spawns@.len() == i,
                        forall|k: int| 0 <= k < spawns@.len() ==> {
                            let s = #[trigger] spawns@[k];
                            &&& s.team == team
                            &&& s.health == STARTING_HEALTH
                            &&& s.spawn_point < spawn_point_count
                            &&& id_taken(players, s.id)
                        },
                    decreases ids@.len() - i,
                {
                    match create_player(*ids[i], team, spawn_point_count) {
                        Some(s) => {
                            spawns.push(s);
                        },
                        None => {},
                    }
                    i = i + 1;
                }
                GameModeAction::Spawn(spawns)
            },
            GameModeCommands::PlayerConnected(client) => {
                match idpooler.assign_and_reserve_player_id(client) {
                    Ok(id) => {
                        let mut spawns: Vec<PlayerSpawn> = Vec::new();
                        match create_player(id, team, spawn_point_count) {
                            Some(s) => {
                                spawns.push(s);
                            },
                            None => {},
                        }
                        GameModeAction::Spawn(spawns)
                    },
                    Err(_) => GameModeAction::Nothing,
                }
            },
            GameModeCommands::PlayerDisconnected(id) => GameModeAction::DespawnPlayer(id),
        }
    }
}

impl Default for GameModeController {
    /// Single player on the first map.
    fn default() -> (r: GameModeController)
        ensures
            r.map@ == "m4"@,
            r.game_mode == GameMode::SinglePlayer,
    {
        GameModeController { map: String::from_str("m4"), game_mode: GameMode::SinglePlayer }
    }
}

/// What a hit leads to.
#[derive(Clone, Copy, PartialEq, Eq, Structural, Debug)]
pub struct DamageResult {
    /// Whether the hit killed the victim.
    pub killed: bool,
    /// The monster to despawn, where a monster was killed.
    pub despawn_monster: Option<u8>,
    /// Where a killed player goes down, the seconds its respawn timer is
    /// set to and restarted with; the player is then hidden and the game
    /// mode told of its death.
    pub respawn_in_secs: Option<u8>,
}

/// The server's handling of one hit of `amount` by `instigator` on
/// `victim`. Where both have a team and the mode allows it, the victim's
/// health drops; a victim this kills goes away if it is a monster (its id
/// given) and goes down if it is a player. Without authority nothing
/// happens.
pub fn damage_step(
    controller: &GameModeController,
    has_authority: bool,
    instigator: u64,
    victim: u64,
    instigator_team: Option<Team>,
    victim_team: Option<Team>,
    health: &mut Health,
    amount: i16,
    victim_monster_id: Option<u8>,
    victim_is_player: bool,
) -> (r: DamageResult)
    requires
        (has_authority && instigator_team is Some && victim_team is Some) ==> i16::MIN <= old(health).spec_current()
            - amount <= i16::MAX,
    ensures
        final(health).spec_max_health() == old(health).spec_max_health(),
        !has_authority ==> final(health).spec_current() == old(health).spec_current() && r == (DamageResult {
            killed: false,
            despawn_monster: None,
            respawn_in_secs: None,
        }),
        has_authority ==> {
            let hit = instigator_team is Some && victim_team is Some && damage_allowed(controller.game_mode,
                instigator, victim, instigator_team.unwrap(), victim_team.unwrap());
            &&& final(health).spec_current() == if hit {
                if old(health).spec_current() - amount >= 0 {
                    old(health).spec_current() - amount
                } else {
                    0
                }
            } else {
                old(health).spec_current() as int
            }
            &&& r.killed == (final(health).spec_current() <= 0 && old(health).spec_current() > 0)
            &&& r.despawn_monster == if r.killed { victim_monster_id } else { None }
            &&& r.respawn_in_secs == if r.killed && victim_monster_id is None && victim_is_player {
                Some(RESPAWN_TIME)
            } else {
                None
            }
        },
{
    let nothing = DamageResult { killed: false, despawn_monster: None, respawn_in_secs: None };
    if !has_authority {
        return nothing;
    }
    let killed = match (instigator_team, victim_team) {
        (Some(it), Some(vt)) => controller.apply_damage(&instigator, &victim, &it, &vt, health, amount),
        _ => false,
    };
    if !killed {
        return nothing;
    }
    match victim_monster_id {
        Some(id) => DamageResult { killed: true, despawn_monster: Some(id), respawn_in_secs: None },
        None => DamageResult {
            killed: true,
            despawn_monster: None,
            respawn_in_secs: if victim_is_player { Some(RESPAWN_TIME) } else { None },
        },
    }
}

/// What an entity of a freshly built map is, by its class name.
#[derive(Clone, Copy, PartialEq, Eq, Structural, Debug)]
pub enum MapEntityClass {
    PlayerSpawnPoint,
    MonsterSpawnPoint(MonsterKind),
    Light,
    DirectionalLight,
    NavigationNode,
    Mover,
    Key(PickupKind),
    Other,
}

/// The class a map entity's class name stands for.
pub open spec fn map_entity_class(name: Seq<char>) -> MapEntityClass {
    if name == "player_spawn_point"@ {
        MapEntityClass::PlayerSpawnPoint
    } else if name == "plasma_enemy_spawn_point"@ {
        MapEntityClass::MonsterSpawnPoint(MonsterKind::GruntPlasma)
    } else if name == "laser_enemy_spawn_point"@ {
        MapEntityClass::MonsterSpawnPoint(MonsterKind::GruntLasers)
    } else if name == "fusion_enemy_spawn_point"@ {
        MapEntityClass::MonsterSpawnPoint(MonsterKind::GruntFusion)
    } else if name == "light"@ {
        MapEntityClass::Light
    } else if name == "directional_light"@ {
        MapEntityClass::DirectionalLight
    } else if name == "navigation_node"@ {
        MapEntityClass::NavigationNode
    } else if name == "mover"@ {
        MapEntityClass::Mover
    } else if name == "key_red"@ {
        MapEntityClass::Key(PickupKind::RedKey)
    } else if name == "key_blue"@ {
        MapEntityClass::Key(PickupKind::BlueKey)
    } else if name == "key_yellow"@ {
        MapEntityClass::Key(PickupKind::YellowKey)
    } else if name == "key_orange"@ {
        MapEntityClass::Key(PickupKind::OrangeKey)
    } else {
        MapEntityClass::Other
    }
}

/// The class name of the spawn points of monsters of kind `kind`.
pub open spec fn monster_spawn_point_name(kind: MonsterKind) -> Seq<char> {
    match kind {
        MonsterKind::GruntLasers => "laser_enemy_spawn_point"@,
        MonsterKind::GruntPlasma => "plasma_enemy_spawn_point"@,
        MonsterKind::GruntFusion => "fusion_enemy_spawn_point"@,
    }
}

/// Each kind of monster has a spawn point class name of its own: that
/// name is a spawn point of exactly that kind, and a name that classifies
/// as a spawn point of a kind is that kind's name.
pub proof fn monster_spawn_points_name_their_kind(kind: MonsterKind, name: Seq<char>)
    ensures
        map_entity_class(monster_spawn_point_name(kind)) == MapEntityClass::MonsterSpawnPoint(kind),
        map_entity_class(name) == MapEntityClass::MonsterSpawnPoint(kind) ==> name == monster_spawn_point_name(kind),
{
    reveal_strlit("player_spawn_point");
    reveal_strlit("plasma_enemy_spawn_point");
    reveal_strlit("laser_enemy_spawn_point");
    reveal_strlit("fusion_enemy_spawn_point");
    assert("player_spawn_point"@.len() == 18);
    assert("plasma_enemy_spawn_point"@.len() == 24);
    assert("laser_enemy_spawn_point"@.len() == 23);
    assert("fusion_enemy_spawn_point"@.len() == 24);
    assert("plasma_enemy_spawn_point"@[0] != "fusion_enemy_spawn_point"@[0]);
}

/// The class name of the map entity that places a key of kind `kind`;
/// empty for a pickup that is not a key.
pub open spec fn key_class_name(kind: PickupKind) -> Seq<char> {
    match kind {
        PickupKind::RedKey => "key_red"@,
        PickupKind::BlueKey => "key_blue"@,
        PickupKind::YellowKey => "key_yellow"@,
        PickupKind::OrangeKey => "key_orange"@,
        _ => Seq::empty(),
    }
}

/// Each key has a class name of its own: that name places exactly that
/// key, and a name that places a key is that key's name.
pub proof fn key_names_name_their_key(kind: PickupKind, name: Seq<char>)
    ensures
        (kind == PickupKind::RedKey || kind == PickupKind::BlueKey || kind == PickupKind::YellowKey || kind
            == PickupKind::OrangeKey) ==> map_entity_class(key_class_name(kind)) == MapEntityClass::Key(kind),
        map_entity_class(name) == MapEntityClass::Key(kind) ==> name == key_class_name(kind),
{
    reveal_strlit("player_spawn_point");
    reveal_strlit("plasma_enemy_spawn_point");
    reveal_strlit("laser_enemy_spawn_point");
    reveal_strlit("fusion_enemy_spawn_point");
    reveal_strlit("light");
    reveal_strlit("directional_light");
    reveal_strlit("navigation_node");
    reveal_strlit("mover");
    reveal_strlit("key_red");
    reveal_strlit("key_blue");
    reveal_strlit("key_yellow");
    reveal_strlit("key_orange");
    assert("player_spawn_point"@.len() == 18);
    assert("plasma_enemy_spawn_point"@.len() == 24);
    assert("laser_enemy_spawn_point"@.len() == 23);
    assert("fusion_enemy_spawn_point"@.len() == 24);
    assert("light"@.len() == 5);
    assert("directional_light"@.len() == 17);
    assert("navigation_node"@.len() == 15);
    assert("mover"@.len() == 5);
    assert("key_red"@.len() == 7);
    assert("key_blue"@.len() == 8);
    assert("key_yellow"@.len() == 10);
    assert("key_orange"@.len() == 10);
    assert("key_yellow"@[4] != "key_orange"@[4]);
}

/// Who may hurt whom: anyone may hurt themselves; between two different
/// entities, single player and deathmatch allow every hit, while coop and
/// team deathmatch allow a hit exactly when the two are on different teams.
pub proof fn damage_rules(mode: GameMode, instigator: u64, victim: u64, instigator_team: Team, victim_team: Team)
    ensures
        instigator == victim ==> damage_allowed(mode, instigator, victim, instigator_team, victim_team),
        instigator != victim && (mode == GameMode::SinglePlayer || mode == GameMode::Deathmatch) ==> damage_allowed(
            mode,
            instigator,
            victim,
            instigator_team,
            victim_team,
        ),
        instigator != victim && (mode == GameMode::Coop || mode == GameMode::TeamDeathmatch) ==> (damage_allowed(
            mode,
            instigator,
            victim,
            instigator_team,
            victim_team,
        ) <==> instigator_team != victim_team),
{
}

/// The class of a map entity, from its class name.
pub fn classify_map_entity(classname: &str) -> (r: MapEntityClass)
    ensures
        r == map_entity_class(classname@),
{
    let name = classname.to_owned();
    if name == String::from_str("player_spawn_point") {
        MapEntityClass::PlayerSpawnPoint
    } else if name == String::from_str("plasma_enemy_spawn_point") {
        MapEntityClass::MonsterSpawnPoint(MonsterKind::GruntPlasma)
    } else if name == String::from_str("laser_enemy_spawn_point") {
        MapEntityClass::MonsterSpawnPoint(MonsterKind::GruntLasers)
    } else if name == String::from_str("fusion_enemy_spawn_point") {
        MapEntityClass::MonsterSpawnPoint(MonsterKind::GruntFusion)
    } else if name == String::from_str("light") {
        MapEntityClass::Light
    } else if name == String::from_str("directional_light") {
        MapEntityClass::DirectionalLight
    } else if name == String::from_str("navigation_node") {
        MapEntityClass::NavigationNode
    } else if name == String::from_str("mover") {
        MapEntityClass::Mover
    } else if name == String::from_str("key_red") {
        MapEntityClass::Key(PickupKind::RedKey)
    } else if name == String::from_str("key_blue") {
        MapEntityClass::Key(PickupKind::BlueKey)
    } else if name == String::from_str("key_yellow") {
        MapEntityClass::Key(PickupKind::YellowKey)
    } else if name == String::from_str("key_orange") {
        MapEntityClass::Key(PickupKind::OrangeKey)
    } else {
        MapEntityClass::Other
    }
}

/// What the game does with an entity of a freshly built map.
#[derive(Clone, Copy, PartialEq, Eq, Structural, Debug)]
pub enum MapEntityAction {
    /// Keep a spawn point for players.
    PlayerSpawnPoint,
    /// Spawn a monster with this id, seeded with `seed`.
    SpawnMonster { id: u8, seed: u8, kind: MonsterKind },
    /// Light the entity as a point light.
    Light,
    /// Light the entity as a directional light.
    DirectionalLight,
    /// Keep the entity as a node monsters navigate by.
    NavigationNode,
    /// Make the entity a mover, a door where its properties say so.
    Mover,
    /// Spawn a key pickup with this id, carrying `amount`.
    SpawnPickup { id: u8, amount: i16, kind: PickupKind },
    /// Leave the entity alone.
    Nothing,
}

/// What the game does with an entity of class `classname` once the map is
/// built: lights and movers everywhere; spawn points, navigation nodes,
/// monsters and keys only where this process runs the game, monsters and
/// keys taking the next free id; a monster is seeded with its id and a key
/// carries no amount.
pub fn post_build_map_entity(classname: &str, has_authority: bool, idpooler: &mut IdPooler) -> (r: MapEntityAction)
    ensures
        match map_entity_class(classname@) {
            MapEntityClass::MonsterSpawnPoint(kind) if has_authority => match least_free_in_pool(old(idpooler)@.monster_ids) {
                Some(id) => r == (MapEntityAction::SpawnMonster { id, seed: id, kind }) && final(idpooler)@.monster_ids
                    == old(idpooler)@.monster_ids.push(id),
                None => r == MapEntityAction::Nothing && final(idpooler)@ == old(idpooler)@,
            },
            MapEntityClass::Key(kind) if has_authority => match least_free_in_pool(old(idpooler)@.pickup_ids) {
                Some(id) => r == (MapEntityAction::SpawnPickup { id, amount: 0, kind }) && final(idpooler)@.pickup_ids
                    == old(idpooler)@.pickup_ids.push(id),
                None => r == MapEntityAction::Nothing && final(idpooler)@ == old(idpooler)@,
            },
            class => final(idpooler)@ == old(idpooler)@ && r == match class {
                MapEntityClass::PlayerSpawnPoint if has_authority => MapEntityAction::PlayerSpawnPoint,
                MapEntityClass::NavigationNode if has_authority => MapEntityAction::NavigationNode,
                MapEntityClass::Light => MapEntityAction::Light,
                MapEntityClass::DirectionalLight => MapEntityAction::DirectionalLight,
                MapEntityClass::Mover => MapEntityAction::Mover,
                _ => MapEntityAction::Nothing,
            },
        },
        final(idpooler)@.players == old(idpooler)@.players,
        final(idpooler)@.next_projectile_id == old(idpooler)@.next_projectile_id,
        map_entity_class(classname@) !is MonsterSpawnPoint ==> final(idpooler)@.monster_ids
            == old(idpooler)@.monster_ids,
        map_entity_class(classname@) !is Key ==> final(idpooler)@.pickup_ids == old(idpooler)@.pickup_ids,
{
    match classify_map_entity(classname) {
        MapEntityClass::PlayerSpawnPoint => if has_authority {
            MapEntityAction::PlayerSpawnPoint
        } else {
            MapEntityAction::Nothing
        },
        MapEntityClass::MonsterSpawnPoint(kind) => {
            if has_authority {
                match idpooler.assign_and_reserve_monster_id() {
                    Ok(id) => MapEntityAction::SpawnMonster { id, seed: id, kind },
                    Err(_) => MapEntityAction::Nothing,
                }
            } else {
                MapEntityAction::Nothing
            }
        },
        MapEntityClass::Light => MapEntityAction::Light,
        MapEntityClass::DirectionalLight => MapEntityAction::DirectionalLight,
        MapEntityClass::NavigationNode => if has_authority {
            MapEntityAction::NavigationNode
        } else {
            MapEntityAction::Nothing
        },
        MapEntityClass::Mover => MapEntityAction::Mover,
        MapEntityClass::Key(kind) => {
            if has_authority {
                match idpooler.assign_and_reserve_pickup_id() {
                    Ok(id) => MapEntityAction::SpawnPickup { id, amount: 0, kind },
                    Err(_) => MapEntityAction::Nothing,
                }
            } else {
                MapEntityAction::Nothing
            }
        },
        MapEntityClass::Other => MapEntityAction::Nothing,
    }
}

/// Where the game goes once the map is built: into play, with the server
/// starting the game mode.
pub fn post_build_map_finish(has_authority: bool) -> (r: (AppState, Option<GameModeCommands>))
    ensures
        r.0 == AppState::Playing(PlayingSubState::Playing),
        r.1 == if has_authority { Some(GameModeCommands::Start) } else { None },
{
    (AppState::Playing(PlayingSubState::Playing), if has_authority {
        Some(GameModeCommands::Start)
    } else {
        None
    })
}

/// The respawn countdown the server sends when a player dies: to the
/// client holding the player's id, with the respawn time; none for a player
/// no client holds.
pub fn respawn_notice(idpooler: &IdPooler, player_id: u8) -> (r: Option<(u64, u8)>)
    ensures
        match r {
            Some((client, secs)) => secs == RESPAWN_TIME && idpooler@.players.contains_key(client)
                && idpooler@.players[client] == player_id,
            None => !id_taken(idpooler@.players, player_id),
        },
{
    match idpooler.get_client_id_from_player_id(player_id) {
        Some(client) => Some((*client, RESPAWN_TIME)),
        None => None,
    }
}

/// A dead player whose respawn timer ran out comes back with full health
/// at a random spawn point, if the map has any.
pub fn respawn(health: &mut Health, respawn_timer_finished: bool, spawn_point_count: usize) -> (r: Option<usize>)
    ensures
        r matches Some(i) ==> i < spawn_point_count,
        (old(health).spec_current() <= 0 && respawn_timer_finished && spawn_point_count > 0) <==> r is Some,
        final(health).spec_current() == if r is Some { STARTING_HEALTH } else { old(health).spec_current() },
        final(health).spec_max_health() == old(health).spec_max_health(),
{
    if health.dead() && respawn_timer_finished {
        match find_random_spawn_point(spawn_point_count) {
            Some(i) => {
                health.set_current(STARTING_HEALTH);
                Some(i)
            },
            None => None,
        }
    } else {
        None
    }
}

} // verus!
