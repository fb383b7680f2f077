//! Weapons: which weapon a player holds, when it may fire, and the state
//! of a burst in progress.
use crate::ids::IdPooler;
use vstd::prelude::*;

verus! {

/// The key of the shotgun, whose shots the server announces separately.
pub const WEAPON_KEY_SHOTGUN: u8 = 3;

/// How a burst weapon fires: shots per burst and the pause between them.
#[derive(Clone, Copy, PartialEq, Eq, Structural, Debug)]
pub struct BurstConfig {
    pub shots_per_burst: u8,
    pub burst_rate_millis: u16,
}

/// The integer part of a weapon's configuration: when it fires, and how
/// many barrels a shot leaves from and projectiles each barrel spawns.
#[derive(Clone, Copy, PartialEq, Eq, Structural, Debug)]
pub struct WeaponTiming {
    pub key: u8,
    pub fire_rate_millis: u16,
    pub burst_config: Option<BurstConfig>,
    pub barrel_count: usize,
    pub projectiles_per_barrel: u8,
}

/// The fire sounds of a shot from `barrel_count` barrels.
pub open spec fn shot_sounds(barrel_count: nat, fire_weapon: FireWeapon) -> Seq<ShotSound> {
    Seq::new(barrel_count, |b: int| ShotSound { barrel: b as usize, first_person: fire_weapon.predicted })
}

/// The projectiles of a shot of the weapon `key` from `barrel_count`
/// barrels, `projectiles_per_barrel` each, their ids counted on from
/// `start`.
pub open spec fn shot_projectiles(
    key: u8,
    barrel_count: nat,
    projectiles_per_barrel: u8,
    fire_weapon: FireWeapon,
    start: u16,
) -> Seq<ShotProjectile> {
    Seq::new(
        barrel_count * (projectiles_per_barrel as nat),
        |i: int|
            ShotProjectile {
                id: ((start + i) % 65536) as u16,
                weapon_key: key,
                barrel: (i / projectiles_per_barrel as int) as usize,
                owner_id: fire_weapon.owner_id,
                input_id: fire_weapon.input_id,
                nudge_delta_millis: fire_weapon.proj_nudge_time_millis,
                predicted: fire_weapon.predicted,
            },
    )
}

/// Who fires a weapon, and how its projectiles are marked; where the shot
/// starts from and how it spreads are the game engine's.
#[derive(Clone, Copy, PartialEq, Eq, Structural, Debug)]
pub struct FireWeapon {
    pub proj_nudge_time_millis: u8,
    pub owner_id: u8,
    pub input_id: Option<u64>,
    pub predicted: bool,
    pub seed: u64,
}

/// The fire sound a shot plays at one barrel.
#[derive(Clone, Copy, PartialEq, Eq, Structural, Debug)]
pub struct ShotSound {
    pub barrel: usize,
    pub first_person: bool,
}

/// A projectile a shot spawns from one barrel.
#[derive(Clone, Copy, PartialEq, Eq, Structural, Debug)]
pub struct ShotProjectile {
    pub id: u16,
    pub weapon_key: u8,
    pub barrel: usize,
    pub owner_id: u8,
    pub input_id: Option<u64>,
    pub nudge_delta_millis: u8,
    pub predicted: bool,
}

/// A weapon a player carries.
#[derive(Clone, Copy, PartialEq, Eq, Structural, Debug)]
pub struct Weapon {
    pub key: u8,
    pub ammo: Option<u16>,
}

impl Weapon {
    pub fn new(key: u8, ammo: Option<u16>) -> (r: Weapon)
        ensures
            r == (Weapon { key, ammo }),
    {
        Weapon { key, ammo }
    }

    /// The ids of the projectiles one shot spawns: for each barrel, one per
    /// projectile, drawn from the pool's projectile counter in order.
    pub fn projectile_ids(&self, barrel_count: usize, projectiles_per_barrel: u8, idpooler: &mut IdPooler) -> (r: Vec<u16>)
        requires
            barrel_count * projectiles_per_barrel <= usize::MAX,
        ensures
            r@.len() == barrel_count * projectiles_per_barrel,
            forall|i: int| 0 <= i < r@.len() ==> #[trigger] r@[i] == (old(idpooler)@.next_projectile_id + i) % 65536,
            final(idpooler)@.next_projectile_id == (old(idpooler)@.next_projectile_id + r@.len()) % 65536,
            final(idpooler)@.pickup_ids == old(idpooler)@.pickup_ids,
            final(idpooler)@.monster_ids == old(idpooler)@.monster_ids,
            final(idpooler)@.players == old(idpooler)@.players,
    {
        let ghost start = idpooler@.next_projectile_id;
        let mut ids: Vec<u16> = Vec::new();
        let mut b: usize = 0;
        while b < barrel_count
            invariant
                b <= barrel_count,
                barrel_count * projectiles_per_barrel <= usize::MAX,
                ids@.len() == b * projectiles_per_barrel,
                forall|i: int| 0 <= i < ids@.len() ==> #[trigger] ids@[i] == (start + i) % 65536,
                idpooler@.next_projectile_id == (start + ids@.len()) % 65536,
                idpooler@.pickup_ids == old(idpooler)@.pickup_ids,
                idpooler@.monster_ids == old(idpooler)@.monster_ids,
                idpooler@.players == old(idpooler)@.players,
            decreases barrel_count - b,
        {
            proof {
                assert((b + 1) * projectiles_per_barrel == b * projectiles_per_barrel + projectiles_per_barrel)
                    by (nonlinear_arith);
                assert((b + 1) * projectiles_per_barrel <= barrel_count * projectiles_per_barrel)
                    by (nonlinear_arith)
                    requires
                        b + 1 <= barrel_count,
                ;
            }
            let mut p: u8 = 0;
            while p < projectiles_per_barrel
                invariant
                    p <= projectiles_per_barrel,
                    (b + 1) * projectiles_per_barrel <= usize::MAX,
                    (b + 1) * projectiles_per_barrel == b * projectiles_per_barrel + projectiles_per_barrel,
                    ids@.len() == b * projectiles_per_barrel + p,
                    forall|i: int| 0 <= i < ids@.len() ==> #[trigger] ids@[i] == (start + i) % 65536,
                    idpooler@.next_projectile_id == (start + ids@.len()) % 65536,
                    idpooler@.pickup_ids == old(idpooler)@.pickup_ids,
                    idpooler@.monster_ids == old(idpooler)@.monster_ids,
                    idpooler@.players == old(idpooler)@.players,
                decreases projectiles_per_barrel - p,
            {
                let id = idpooler.next_projectile_id();
                proof {
                    let n = ids@.len();
                    assert((if id == u16::MAX { 0 } else { (id + 1) as u16 }) == (start + n + 1) % 65536);
                }
                ids.push(id);
                p = p + 1;
            }
            b = b + 1;
        }
        ids
    }

    /// One shot: a fire sound at each barrel, and from each barrel
    /// `projectiles_per_barrel` projectiles, with ids drawn in order from
    /// the pool's projectile counter and marked as `fire_weapon` says.
    pub fn fire(
        &self,
        fire_weapon: &FireWeapon,
        barrel_count: usize,
        projectiles_per_barrel: u8,
        idpooler: &mut IdPooler,
    ) -> (r: (Vec<ShotSound>, Vec<ShotProjectile>))
        requires
            barrel_count * projectiles_per_barrel <= usize::MAX,
        ensures
            r.0@ == shot_sounds(barrel_count as nat, *fire_weapon),
            r.1@ == shot_projectiles(
                self.key,
                barrel_count as nat,
                projectiles_per_barrel,
                *fire_weapon,
                old(idpooler)@.next_projectile_id,
            ),
            final(idpooler)@.next_projectile_id == (old(idpooler)@.next_projectile_id + r.1@.len()) % 65536,
            final(idpooler)@.pickup_ids == old(idpooler)@.pickup_ids,
            final(idpooler)@.monster_ids == old(idpooler)@.monster_ids,
            final(idpooler)@.players == old(idpooler)@.players,
    {
        let mut sounds: Vec<ShotSound> = Vec::new();
        let mut b: usize = 0;
        while b < barrel_count
            invariant
                b <= barrel_count,
                sounds@.len() == b,
                forall|j: int| 0 <= j < b ==> #[trigger] sounds@[j] == (ShotSound {
                    barrel: j as usize,
                    first_person: fire_weapon.predicted,
                }),
            decreases barrel_count - b,
        {
            sounds.push(ShotSound { barrel: b, first_person: fire_weapon.predicted });
            b = b + 1;
        }
        let ids = self.projectile_ids(barrel_count, projectiles_per_barrel, idpooler);
        let mut projectiles: Vec<ShotProjectile> = Vec::new();
        let mut i: usize = 0;
        while i < ids.len()
            invariant
                i <= ids@.len(),
                ids@.len() == barrel_count * projectiles_per_barrel,
                projectiles@.len() == i,
                forall|j: int| 0 <= j < i ==> #[trigger] projectiles@[j] == (ShotProjectile {
                    id: ids@[j],
                    weapon_key: self.key,
                    barrel: (j / projectiles_per_barrel as int) as usize,
                    owner_id: fire_weapon.owner_id,
                    input_id: fire_weapon.input_id,
                    nudge_delta_millis: fire_weapon.proj_nudge_time_millis,
                    predicted: fire_weapon.predicted,
                }),
            decreases ids@.len() - i,
        {
            proof {
                if projectiles_per_barrel == 0 {
                    assert(barrel_count * projectiles_per_barrel == 0) by (nonlinear_arith)
                        requires
                            projectiles_per_barrel == 0,
                    ;
                }
            }
            let barrel = i / (projectiles_per_barrel as usize);
            projectiles.push(ShotProjectile {
                id: ids[i],
                weapon_key: self.key,
                barrel,
                owner_id: fire_weapon.owner_id,
                input_id: fire_weapon.input_id,
                nudge_delta_millis: fire_weapon.proj_nudge_time_millis,
                predicted: fire_weapon.predicted,
            });
            i = i + 1;
        }
        assert(sounds@ =~= shot_sounds(barrel_count as nat, *fire_weapon));
        assert(projectiles@ =~= shot_projectiles(
            self.key,
            barrel_count as nat,
            projectiles_per_barrel,
            *fire_weapon,
            old(idpooler)@.next_projectile_id,
        ));
        (sounds, projectiles)
    }

    /// Whether the weapon can fire: unlimited ammo, or some left.
    pub fn has_ammo(&self) -> (r: bool)
        ensures
            r == match self.ammo {
                Some(a) => a > 0,
                None => true,
            },
    {
        match self.ammo {
            Some(ammo) => ammo > 0,
            None => true,
        }
    }
}

/// What a weapon container starts with.
pub struct WeaponContainerConfig {
    pub owner_id: u8,
    pub weapons: Vec<Weapon>,
}

/// The weapons of a player or monster and the one in hand; the fire timer
/// runs in the game engine, which is told its duration here.
pub struct WeaponContainer {
    pub owner_id: u8,
    pub weapons: Vec<Weapon>,
    pub current_weapon_key: u8,
    pub num_left_in_burst: u8,
    /// The fire timer's duration in milliseconds.
    pub fire_timer_millis: u16,
}

/// What a tick asks of the fire timer and the world.
#[derive(Clone, Copy, PartialEq, Eq, Structural, Debug)]
pub struct TickOutcome {
    /// The key of the weapon fired, if one fired.
    pub fired: Option<u8>,
    /// Where the timer restarts: its new duration in milliseconds.
    pub restart_timer_millis: Option<u16>,
}

/// Whether `weapons` holds a weapon with the key `key`.
pub open spec fn has_weapon(weapons: Seq<Weapon>, key: u8) -> bool {
    exists|i: int| 0 <= i < weapons.len() && #[trigger] weapons[i].key == key
}

/// The first configuration for `key`.
pub open spec fn config_for(configs: Seq<WeaponTiming>, key: u8) -> Option<WeaponTiming>
    decreases configs.len(),
{
    if configs.len() == 0 {
        None
    } else if configs[0].key == key {
        Some(configs[0])
    } else {
        config_for(configs.drop_first(), key)
    }
}

/// Shots in a full burst of a weapon, 0 for a weapon that does not burst.
pub open spec fn burst_shots(c: WeaponTiming) -> u8 {
    match c.burst_config {
        Some(b) => b.shots_per_burst,
        None => 0,
    }
}

/// Whether a burst of the weapon configured by `c` is under way.
pub open spec fn in_burst(c: WeaponTiming, num_left_in_burst: u8) -> bool {
    match c.burst_config {
        Some(b) => num_left_in_burst > 0 && num_left_in_burst < b.shots_per_burst,
        None => false,
    }
}

/// Every burst configuration fires at least one shot.
pub open spec fn bursts_fire(configs: Seq<WeaponTiming>) -> bool {
    forall|i: int| 0 <= i < configs.len() ==> match #[trigger] configs[i].burst_config {
        Some(b) => b.shots_per_burst >= 1,
        None => true,
    }
}

/// The state after a tick, `(current weapon key, shots left in burst)`, and
/// what it asks for.
pub open spec fn tick_spec(
    weapons: Seq<Weapon>,
    current: u8,
    left: u8,
    try_fire: bool,
    wish: Option<u8>,
    timer_finished: bool,
    configs: Seq<WeaponTiming>,
) -> (u8, u8, TickOutcome) {
    let idle = TickOutcome { fired: None, restart_timer_millis: None };
    match config_for(configs, current) {
        Some(cur) if has_weapon(weapons, current) => {
            let bursting = in_burst(cur, left);
            // at a finished timer: switch to the wished weapon, or start a burst
            let (key, left1, cfg) = if !timer_finished {
                (current, left, cur)
            } else {
                match wish {
                    Some(w) if w != current && has_weapon(weapons, w) => match config_for(configs, w) {
                        Some(wc) => (w, burst_shots(wc), wc),
                        None => (current, left, cur),
                    },
                    _ => if bursting {
                        (current, left, cur)
                    } else {
                        (current, burst_shots(cur), cur)
                    },
                }
            };
            if (try_fire || bursting) && timer_finished {
                match cfg.burst_config {
                    Some(b) => if bursting {
                        let left2 = (left1 - 1) as u8;
                        let wait = if left2 > 0 { b.burst_rate_millis } else { cfg.fire_rate_millis };
                        (key, left2, TickOutcome { fired: Some(key), restart_timer_millis: Some(wait) })
                    } else {
                        (key, (b.shots_per_burst - 1) as u8, TickOutcome {
                            fired: Some(key),
                            restart_timer_millis: Some(b.burst_rate_millis),
                        })
                    },
                    None => (key, left1, TickOutcome {
                        fired: Some(key),
                        restart_timer_millis: Some(cfg.fire_rate_millis),
                    }),
                }
            } else {
                (key, left1, idle)
            }
        },
        _ => (current, left, idle),
    }
}

/// The first configuration for `key` among `configs`.
pub fn find_config(configs: &Vec<WeaponTiming>, key: u8) -> (r: Option<WeaponTiming>)
    ensures
        r == config_for(configs@, key),
        r matches Some(c) ==> c.key == key && exists|i: int| 0 <= i < configs@.len() && configs@[i] == c,
{
    let mut i: usize = 0;
    assert(configs@.skip(0) =~= configs@);
    while i < configs.len()
        invariant
            i <= configs@.len(),
            config_for(configs@, key) == config_for(configs@.skip(i as int), key),
        decreases configs@.len() - i,
    {
        proof {
            assert(configs@.skip(i as int).drop_first() =~= configs@.skip(i + 1));
        }
        if configs[i].key == key {
            assert(configs@.skip(i as int)[0] == configs@[i as int]);
            return Some(configs[i]);
        }
        i = i + 1;
    }
    None
}

/// Whether some weapon of `weapons` has the key `key`.
fn holds_weapon(weapons: &Vec<Weapon>, key: u8) -> (r: bool)
    ensures
        r == has_weapon(weapons@, key),
{
    let mut i: usize = 0;
    while i < weapons.len()
        invariant
            i <= weapons@.len(),
            forall|j: int| 0 <= j < i ==> #[trigger] weapons@[j].key != key,
        decreases weapons@.len() - i,
    {
        if weapons[i].key == key {
            assert(weapons@[i as int].key == key);
            return true;
        }
        i = i + 1;
    }
    false
}

impl WeaponContainer {
    /// A container holding its first weapon.
    pub fn new(config: WeaponContainerConfig) -> (r: WeaponContainer)
        requires
            config.weapons@.len() > 0,
        ensures
            r.owner_id == config.owner_id,
            r.weapons@ == config.weapons@,
            r.current_weapon_key == config.weapons@[0].key,
            r.num_left_in_burst == 0,
            r.fire_timer_millis == 0,
    {
        let current_weapon_key = config.weapons[0].key;
        WeaponContainer {
            owner_id: config.owner_id,
            weapons: config.weapons,
            current_weapon_key,
            num_left_in_burst: 0,
            fire_timer_millis: 0,
        }
    }

    /// One frame of the weapon in hand, given whether the fire timer has
    /// run out: switches to the wished weapon or starts a burst when the
    /// timer allows, and fires when the trigger is held or a burst is under
    /// way.
    pub fn tick(
        &mut self,
        try_fire: bool,
        wish_weapon_key: Option<u8>,
        timer_finished: bool,
        configs: &Vec<WeaponTiming>,
    ) -> (r: TickOutcome)
        requires
            bursts_fire(configs@),
        ensures
            ({
                let (key, left, outcome) = tick_spec(old(self).weapons@, old(self).current_weapon_key,
                    old(self).num_left_in_burst, try_fire, wish_weapon_key, timer_finished, configs@);
                &&& final(self).current_weapon_key == key
                &&& final(self).num_left_in_burst == left
                &&& r == outcome
            }),
            final(self).owner_id == old(self).owner_id,
            final(self).weapons@ == old(self).weapons@,
            final(self).fire_timer_millis == match r.restart_timer_millis {
                Some(d) => d,
                None => old(self).fire_timer_millis,
            },
    {
        let idle = TickOutcome { fired: None, restart_timer_millis: None };
        let current = self.current_weapon_key;
        if !holds_weapon(&self.weapons, current) {
            return idle;
        }
        let cur = match find_config(configs, current) {
            Some(c) => c,
            None => {
                return idle;
            },
        };
        let bursting = match cur.burst_config {
            Some(b) => self.num_left_in_burst > 0 && self.num_left_in_burst < b.shots_per_burst,
            None => false,
        };
        let mut cfg = cur;
        if timer_finished {
            let mut switched = false;
            match wish_weapon_key {
                Some(w) => {
                    if w != current && holds_weapon(&self.weapons, w) {
                        switched = true;
                        match find_config(configs, w) {
                            Some(wc) => {
                                self.current_weapon_key = w;
                                self.num_left_in_burst = match wc.burst_config {
                                    Some(b) => b.shots_per_burst,
                                    None => 0,
                                };
                                cfg = wc;
                            },
                            None => {},
                        }
                    }
                },
                None => {},
            }
            if !switched && !bursting {
                self.num_left_in_burst = match cur.burst_config {
                    Some(b) => b.shots_per_burst,
                    None => 0,
                };
            }
        }
        if (try_fire || bursting) && timer_finished {
            proof {
                let i = choose|i: int| 0 <= i < configs@.len() && configs@[i] == cfg;
                assert(match configs@[i].burst_config {
                    Some(b) => b.shots_per_burst >= 1,
                    None => true,
                });
            }
            let wait = match cfg.burst_config {
                Some(b) => {
                    if bursting {
                        self.num_left_in_burst = self.num_left_in_burst - 1;
                        if self.num_left_in_burst > 0 {
                            b.burst_rate_millis
                        } else {
                            cfg.fire_rate_millis
                        }
                    } else {
                        self.num_left_in_burst = b.shots_per_burst - 1;
                        b.burst_rate_millis
                    }
                },
                None => cfg.fire_rate_millis,
            };
            self.fire_timer_millis = wait;
            return TickOutcome { fired: Some(self.current_weapon_key), restart_timer_millis: Some(wait) };
        }
        idle
    }

    /// The weapon the server fires for a player's reported shot: the first
    /// weapon with the reported key, where that weapon is configured.
    pub fn server_process_player_fired_event(
        &self,
        fired_weapon_key: Option<u8>,
        configs: &Vec<WeaponTiming>,
    ) -> (r: Option<u8>)
        ensures
            r == match fired_weapon_key {
                Some(k) => if has_weapon(self.weapons@, k) && config_for(configs@, k) is Some {
                    Some(k)
                } else {
                    None
                },
                None => None,
            },
    {
        match fired_weapon_key {
            Some(k) => {
                if holds_weapon(&self.weapons, k) {
                    match find_config(configs, k) {
                        Some(_) => Some(k),
                        None => None,
                    }
                } else {
                    None
                }
            },
            None => None,
        }
    }
}

/// The entity of the first pair of `owners` carrying `id`.
pub open spec fn entity_with_id(owners: Seq<(u64, u8)>, id: u8) -> Option<u64>
    decreases owners.len(),
{
    if owners.len() == 0 {
        None
    } else if owners[0].1 == id {
        Some(owners[0].0)
    } else {
        entity_with_id(owners.drop_first(), id)
    }
}

/// The entity of the first of `owners`, pairs of entity and id, with the
/// id `id`.
fn find_owner(owners: &Vec<(u64, u8)>, id: u8) -> (r: Option<u64>)
    ensures
        r == entity_with_id(owners@, id),
{
    let mut i: usize = 0;
    assert(owners@.skip(0) =~= owners@);
    while i < owners.len()
        invariant
            i <= owners@.len(),
            entity_with_id(owners@, id) == entity_with_id(owners@.skip(i as int), id),
        decreases owners@.len() - i,
    {
        proof {
            assert(owners@.skip(i as int).drop_first() =~= owners@.skip(i + 1));
        }
        let (entity, owner) = owners[i];
        if owner == id {
            assert(owners@.skip(i as int)[0] == owners@[i as int]);
            return Some(entity);
        }
        i = i + 1;
    }
    None
}

/// The entity that fired a projectile: a player's where the shot came from
/// an input, a monster's otherwise; `players` and `bots` pair entities with
/// their ids.
pub fn get_owner_entity(input_id: Option<u64>, owner_id: u8, players: &Vec<(u64, u8)>, bots: &Vec<(u64, u8)>) -> (r: Option<u64>)
    ensures
        r == if input_id is Some {
            entity_with_id(players@, owner_id)
        } else {
            entity_with_id(bots@, owner_id)
        },
{
    if input_id.is_some() {
        find_owner(players, owner_id)
    } else {
        find_owner(bots, owner_id)
    }
}

/// The position of the first of this frame's fired events that came from
/// `player_id`.
pub fn find_fired_event(event_player_ids: &Vec<u8>, player_id: u8) -> (r: Option<usize>)
    ensures
        match r {
            Some(i) => i < event_player_ids@.len() && event_player_ids@[i as int] == player_id && forall|j: int|
                0 <= j < i ==> event_player_ids@[j] != player_id,
            None => !event_player_ids@.contains(player_id),
        },
{
    let mut i: usize = 0;
    while i < event_player_ids.len()
        invariant
            i <= event_player_ids@.len(),
            forall|j: int| 0 <= j < i ==> event_player_ids@[j] != player_id,
        decreases event_player_ids@.len() - i,
    {
        if event_player_ids[i] == player_id {
            return Some(i);
        }
        i = i + 1;
    }
    None
}

/// What a container's tick is given: the trigger, the weapon wished, and
/// how the projectiles of a shot are marked.
#[derive(Clone, Copy, PartialEq, Eq, Structural, Debug)]
pub struct WeaponContainerTickConfig {
    pub try_fire: bool,
    pub wish_weapon_key: Option<u8>,
    pub input_id: Option<u64>,
    pub projectile_nudge_time_millis: Option<u8>,
    pub predict: bool,
    pub seed: u64,
}

/// The projectiles of a shot of any configured weapon can be counted.
pub open spec fn shots_fit(configs: Seq<WeaponTiming>) -> bool {
    forall|i: int|
        0 <= i < configs.len() ==> #[trigger] configs[i].barrel_count * configs[i].projectiles_per_barrel
            <= usize::MAX
}

/// How the weapon of the container of `owner_id` is fired under `config`.
pub open spec fn fire_weapon_for(owner_id: u8, config: WeaponContainerTickConfig) -> FireWeapon {
    FireWeapon {
        proj_nudge_time_millis: match config.projectile_nudge_time_millis {
            Some(n) => n,
            None => 0,
        },
        owner_id,
        input_id: config.input_id,
        predicted: config.predict,
        seed: config.seed,
    }
}

/// The weapon of `weapons` with the key `key`.
fn find_weapon(weapons: &Vec<Weapon>, key: u8) -> (r: Option<Weapon>)
    ensures
        r is Some <==> has_weapon(weapons@, key),
        r matches Some(w) ==> w.key == key,
{
    let mut i: usize = 0;
    while i < weapons.len()
        invariant
            i <= weapons@.len(),
            forall|j: int| 0 <= j < i ==> #[trigger] weapons@[j].key != key,
        decreases weapons@.len() - i,
    {
        if weapons[i].key == key {
            assert(weapons@[i as int].key == key);
            return Some(weapons[i]);
        }
        i = i + 1;
    }
    None
}

impl WeaponContainer {
    /// Fires the weapon with the key `key` as the container does: under its
    /// owner, with the barrel and projectile counts of the weapon's
    /// configuration. Nothing happens where no key is given, or the weapon
    /// or its configuration is missing.
    pub fn fire_weapon_key(
        &self,
        key: Option<u8>,
        config: &WeaponContainerTickConfig,
        configs: &Vec<WeaponTiming>,
        idpooler: &mut IdPooler,
    ) -> (r: (Vec<ShotSound>, Vec<ShotProjectile>))
        requires
            shots_fit(configs@),
        ensures
            match key {
                Some(k) if has_weapon(self.weapons@, k) && config_for(configs@, k) is Some => {
                    let c = config_for(configs@, k).unwrap();
                    let fw = fire_weapon_for(self.owner_id, *config);
                    &&& r.0@ == shot_sounds(c.barrel_count as nat, fw)
                    &&& r.1@ == shot_projectiles(
                        k,
                        c.barrel_count as nat,
                        c.projectiles_per_barrel,
                        fw,
                        old(idpooler)@.next_projectile_id,
                    )
                    &&& final(idpooler)@.next_projectile_id == (old(idpooler)@.next_projectile_id + r.1@.len())
                        % 65536
                },
                _ => r.0@.len() == 0 && r.1@.len() == 0 && final(idpooler)@ == old(idpooler)@,
            },
            final(idpooler)@.pickup_ids == old(idpooler)@.pickup_ids,
            final(idpooler)@.monster_ids == old(idpooler)@.monster_ids,
            final(idpooler)@.players == old(idpooler)@.players,
    {
        let none = (Vec::new(), Vec::new());
        match key {
            None => none,
            Some(k) => match find_weapon(&self.weapons, k) {
                None => none,
                Some(weapon) => match find_config(configs, k) {
                    None => none,
                    Some(c) => {
                        let fw = FireWeapon {
                            proj_nudge_time_millis: match config.projectile_nudge_time_millis {
                                Some(n) => n,
                                None => 0,
                            },
                            owner_id: self.owner_id,
                            input_id: config.input_id,
                            predicted: config.predict,
                            seed: config.seed,
                        };
                        weapon.fire(&fw, c.barrel_count, c.projectiles_per_barrel, idpooler)
                    },
                },
            },
        }
    }

    /// One frame of the weapon in hand, as `tick`, and the sounds and
    /// projectiles of the shot it fires, if it fires: the fired weapon's
    /// barrels and projectiles, under the container's owner.
    pub fn tick_and_fire(
        &mut self,
        config: &WeaponContainerTickConfig,
        timer_finished: bool,
        configs: &Vec<WeaponTiming>,
        idpooler: &mut IdPooler,
    ) -> (r: (TickOutcome, Vec<ShotSound>, Vec<ShotProjectile>))
        requires
            bursts_fire(configs@),
            shots_fit(configs@),
        ensures
            ({
                let (key, left, outcome) = tick_spec(old(self).weapons@, old(self).current_weapon_key,
                    old(self).num_left_in_burst, config.try_fire, config.wish_weapon_key, timer_finished, configs@);
                &&& final(self).current_weapon_key == key
                &&& final(self).num_left_in_burst == left
                &&& r.0 == outcome
            }),
            final(self).owner_id == old(self).owner_id,
            final(self).weapons@ == old(self).weapons@,
            final(self).fire_timer_millis == match r.0.restart_timer_millis {
                Some(d) => d,
                None => old(self).fire_timer_millis,
            },
            match r.0.fired {
                Some(k) => {
                    let c = config_for(configs@, k).unwrap();
                    let fw = fire_weapon_for(old(self).owner_id, *config);
                    &&& config_for(configs@, k) is Some
                    &&& r.1@ == shot_sounds(c.barrel_count as nat, fw)
                    &&& r.2@ == shot_projectiles(
                        k,
                        c.barrel_count as nat,
                        c.projectiles_per_barrel,
                        fw,
                        old(idpooler)@.next_projectile_id,
                    )
                    &&& final(idpooler)@.next_projectile_id == (old(idpooler)@.next_projectile_id + r.2@.len())
                        % 65536
                },
                None => r.1@.len() == 0 && r.2@.len() == 0 && final(idpooler)@ == old(idpooler)@,
            },
            final(idpooler)@.pickup_ids == old(idpooler)@.pickup_ids,
            final(idpooler)@.monster_ids == old(idpooler)@.monster_ids,
            final(idpooler)@.players == old(idpooler)@.players,
    {
        let outcome = self.tick(config.try_fire, config.wish_weapon_key, timer_finished, configs);
        let (sounds, projectiles) = self.fire_weapon_key(outcome.fired, config, configs, idpooler);
        (outcome, sounds, projectiles)
    }
}

/// Whether a shot is announced to clients as a shotgun blast: the server's
/// shot with the shotgun in hand.
pub fn announces_shotgun(has_authority: bool, fired: bool, current_weapon_key: u8) -> (r: bool)
    ensures
        r == (has_authority && fired && current_weapon_key == WEAPON_KEY_SHOTGUN),
{
    has_authority && fired && current_weapon_key == WEAPON_KEY_SHOTGUN
}

/// A projectile's flight ends (its timer ran out, or it hit something):
/// it is queued for deletion, and its despawn is announced only the first
/// time, so that a projectile is despawned once.
pub fn queue_projectile_deletion(queued_for_deletion: &mut bool) -> (announce: bool)
    ensures
        announce == !*old(queued_for_deletion),
        *final(queued_for_deletion),
{
    if *queued_for_deletion {
        false
    } else {
        *queued_for_deletion = true;
        true
    }
}

/// Whether the server moves a projectile ahead by its owner's nudge time:
/// on its first step only, where it has a nudge.
pub fn nudges_first_step(nudge_delta_millis: u8, has_authority: bool, elapsed_millis: u64) -> (r: bool)
    ensures
        r == (nudge_delta_millis > 0 && has_authority && elapsed_millis == 0),
{
    nudge_delta_millis > 0 && has_authority && elapsed_millis == 0
}

/// What the weapons of one player do in a frame.
#[derive(Clone, Copy, PartialEq, Eq, Structural, Debug)]
pub struct WeaponsFrame {
    /// The key of the weapon fired, if one fired.
    pub fired: Option<u8>,
    /// Where the fire timer restarts: its new duration in milliseconds.
    pub restart_timer_millis: Option<u16>,
    /// Whether clients are told of a shotgun blast.
    pub shotgun_event: bool,
    /// The weapon key recorded in the local player's latest input.
    pub input_weapon_key: Option<u8>,
}

/// The weapon the server fires for a reported shot with `key`.
pub open spec fn server_fire(weapons: Seq<Weapon>, configs: Seq<WeaponTiming>, key: Option<u8>) -> Option<u8> {
    match key {
        Some(k) => if has_weapon(weapons, k) && config_for(configs, k) is Some {
            Some(k)
        } else {
            None
        },
        None => None,
    }
}

/// The weapon key reported by the first of `events`, pairs of player id
/// and reported weapon key, that came from `player_id`.
pub open spec fn first_fired(events: Seq<(u8, Option<u8>)>, player_id: u8) -> Option<Option<u8>>
    decreases events.len(),
{
    if events.len() == 0 {
        None
    } else if events[0].0 == player_id {
        Some(events[0].1)
    } else {
        first_fired(events.drop_first(), player_id)
    }
}

/// The weapon key of the first of this frame's fired events from
/// `player_id`.
fn find_first_fired(events: &Vec<(u8, Option<u8>)>, player_id: u8) -> (r: Option<Option<u8>>)
    ensures
        r == first_fired(events@, player_id),
{
    let mut i: usize = 0;
    assert(events@.skip(0) =~= events@);
    while i < events.len()
        invariant
            i <= events@.len(),
            first_fired(events@, player_id) == first_fired(events@.skip(i as int), player_id),
        decreases events@.len() - i,
    {
        proof {
            assert(events@.skip(i as int).drop_first() =~= events@.skip(i + 1));
        }
        let (id, key) = events[i];
        if id == player_id {
            assert(events@.skip(i as int)[0] == events@[i as int]);
            return Some(key);
        }
        i = i + 1;
    }
    None
}

/// One frame of a player's weapons. A dead player does nothing. The local
/// player, given its latest input as (fire held, weapon wished), ticks its
/// weapon; when it fires, the input records the weapon in hand, and a
/// server announces a shot of the shotgun as a shotgun blast. Another
/// player's weapons act only on the server, on the first shot it reported
/// this frame (among `fired_events`, pairs of player id and reported weapon
/// key), and a shot of the shotgun is announced as a blast.
pub fn player_weapons_frame(
    container: &mut WeaponContainer,
    player_id: u8,
    has_authority: bool,
    is_local: bool,
    dead: bool,
    local_input: Option<(bool, Option<u8>)>,
    timer_finished: bool,
    fired_events: &Vec<(u8, Option<u8>)>,
    configs: &Vec<WeaponTiming>,
) -> (r: WeaponsFrame)
    requires
        bursts_fire(configs@),
    ensures
        final(container).owner_id == old(container).owner_id,
        final(container).weapons@ == old(container).weapons@,
        final(container).fire_timer_millis == match r.restart_timer_millis {
            Some(d) => d,
            None => old(container).fire_timer_millis,
        },
        (dead || (is_local && local_input is None) || (!is_local && (!has_authority || first_fired(
            fired_events@,
            player_id,
        ) is None))) ==> {
            &&& r == (WeaponsFrame { fired: None, restart_timer_millis: None, shotgun_event: false, input_weapon_key: None })
            &&& final(container).current_weapon_key == old(container).current_weapon_key
            &&& final(container).num_left_in_burst == old(container).num_left_in_burst
        },
        (!dead && is_local && local_input is Some) ==> {
            let (fire, wish) = local_input.unwrap();
            let (key, left, outcome) = tick_spec(old(container).weapons@, old(container).current_weapon_key,
                old(container).num_left_in_burst, fire, wish, timer_finished, configs@);
            &&& final(container).current_weapon_key == key
            &&& final(container).num_left_in_burst == left
            &&& r.fired == outcome.fired
            &&& r.restart_timer_millis == outcome.restart_timer_millis
            &&& r.input_weapon_key == if outcome.fired is Some { Some(key) } else { None }
            &&& r.shotgun_event == (has_authority && outcome.fired == Some(WEAPON_KEY_SHOTGUN))
        },
        (!dead && !is_local && has_authority && first_fired(fired_events@, player_id) is Some) ==> {
            let fired = server_fire(old(container).weapons@, configs@, first_fired(fired_events@, player_id).unwrap());
            &&& final(container).current_weapon_key == old(container).current_weapon_key
            &&& final(container).num_left_in_burst == old(container).num_left_in_burst
            &&& r.fired == fired
            &&& r.restart_timer_millis is None
            &&& r.input_weapon_key is None
            &&& r.shotgun_event == (fired == Some(WEAPON_KEY_SHOTGUN))
        },
{
    let nothing = WeaponsFrame { fired: None, restart_timer_millis: None, shotgun_event: false, input_weapon_key: None };
    if dead {
        return nothing;
    }
    if is_local {
        match local_input {
            None => nothing,
            Some((fire, wish)) => {
                let outcome = container.tick(fire, wish, timer_finished, configs);
                let key = container.current_weapon_key;
                let fired = outcome.fired.is_some();
                WeaponsFrame {
                    fired: outcome.fired,
                    restart_timer_millis: outcome.restart_timer_millis,
                    shotgun_event: announces_shotgun(has_authority, fired, key),
                    input_weapon_key: if fired { Some(key) } else { None },
                }
            },
        }
    } else if !has_authority {
        nothing
    } else {
        match find_first_fired(fired_events, player_id) {
            None => nothing,
            Some(key) => {
                let fired = container.server_process_player_fired_event(key, configs);
                WeaponsFrame {
                    fired,
                    restart_timer_millis: None,
                    shotgun_event: fired == Some(WEAPON_KEY_SHOTGUN),
                    input_weapon_key: None,
                }
            },
        }
    }
}

/// Once the fire timer has run out, a wish for another weapon the player
/// holds and that is configured is granted whether or not the trigger is
/// held: that weapon is in hand after the tick, and it is the one that
/// fires if the trigger is held.
pub proof fn switch_does_not_wait_for_the_trigger(
    weapons: Seq<Weapon>,
    current: u8,
    left: u8,
    try_fire: bool,
    wish: u8,
    configs: Seq<WeaponTiming>,
)
    requires
        has_weapon(weapons, current),
        config_for(configs, current) is Some,
        has_weapon(weapons, wish),
        config_for(configs, wish) is Some,
        wish != current,
    ensures
        tick_spec(weapons, current, left, try_fire, Some(wish), true, configs).0 == wish,
        try_fire ==> tick_spec(weapons, current, left, try_fire, Some(wish), true, configs).2.fired == Some(wish),
{
}

/// Once the fire timer has run out, holding the trigger without wishing
/// for another weapon fires the weapon in hand, where it is held and
/// configured.
pub proof fn trigger_fires_weapon_in_hand(
    weapons: Seq<Weapon>,
    current: u8,
    left: u8,
    wish: Option<u8>,
    configs: Seq<WeaponTiming>,
)
    requires
        has_weapon(weapons, current),
        config_for(configs, current) is Some,
        wish is None || wish == Some(current),
    ensures
        tick_spec(weapons, current, left, true, wish, true, configs).0 == current,
        tick_spec(weapons, current, left, true, wish, true, configs).2.fired == Some(current),
{
}

/// While the fire timer runs, a tick neither fires, nor switches weapons,
/// nor changes a burst.
pub proof fn no_action_before_timer(
    weapons: Seq<Weapon>,
    current: u8,
    left: u8,
    try_fire: bool,
    wish: Option<u8>,
    configs: Seq<WeaponTiming>,
)
    ensures
        tick_spec(weapons, current, left, try_fire, wish, false, configs) == (current, left, TickOutcome {
            fired: None,
            restart_timer_millis: None,
        }),
{
}

/// A tick that fires restarts the timer, and fires the weapon it leaves in
/// hand.
pub proof fn firing_restarts_timer(
    weapons: Seq<Weapon>,
    current: u8,
    left: u8,
    try_fire: bool,
    wish: Option<u8>,
    timer_finished: bool,
    configs: Seq<WeaponTiming>,
)
    ensures
        ({
            let (key, _, outcome) = tick_spec(weapons, current, left, try_fire, wish, timer_finished, configs);
            outcome.fired is Some ==> outcome.fired == Some(key) && outcome.restart_timer_millis is Some
                && timer_finished
        }),
{
}

} // verus!
