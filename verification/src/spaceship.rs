//! Ships, their weapon and their progression.
use vstd::prelude::*;
use crate::collision::ColliderType;
use crate::components::CameraName;
use crate::components::Components;
use crate::components::Entity;
use crate::components::FollowedCamera;
use crate::components::Material;
use crate::components::Movement;
use crate::components::Transform;
use crate::components::UserControlled;
use crate::loot::Loot;
use crate::math::Rotation;
use crate::math::Vec2;
use crate::math::Vec3;
use crate::time::Timer;
use crate::world::lookup;
use crate::world::Slots;
use crate::world::with;
use crate::world::World;

verus! {

#[derive(Clone, Copy, PartialEq, Eq, Debug, Structural)]
pub struct Spaceship {
    pub max_angvel: i32,
    pub max_linvel: i32,
    pub max_latvel: i32,
}

#[derive(Clone, Copy, PartialEq, Eq, Debug, Structural)]
pub struct Weapon {
    pub fire_timer: Timer,
    pub munition_lifespan: u32,
}

#[derive(Clone, Copy, PartialEq, Eq, Debug, Structural)]
pub struct XpEvent {
    pub xp: u32,
    pub source: Entity,
}

#[derive(Clone, Copy, PartialEq, Eq, Debug, Structural)]
pub struct Progression {
    pub level: u32,
    pub xp: u32,
}

/// `value` taken at `percent` hundredths, rounded down; what a `u32` cannot
/// hold becomes the largest it can.
pub open spec fn times_percent(value: u32, percent: u32) -> u32 {
    if value * percent / 100 > u32::MAX {
        u32::MAX
    } else {
        (value * percent / 100) as u32
    }
}

/// `value` divided by `percent` hundredths, rounded down; what a `u32`
/// cannot hold becomes the largest it can, and so does a division by
/// nothing.
pub open spec fn divided_by_percent(value: u32, percent: u32) -> u32 {
    if percent == 0 || value * 100 / (percent as int) > u32::MAX {
        u32::MAX
    } else {
        (value * 100 / (percent as int)) as u32
    }
}

/// A weapon after its ship has picked up `loot`: a higher rate of fire
/// divides the cooldown, a longer munition duration multiplies the lifespan
/// of what is shot.
pub open spec fn upgraded(weapon: Weapon, loot: Loot) -> Weapon {
    match loot {
        Loot::IncreasedRateOfFire(percent) => Weapon {
            fire_timer: Timer {
                duration: divided_by_percent(weapon.fire_timer.duration, percent),
                ..weapon.fire_timer
            },
            ..weapon
        },
        Loot::IncreasedMunitionDuration(percent) => Weapon {
            munition_lifespan: times_percent(weapon.munition_lifespan, percent),
            ..weapon
        },
        Loot::Nothing => weapon,
    }
}

/// The size at which the ship of the player is spawned.
pub const SHIP_SCALE: i32 = 300;

/// What is left of the speed of the ship after one second.
pub const SHIP_DAMPENING: u32 = 100;

/// The slot holds the camera of the game.
pub open spec fn game_camera(slot: Option<Components>) -> bool {
    slot matches Some(c) && c.camera matches Some(camera) && camera.name == Some(
        CameraName::Camera2d,
    )
}

/// The first `n` slots hold no camera of the game.
pub open spec fn no_game_camera(slots: Slots, n: int) -> bool {
    forall|i: int| 0 <= i < n && i < slots.len() ==> !game_camera(#[trigger] slots[i])
}

/// What the ship of the player is spawned with, when `camera` follows it.
pub open spec fn player_components(camera: Entity) -> Components {
    Components {
        transform: Some(Transform { scale: SHIP_SCALE, ..Transform::identity_spec() }),
        material: Some(Material::PlayerShip),
        user_controlled: Some(UserControlled {  }),
        movement: Some(Movement { speed: Vec2 { x: 0, y: 0 }, dampening: SHIP_DAMPENING }),
        spaceship: Some(Spaceship { max_angvel: 6283, max_linvel: 300000, max_latvel: 300000 }),
        followed_camera: Some(FollowedCamera(camera)),
        weapon: Some(
            Weapon {
                fire_timer: Timer {
                    elapsed: 0,
                    duration: 1000,
                    finished: false,
                    just_finished: false,
                    repeating: false,
                },
                munition_lifespan: 500,
            },
        ),
        progression: Some(Progression { level: 1, xp: 0 }),
        collider_type: Some(ColliderType::Ship),
        ..Components::empty_spec()
    }
}

/// The level at which progression stops.
pub const XP_MAX_LEVEL: u32 = 6;

/// The experience that takes a ship from `level` to the next.
pub open spec fn xp_per_level(level: u32) -> u32 {
    if level == 1 {
        10
    } else if level == 2 {
        30
    } else if level == 3 {
        100
    } else if level == 4 {
        300
    } else if level == 5 {
        1000
    } else {
        0
    }
}

/// A progression after `xp` more experience. Below the last level the
/// experience adds up, stopping at what a `u32` holds, and once it reaches
/// what the level asks, that much is spent on one level more. At the last
/// level nothing changes any more.
pub open spec fn progressed(p: Progression, xp: u32) -> Progression {
    if p.level >= XP_MAX_LEVEL {
        p
    } else {
        let total: u32 = if p.xp + xp > u32::MAX {
            u32::MAX
        } else {
            (p.xp + xp) as u32
        };
        if total >= xp_per_level(p.level) {
            Progression { level: (p.level + 1) as u32, xp: (total - xp_per_level(p.level)) as u32 }
        } else {
            Progression { level: p.level, xp: total }
        }
    }
}

/// The store once the experience of `event` has reached its source; a
/// source that is dead or has no progression takes none.
pub open spec fn rewarded(slots: Slots, event: XpEvent) -> Slots {
    match lookup(slots, event.source) {
        Some(c) => match c.progression {
            Some(p) => with(
                slots,
                event.source,
                Components { progression: Some(progressed(p, event.xp)), ..c },
            ),
            None => slots,
        },
        None => slots,
    }
}

/// The store once the experience of each of `events` has reached its
/// source, in their order.
pub open spec fn rewarded_all(slots: Slots, events: Seq<XpEvent>) -> Slots
    decreases events.len(),
{
    if events.len() == 0 {
        slots
    } else {
        rewarded(rewarded_all(slots, events.drop_last()), events.last())
    }
}

/// The experience that takes a ship from `level` to the next.
pub fn threshold(level: u32) -> (xp: u32)
    ensures
        xp == xp_per_level(level),
{
    if level == 1 {
        10
    } else if level == 2 {
        30
    } else if level == 3 {
        100
    } else if level == 4 {
        300
    } else if level == 5 {
        1000
    } else {
        0
    }
}

impl Weapon {
    /// Takes in what `loot` brings.
    pub fn upgrade(&mut self, loot: Loot)
        ensures
            *final(self) == upgraded(*old(self), loot),
    {
        match loot {
            Loot::IncreasedRateOfFire(percent) => {
                let duration: u64 = self.fire_timer.duration as u64;
                if percent == 0 {
                    self.fire_timer.duration = u32::MAX;
                } else {
                    let quotient: u64 = duration * 100 / (percent as u64);
                    if quotient > u32::MAX as u64 {
                        self.fire_timer.duration = u32::MAX;
                    } else {
                        self.fire_timer.duration = quotient as u32;
                    }
                }
            },
            Loot::IncreasedMunitionDuration(percent) => {
                assert((self.munition_lifespan as int) * (percent as int) <= 18446744073709551615)
                    by (nonlinear_arith)
                    requires
                        0 <= self.munition_lifespan <= 4294967295,
                        0 <= percent <= 4294967295,
                ;
                let product: u64 = (self.munition_lifespan as u64) * (percent as u64) / 100;
                if product > u32::MAX as u64 {
                    self.munition_lifespan = u32::MAX;
                } else {
                    self.munition_lifespan = product as u32;
                }
            },
            Loot::Nothing => {},
        }
    }
}

/// Twice the rate of fire halves the cooldown, and half as long again a
/// munition duration makes the lifespan half as long again.
pub proof fn lemma_loot_scaling(weapon: Weapon)
    ensures
        upgraded(weapon, Loot::IncreasedRateOfFire(200)).fire_timer.duration
            == weapon.fire_timer.duration / 2,
        weapon.munition_lifespan * 3 / 2 <= u32::MAX ==> upgraded(
            weapon,
            Loot::IncreasedMunitionDuration(150),
        ).munition_lifespan == weapon.munition_lifespan * 3 / 2,
        forall|percent: u32|
            upgraded(weapon, Loot::IncreasedRateOfFire(percent)).munition_lifespan
                == weapon.munition_lifespan,
        forall|percent: u32|
            upgraded(weapon, Loot::IncreasedMunitionDuration(percent)).fire_timer
                == weapon.fire_timer,
{
}

impl Progression {
    pub fn new() -> (p: Progression)
        ensures
            p == (Progression { level: 1, xp: 0 }),
    {
        Progression { level: 1, xp: 0 }
    }

    /// Takes in experience, and rises by one level if that is enough.
    pub fn add_xp(&mut self, xp: u32)
        ensures
            *final(self) == progressed(*old(self), xp),
            old(self).level <= final(self).level <= old(self).level + 1,
            old(self).level <= XP_MAX_LEVEL ==> final(self).level <= XP_MAX_LEVEL,
            old(self).level >= XP_MAX_LEVEL ==> *final(self) == *old(self),
    {
        if self.level >= XP_MAX_LEVEL {
            return ;
        }
        self.xp = self.xp.saturating_add(xp);
        let needed = threshold(self.level);
        if self.xp >= needed {
            self.xp = self.xp - needed;
            self.level = self.level + 1;
        }
    }
}

/// The camera of the game: the first entity that is a camera of that name.
pub fn find_game_camera(world: &World) -> (camera: Option<Entity>)
    ensures
        camera matches Some(found) ==> found.0 < world@.len() && game_camera(
            world@[found.0 as int],
        ) && no_game_camera(world@, found.0 as int),
        camera is None ==> no_game_camera(world@, world@.len() as int),
{
    let n = world.len();
    let mut i: usize = 0;
    while i < n
        invariant
            i <= n,
            n == world@.len(),
            no_game_camera(world@, i as int),
        decreases n - i,
    {
        if let Some(c) = world.get(Entity(i)) {
            if let Some(camera) = c.camera {
                if let Some(name) = camera.name {
                    if name == CameraName::Camera2d {
                        return Some(Entity(i));
                    }
                }
            }
        }
        i = i + 1;
    }
    None
}

/// Spawns the ship of the player, followed by the camera of the game, and
/// names it. Without such a camera nothing is spawned.
pub fn spawn_player_spaceship(world: &mut World) -> (ship: Option<Entity>)
    ensures
        no_game_camera(old(world)@, old(world)@.len() as int) ==> ship is None && final(world)@
            == old(world)@,
        !no_game_camera(old(world)@, old(world)@.len() as int) ==> ship == Some(
            Entity(old(world)@.len() as usize),
        ) && exists|camera: Entity|
            camera.0 < old(world)@.len() && game_camera(old(world)@[camera.0 as int])
                && no_game_camera(old(world)@, camera.0 as int) && final(world)@ == old(
                world,
            )@.push(Some(player_components(camera))),
{
    match find_game_camera(world) {
        None => None,
        Some(camera) => {
            let mut c = Components::empty();
            c.transform = Some(
                Transform {
                    translation: Vec3 { x: 0, y: 0, z: 0 },
                    rotation: Rotation { cos: 1000, sin: 0 },
                    scale: SHIP_SCALE,
                },
            );
            c.material = Some(Material::PlayerShip);
            c.user_controlled = Some(UserControlled {  });
            c.movement = Some(Movement { speed: Vec2 { x: 0, y: 0 }, dampening: SHIP_DAMPENING });
            c.spaceship = Some(
                Spaceship { max_angvel: 6283, max_linvel: 300000, max_latvel: 300000 },
            );
            c.followed_camera = Some(FollowedCamera(camera));
            c.weapon = Some(
                Weapon { fire_timer: Timer::from_seconds(1000, false), munition_lifespan: 500 },
            );
            c.progression = Some(Progression::new());
            c.collider_type = Some(ColliderType::Ship);
            Some(world.spawn(c))
        },
    }
}

/// Hands the experience of each event to the progression of its source.
pub fn xp_system(events: &Vec<XpEvent>, world: &mut World)
    ensures
        final(world)@ == rewarded_all(old(world)@, events@),
{
    let mut i: usize = 0;
    while i < events.len()
        invariant
            i <= events.len(),
            world@ == rewarded_all(old(world)@, events@.take(i as int)),
        decreases events.len() - i,
    {
        proof {
            let upto = events@.take(i + 1);
            assert(upto.drop_last() == events@.take(i as int));
            assert(upto.last() == events@[i as int]);
        }
        let event = events[i];
        if let Some(c) = world.get(event.source) {
            if let Some(p) = c.progression {
                let mut progression = p;
                progression.add_xp(event.xp);
                let mut rewarded = c;
                rewarded.progression = Some(progression);
                world.set(event.source, rewarded);
            }
        }
        i = i + 1;
    }
    assert(events@.take(events.len() as int) == events@);
}

} // verus!
