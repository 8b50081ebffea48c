//! Setting the stage: the arena, its cameras, its backdrop and the
//! asteroids that drift into it.
use vstd::prelude::*;
use crate::arena::Arena;
use crate::arena::ArenaExt;
use crate::arena::ArenaQuadrant;
use crate::arena::sprouted;
use crate::armor::Armor;
use crate::chance::gen_range;
use crate::collision::ColliderType;
use crate::components::Camera;
use crate::components::CameraName;
use crate::components::Components;
use crate::components::Enemy;
use crate::components::Entity;
use crate::components::Material;
use crate::components::SpriteComponents;
use crate::components::Transform;
use crate::math::Rotation;
use crate::math::Vec2;
use crate::math::Vec3;
use crate::world::Slots;
use crate::world::World;

verus! {

/// The width of the window, and of the arena.
pub const WINDOW_WIDTH: i32 = 1280000;

/// The height of the window, and of the arena.
pub const WINDOW_HEIGHT: i32 = 800000;

/// The depth at which the backdrop is drawn.
pub const BACKGROUND_DEPTH: i32 = -10000;

/// The depth at which asteroids are drawn.
pub const ASTEROID_DEPTH: i32 = -8000;

/// The size at which asteroids are spawned.
pub const ASTEROID_SCALE: i32 = 500;

/// How far from every ship an asteroid has to be spawned.
pub const ASTEROID_DISTANCE: i32 = 300000;

/// How many places are tried for an asteroid within one frame.
pub const ASTEROID_ATTEMPTS: u32 = 64;

/// What a camera of the given name is spawned with.
pub open spec fn camera_components(name: CameraName) -> Components {
    Components {
        transform: Some(Transform::identity_spec()),
        camera: Some(Camera { name: Some(name) }),
        ..Components::empty_spec()
    }
}

/// Where the backdrop is spawned.
pub open spec fn background_sprite() -> SpriteComponents {
    SpriteComponents {
        material: Material::Background,
        transform: Transform {
            translation: Vec3 { x: 0, y: 0, z: BACKGROUND_DEPTH },
            rotation: Rotation { cos: 1000, sin: 0 },
            scale: 1000,
        },
    }
}

/// What an asteroid is spawned with at `position`, but for its ghosts.
pub open spec fn asteroid_components(position: Vec2) -> Components {
    Components {
        transform: Some(
            Transform {
                translation: Vec3 { x: position.x, y: position.y, z: ASTEROID_DEPTH },
                rotation: Rotation { cos: 1000, sin: 0 },
                scale: ASTEROID_SCALE,
            },
        ),
        material: Some(Material::Meteor),
        armor: Some(Armor { max_life: 3, life: 3 }),
        enemy: Some(Enemy { xp: 2 }),
        collider_type: Some(ColliderType::Enemy),
        ..Components::empty_spec()
    }
}

/// The slot holds an enemy.
pub open spec fn hostile(slot: Option<Components>) -> bool {
    slot matches Some(c) && c.enemy is Some
}

/// Where the ship of the slot stands, if the slot holds a ship that has a
/// place.
pub open spec fn ship_place(slot: Option<Components>) -> Option<Vec3> {
    match slot {
        Some(c) => match (c.spaceship, c.transform) {
            (Some(_), Some(t)) => Some(t.translation),
            _ => None,
        },
        None => None,
    }
}

/// Some enemy lives.
pub open spec fn enemy_present(slots: Slots) -> bool {
    exists|i: int| 0 <= i < slots.len() && hostile(#[trigger] slots[i])
}

/// The point `(x, y)` is farther than the asteroid distance from `from`.
pub open spec fn far_from(from: Vec3, x: i32, y: i32) -> bool {
    (from.x - x) * (from.x - x) + (from.y - y) * (from.y - y) > ASTEROID_DISTANCE
        * ASTEROID_DISTANCE
}

/// The point is far from every ship that has a place.
pub open spec fn far_from_ships(slots: Slots, position: Vec2) -> bool {
    forall|i: int|
        0 <= i < slots.len() ==> (ship_place(#[trigger] slots[i]) matches Some(place) ==> far_from(
            place,
            position.x,
            position.y,
        ))
}

/// The point lies within the arena.
pub open spec fn within(arena: Arena, position: Vec2) -> bool {
    &&& -(arena.size.x / 2) <= position.x < arena.size.x / 2
    &&& -(arena.size.y / 2) <= position.y < arena.size.y / 2
}

/// The arena is large enough to draw a place from: it reaches to either
/// side of its centre along both axes.
pub open spec fn drawable(arena: Arena) -> bool {
    arena.size.x >= 2 && arena.size.y >= 2
}

/// Whether `draws` can be the places that one frame has tried for an
/// asteroid, in the order of their drawing: there is at least one and there
/// are no more than the frame may try, each lies within the arena, and each
/// but the last is too near a ship. The drawing goes on to the last place that
/// the frame may try only if none before it is far enough, so the last of
/// fewer is far from every ship.
pub open spec fn tried(slots: Slots, arena: Arena, draws: Seq<Vec2>) -> bool {
    &&& 0 < draws.len() <= ASTEROID_ATTEMPTS
    &&& forall|i: int| 0 <= i < draws.len() ==> within(arena, #[trigger] draws[i])
    &&& forall|i: int| 0 <= i < draws.len() - 1 ==> !far_from_ships(slots, #[trigger] draws[i])
    &&& draws.len() < ASTEROID_ATTEMPTS ==> far_from_ships(slots, draws.last())
}

/// The asteroid that comes of the places tried: one at the last of them, if
/// that is far from every ship, and none otherwise.
pub open spec fn asteroid_of(slots: Slots, draws: Seq<Vec2>) -> Option<Entity> {
    if far_from_ships(slots, draws.last()) {
        Some(Entity(slots.len() as usize))
    } else {
        None
    }
}

/// The store once the places have been tried.
pub open spec fn with_asteroid(slots: Slots, draws: Seq<Vec2>) -> Slots {
    if far_from_ships(slots, draws.last()) {
        sprouted(slots, asteroid_components(draws.last()), Material::Meteor)
    } else {
        slots
    }
}

/// Whether an asteroid is to be spawned at `position`: no enemy lives, and
/// the point is far from every ship.
pub open spec fn asteroid_due(slots: Slots, position: Vec2) -> bool {
    !enemy_present(slots) && far_from_ships(slots, position)
}

/// Spawns the camera of the game and that of the interface, and makes the
/// arena, of the size of the window.
pub fn setup(world: &mut World) -> (arena: Arena)
    ensures
        arena == (Arena {
            size: Vec2 { x: WINDOW_WIDTH, y: WINDOW_HEIGHT },
            shown: ArenaQuadrant::NW,
        }),
        final(world)@ == old(world)@.push(Some(camera_components(CameraName::Camera2d))).push(
            Some(camera_components(CameraName::CameraUi)),
        ),
{
    let mut game = Components::empty();
    game.transform = Some(Transform::identity());
    game.camera = Some(Camera { name: Some(CameraName::Camera2d) });
    world.spawn(game);
    let mut interface = Components::empty();
    interface.transform = Some(Transform::identity());
    interface.camera = Some(Camera { name: Some(CameraName::CameraUi) });
    world.spawn(interface);
    Arena { size: Vec2 { x: WINDOW_WIDTH, y: WINDOW_HEIGHT }, shown: ArenaQuadrant::NW }
}

/// Spawns the backdrop, which wraps around the arena like everything else.
pub fn spawn_background(world: &mut World) -> (backdrop: Entity)
    ensures
        backdrop.0 == old(world)@.len(),
        final(world)@ == sprouted(
            old(world)@,
            Components::sprite_spec(background_sprite()),
            Material::Background,
        ),
{
    world.spawn_with_ghosts(
        SpriteComponents {
            material: Material::Background,
            transform: Transform {
                translation: Vec3 { x: 0, y: 0, z: BACKGROUND_DEPTH },
                rotation: Rotation { cos: 1000, sin: 0 },
                scale: 1000,
            },
        },
    )
}

/// Says whether some enemy lives.
pub fn has_enemy(world: &World) -> (found: bool)
    ensures
        found == enemy_present(world@),
{
    let n = world.len();
    let mut i: usize = 0;
    while i < n
        invariant
            i <= n,
            n == world@.len(),
            forall|k: int| 0 <= k < i ==> !hostile(#[trigger] world@[k]),
        decreases n - i,
    {
        if let Some(c) = world.get(Entity(i)) {
            if c.enemy.is_some() {
                return true;
            }
        }
        i = i + 1;
    }
    false
}

/// Says whether `position` is far from every ship that has a place.
pub fn is_far_from_ships(world: &World, position: Vec2) -> (far: bool)
    ensures
        far == far_from_ships(world@, position),
{
    let n = world.len();
    let mut i: usize = 0;
    while i < n
        invariant
            i <= n,
            n == world@.len(),
            forall|k: int|
                0 <= k < i ==> (ship_place(#[trigger] world@[k]) matches Some(place) ==> far_from(
                    place,
                    position.x,
                    position.y,
                )),
        decreases n - i,
    {
        if let Some(c) = world.get(Entity(i)) {
            if c.spaceship.is_some() {
                if let Some(t) = c.transform {
                    let dx: i128 = (t.translation.x as i128) - (position.x as i128);
                    let dy: i128 = (t.translation.y as i128) - (position.y as i128);
                    assert(0 <= dx * dx <= 18446744073709551616 && 0 <= dy * dy
                        <= 18446744073709551616) by (nonlinear_arith)
                        requires
                            -4294967296 <= dx <= 4294967296,
                            -4294967296 <= dy <= 4294967296,
                    ;
                    let limit: i128 = (ASTEROID_DISTANCE as i128) * (ASTEROID_DISTANCE as i128);
                    if !(dx * dx + dy * dy > limit) {
                        return false;
                    }
                }
            }
        }
        i = i + 1;
    }
    true
}

/// Spawns an asteroid at `position` if one is due there, and names it.
pub fn spawn_asteroid_at(world: &mut World, position: Vec2) -> (spawned: Option<Entity>)
    ensures
        asteroid_due(old(world)@, position) ==> spawned == Some(
            Entity(old(world)@.len() as usize),
        ) && final(world)@ == sprouted(
            old(world)@,
            asteroid_components(position),
            Material::Meteor,
        ),
        !asteroid_due(old(world)@, position) ==> spawned is None && final(world)@ == old(world)@,
{
    if has_enemy(world) || !is_far_from_ships(world, position) {
        return None;
    }
    let entity = world.spawn_with_ghosts(
        SpriteComponents {
            material: Material::Meteor,
            transform: Transform {
                translation: Vec3 { x: position.x, y: position.y, z: ASTEROID_DEPTH },
                rotation: Rotation { cos: 1000, sin: 0 },
                scale: ASTEROID_SCALE,
            },
        },
    );
    let mut c = world.get(entity).unwrap();
    c.armor = Some(Armor::new(3));
    c.enemy = Some(Enemy { xp: 2 });
    c.collider_type = Some(ColliderType::Enemy);
    world.set(entity, c);
    assert(world@ =~= sprouted(old(world)@, asteroid_components(position), Material::Meteor));
    Some(entity)
}

/// While no enemy lives, spawns an asteroid at a place drawn by chance that
/// is far from every ship. Places within the arena are drawn one after the
/// other, up to a limited number within one frame, and the first that is far
/// enough takes the asteroid; if none of them is, the frame spawns nothing.
/// So an asteroid is sure to be spawned where every place of the arena is
/// far from every ship. With an enemy alive, or an arena too small to draw
/// from, nothing is drawn and nothing spawned.
pub fn spawn_asteroid(world: &mut World, arena: &Arena) -> (spawned: Option<Entity>)
    ensures
        enemy_present(old(world)@) || !drawable(*arena) ==> spawned is None && final(world)@
            == old(world)@,
        !enemy_present(old(world)@) && drawable(*arena) ==> exists|draws: Seq<Vec2>|
            #[trigger] tried(old(world)@, *arena, draws) && spawned == asteroid_of(
                old(world)@,
                draws,
            ) && final(world)@ == with_asteroid(old(world)@, draws),
        !enemy_present(old(world)@) && drawable(*arena) && (forall|position: Vec2|
            within(*arena, position) ==> #[trigger] far_from_ships(old(world)@, position))
            ==> spawned == Some(Entity(old(world)@.len() as usize)),
{
    let half_width: i32 = arena.size.x / 2;
    let half_height: i32 = arena.size.y / 2;
    if half_width <= 0 || half_height <= 0 || has_enemy(world) {
        return None;
    }
    let ghost mut draws: Seq<Vec2> = Seq::empty();
    let mut attempt: u32 = 0;
    while attempt < ASTEROID_ATTEMPTS
        invariant
            attempt <= ASTEROID_ATTEMPTS,
            0 < half_width == arena.size.x / 2,
            0 < half_height == arena.size.y / 2,
            !enemy_present(old(world)@),
            world@ == old(world)@,
            draws.len() == attempt,
            forall|i: int| 0 <= i < draws.len() ==> within(*arena, #[trigger] draws[i]),
            forall|i: int|
                0 <= i < draws.len() ==> !far_from_ships(old(world)@, #[trigger] draws[i]),
        decreases ASTEROID_ATTEMPTS - attempt,
    {
        let position = Vec2 {
            x: gen_range(-half_width, half_width),
            y: gen_range(-half_height, half_height),
        };
        proof {
            draws = draws.push(position);
        }
        let found = spawn_asteroid_at(world, position);
        if found.is_some() {
            assert(tried(old(world)@, *arena, draws));
            return found;
        }
        attempt = attempt + 1;
    }
    assert(tried(old(world)@, *arena, draws));
    None
}

} // verus!
