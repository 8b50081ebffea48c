//! Missiles: who shot them, what they do, how long they last.
use vstd::prelude::*;
use crate::arena::ArenaExt;
use crate::arena::children_of;
use crate::arena::despawned;
use crate::arena::DespawnReport;
use crate::arena::lemma_without_all;
use crate::arena::report_of;
use crate::arena::sprouted;
use crate::collision::ColliderType;
use crate::components::Components;
use crate::components::Entity;
use crate::components::Material;
use crate::components::Movement;
use crate::components::SpriteComponents;
use crate::components::Transform;
use crate::math::scale;
use crate::math::scaled;
use crate::math::Vec2;
use crate::spaceship::Weapon;
use crate::time::ticked;
use crate::time::Time;
use crate::time::Timer;
use crate::world::lookup;
use crate::world::Slots;
use crate::world::World;

verus! {

#[derive(Clone, Copy, PartialEq, Eq, Debug, Structural)]
pub enum DamageKind {
    Energy,
}

#[derive(Clone, Copy, PartialEq, Eq, Debug, Structural)]
pub struct LifeSpanTimer(pub Timer);

#[derive(Clone, Copy, PartialEq, Eq, Debug, Structural)]
pub struct DamageDealer {
    pub source: Entity,
    pub kind: DamageKind,
    pub value: u32,
}

#[derive(Clone, Copy, PartialEq, Eq, Debug, Structural)]
pub struct FireWeaponEvent {
    pub ship_entity: Entity,
    /// How long the missile lasts, in thousandths of a second.
    pub munition_lifespan: u32,
}

/// The size at which missiles are spawned.
pub const MISSILE_SCALE: i32 = 600;

/// How fast missiles fly, in units per second.
pub const MISSILE_SPEED: i32 = 500000;

/// What a missile is spawned with when the ship of `event` stands at
/// `from`, but for its ghosts: it starts where the ship is, flies where
/// the ship is heading, and deals one point of damage in the name of the
/// ship.
pub open spec fn missile_components(event: FireWeaponEvent, from: Transform) -> Components {
    Components {
        transform: Some(
            Transform {
                translation: from.translation,
                rotation: from.rotation,
                scale: MISSILE_SCALE,
            },
        ),
        material: Some(Material::LaserRed),
        lifespan: Some(
            LifeSpanTimer(
                Timer {
                    elapsed: 0,
                    duration: event.munition_lifespan,
                    finished: false,
                    just_finished: false,
                    repeating: false,
                },
            ),
        ),
        damage_dealer: Some(
            DamageDealer { source: event.ship_entity, kind: DamageKind::Energy, value: 1 },
        ),
        movement: Some(
            Movement {
                speed: Vec2 {
                    x: scaled(MISSILE_SPEED as int, from.rotation.cos as int) as i32,
                    y: scaled(MISSILE_SPEED as int, from.rotation.sin as int) as i32,
                },
                dampening: 1000,
            },
        ),
        collider_type: Some(ColliderType::Missile),
        ..Components::empty_spec()
    }
}

/// Where the ship of `event` stands, if it lives and has a place.
pub open spec fn firing_from(slots: Slots, event: FireWeaponEvent) -> Option<Transform> {
    match lookup(slots, event.ship_entity) {
        Some(c) => c.transform,
        None => None,
    }
}

/// The store once the ship of `event` has fired: a ship that lives and has
/// a place gets a missile; any other fires nothing.
pub open spec fn fired(slots: Slots, event: FireWeaponEvent) -> Slots {
    match firing_from(slots, event) {
        Some(from) => sprouted(slots, missile_components(event, from), Material::LaserRed),
        None => slots,
    }
}

/// The store once the ship of each of `events` has fired, in their order.
pub open spec fn fired_all(slots: Slots, events: Seq<FireWeaponEvent>) -> Slots
    decreases events.len(),
{
    if events.len() == 0 {
        slots
    } else {
        fired(fired_all(slots, events.drop_last()), events.last())
    }
}

/// The missiles that the ships of `events` have fired, in their order.
pub open spec fn missiles_of(slots: Slots, events: Seq<FireWeaponEvent>) -> Seq<Entity>
    decreases events.len(),
{
    if events.len() == 0 {
        Seq::empty()
    } else {
        let before = fired_all(slots, events.drop_last());
        match firing_from(before, events.last()) {
            Some(_) => missiles_of(slots, events.drop_last()).push(Entity(before.len() as usize)),
            None => missiles_of(slots, events.drop_last()),
        }
    }
}

/// The store, and the reports made so far, once the slot `i` has had its
/// turn: a lifespan in it has grown older by `delta`, and if that ended
/// it, its entity has left the arena.
pub open spec fn aged(
    state: (Slots, Seq<DespawnReport>),
    delta: u32,
    i: int,
) -> (Slots, Seq<DespawnReport>) {
    match state.0[i] {
        Some(c) => match c.lifespan {
            Some(lifespan) => {
                let timer = ticked(lifespan.0, delta);
                let older = state.0.update(
                    i,
                    Some(Components { lifespan: Some(LifeSpanTimer(timer)), ..c }),
                );
                if timer.finished {
                    (
                        despawned(older, Entity(i as usize)),
                        state.1.push(report_of(older, Entity(i as usize))),
                    )
                } else {
                    (older, state.1)
                }
            },
            None => state,
        },
        None => state,
    }
}

/// The store and the reports once the first `n` slots have had their turn.
pub open spec fn aged_all(slots: Slots, delta: u32, n: nat) -> (Slots, Seq<DespawnReport>)
    decreases n,
{
    if n == 0 {
        (slots, Seq::empty())
    } else {
        aged(aged_all(slots, delta, (n - 1) as nat), delta, n - 1)
    }
}

/// The slot `slot` once the cooldown of a weapon in it has run for `delta`.
pub open spec fn cooled(slot: Option<Components>, delta: u32) -> Option<Components> {
    match slot {
        Some(c) => match c.weapon {
            Some(w) => Some(
                Components {
                    weapon: Some(Weapon { fire_timer: ticked(w.fire_timer, delta), ..w }),
                    ..c
                },
            ),
            None => Some(c),
        },
        None => None,
    }
}

/// Spawns a missile for each ship that fires. Returns the missiles, for
/// each of which a collider is still to be made and a laser to sound.
pub fn fire_weapon_system(events: &Vec<FireWeaponEvent>, world: &mut World) -> (missiles: Vec<
    Entity,
>)
    ensures
        final(world)@ == fired_all(old(world)@, events@),
        missiles@ == missiles_of(old(world)@, events@),
{
    let mut missiles: Vec<Entity> = Vec::new();
    let mut i: usize = 0;
    while i < events.len()
        invariant
            i <= events.len(),
            world@ == fired_all(old(world)@, events@.take(i as int)),
            missiles@ == missiles_of(old(world)@, events@.take(i as int)),
        decreases events.len() - i,
    {
        proof {
            let upto = events@.take(i + 1);
            assert(upto.drop_last() == events@.take(i as int));
            assert(upto.last() == events@[i as int]);
        }
        let event = events[i];
        let from = match world.get(event.ship_entity) {
            Some(c) => c.transform,
            None => None,
        };
        if let Some(from) = from {
            let ghost before = world@;
            let missile = world.spawn_with_ghosts(
                SpriteComponents {
                    material: Material::LaserRed,
                    transform: Transform {
                        translation: from.translation,
                        rotation: from.rotation,
                        scale: MISSILE_SCALE,
                    },
                },
            );
            let mut c = world.get(missile).unwrap();
            c.lifespan = Some(LifeSpanTimer(Timer::from_seconds(event.munition_lifespan, false)));
            c.damage_dealer = Some(
                DamageDealer { source: event.ship_entity, kind: DamageKind::Energy, value: 1 },
            );
            c.movement = Some(
                Movement {
                    speed: Vec2 {
                        x: scale(MISSILE_SPEED, from.rotation.cos),
                        y: scale(MISSILE_SPEED, from.rotation.sin),
                    },
                    dampening: 1000,
                },
            );
            c.collider_type = Some(ColliderType::Missile);
            world.set(missile, c);
            assert(world@ =~= sprouted(
                before,
                missile_components(event, from),
                Material::LaserRed,
            ));
            missiles.push(missile);
        }
        i = i + 1;
    }
    assert(events@.take(events.len() as int) == events@);
    missiles
}

/// Lets every lifespan grow older by one frame, and takes out of the arena
/// what has outlived its own. Returns one report for each entity that left.
pub fn lifespan_system(time: &Time, world: &mut World) -> (reports: Vec<DespawnReport>)
    ensures
        final(world)@ == aged_all(old(world)@, time.elapsed(), old(world)@.len()).0,
        reports@ == aged_all(old(world)@, time.elapsed(), old(world)@.len()).1,
{
    let mut reports: Vec<DespawnReport> = Vec::new();
    let n = world.len();
    let mut i: usize = 0;
    while i < n
        invariant
            i <= n,
            n == old(world)@.len(),
            world@.len() == n,
            (world@, reports@) == aged_all(old(world)@, time.elapsed(), i as nat),
        decreases n - i,
    {
        if let Some(c) = world.get(Entity(i)) {
            if let Some(lifespan) = c.lifespan {
                let mut timer = lifespan.0;
                timer.tick(time.delta());
                let mut older = c;
                older.lifespan = Some(LifeSpanTimer(timer));
                world.set(Entity(i), older);
                if timer.finished {
                    proof {
                        lemma_without_all(world@, children_of(world@, Entity(i)));
                    }
                    let report = world.despawn_from_arena(Entity(i));
                    reports.push(report);
                }
            }
        }
        i = i + 1;
    }
    reports
}

/// Lets the cooldown of every weapon run for one frame.
pub fn weapon_system(time: &Time, world: &mut World)
    ensures
        final(world)@.len() == old(world)@.len(),
        forall|i: int|
            0 <= i < old(world)@.len() ==> #[trigger] final(world)@[i] == cooled(
                old(world)@[i],
                time.elapsed(),
            ),
{
    let n = world.len();
    let mut i: usize = 0;
    while i < n
        invariant
            i <= n,
            n == old(world)@.len(),
            world@.len() == n,
            forall|j: int|
                0 <= j < i ==> #[trigger] world@[j] == cooled(old(world)@[j], time.elapsed()),
            forall|j: int| i <= j < n ==> #[trigger] world@[j] == old(world)@[j],
        decreases n - i,
    {
        if let Some(c) = world.get(Entity(i)) {
            if let Some(w) = c.weapon {
                let mut timer = w.fire_timer;
                timer.tick(time.delta());
                let mut cooled = c;
                cooled.weapon = Some(Weapon { fire_timer: timer, ..w });
                world.set(Entity(i), cooled);
            }
        }
        i = i + 1;
    }
}

} // verus!
