//! What enemies leave behind.
use vstd::prelude::*;
use crate::arena::ArenaExt;
use crate::arena::sprouted;
use crate::chance::gen_range;
use crate::collision::ColliderType;
use crate::components::Components;
use crate::components::Entity;
use crate::components::Material;
use crate::components::Outline;
use crate::components::SpriteComponents;
use crate::components::Transform;
use crate::math::clamp;
use crate::math::div_trunc;
use crate::math::Rotation;
use crate::math::saturate;
use crate::math::scale;
use crate::math::scaled;
use crate::math::unscaled;
use crate::math::Vec2;
use crate::math::Vec3;
use crate::time::Time;
use crate::world::Slots;
use crate::world::World;

verus! {

#[derive(Clone, Copy, PartialEq, Eq, Debug, Structural)]
pub struct LootEvent {
    pub position: Vec2,
}

#[derive(Clone, Copy, PartialEq, Eq, Debug, Structural)]
pub enum Loot {
    /// The new rate of fire, in hundredths of the old.
    IncreasedRateOfFire(u32),
    /// The new lifespan of munitions, in hundredths of the old.
    IncreasedMunitionDuration(u32),
    /// The draw that leaves nothing.
    Nothing,
}

/// Makes a sprite pulse between two sizes.
#[derive(Clone, Copy, PartialEq, Eq, Debug, Structural)]
pub struct TweenScale {
    pub min: i32,
    pub max: i32,
    pub period: u32,
    pub increase: bool,
    /// Change of size per second.
    pub rate: i32,
}

/// The depth at which loot is drawn.
pub const LOOT_DEPTH: i32 = -200;

/// The size at which loot is spawned.
pub const LOOT_SCALE: i32 = 500;

/// How many outcomes the draw for loot has.
pub const LOOT_OUTCOMES: i32 = 3;

impl Loot {
    /// The image that shows the loot; the draw that leaves nothing has
    /// none.
    pub open spec fn image(self) -> Material {
        match self {
            Loot::IncreasedRateOfFire(_) => Material::BoltSilver,
            _ => Material::BoltBronze,
        }
    }

    pub fn material(&self) -> (material: Material)
        requires
            *self != Loot::Nothing,
        ensures
            material == self.image(),
    {
        match self {
            Loot::IncreasedRateOfFire(_) => Material::BoltSilver,
            _ => Material::BoltBronze,
        }
    }

    /// The name of the file that holds the image of the loot.
    pub fn get_asset(&self) -> (name: String)
        requires
            *self != Loot::Nothing,
        ensures
            name@ == self.image().file(),
    {
        self.material().asset()
    }
}

/// What a draw brings: of three outcomes, one is a higher rate of fire, one
/// a longer munition duration, and one nothing.
pub open spec fn loot_drawn(draw: i32) -> Loot {
    if draw == 0 {
        Loot::IncreasedRateOfFire(200)
    } else if draw == 1 {
        Loot::IncreasedMunitionDuration(150)
    } else {
        Loot::Nothing
    }
}

/// How fast a size has to change, per second, to go from `min` to `max` and
/// back within `period`.
pub open spec fn tween_rate(min: i32, max: i32, period: u32) -> i32 {
    unscaled(2 * (max - min), period as int) as i32
}

/// The pulse that loot is spawned with.
pub open spec fn loot_tween() -> TweenScale {
    TweenScale {
        min: 400,
        max: 750,
        period: 1000,
        increase: true,
        rate: tween_rate(400, 750, 1000),
    }
}

/// What loot is spawned with, but for its ghosts.
pub open spec fn loot_components(position: Vec2, loot: Loot) -> Components {
    Components {
        transform: Some(
            Transform {
                translation: Vec3 { x: position.x, y: position.y, z: LOOT_DEPTH },
                rotation: Rotation { cos: 1000, sin: 0 },
                scale: LOOT_SCALE,
            },
        ),
        material: Some(loot.image()),
        loot: Some(loot),
        collider_type: Some(ColliderType::Loot),
        tween_scale: Some(loot_tween()),
        outline: Some(Outline { with_outline: false }),
        ..Components::empty_spec()
    }
}

/// The store once `loot` has dropped at `position`: nothing changes for the
/// draw that leaves nothing; any other loot is a new entity with three
/// ghosts after it.
pub open spec fn dropped(slots: Slots, position: Vec2, loot: Loot) -> Slots {
    if loot == Loot::Nothing {
        slots
    } else {
        sprouted(slots, loot_components(position, loot), loot.image())
    }
}

/// The store once the loot of each draw has dropped at the place of its
/// event, in the order of the events.
pub open spec fn dropped_all(
    slots: Slots,
    events: Seq<LootEvent>,
    draws: Seq<i32>,
) -> Slots
    decreases events.len(),
{
    if events.len() == 0 || draws.len() != events.len() {
        slots
    } else {
        dropped(
            dropped_all(slots, events.drop_last(), draws.drop_last()),
            events.last().position,
            loot_drawn(draws.last()),
        )
    }
}

/// The entities that the draws have spawned, in the order of the events.
pub open spec fn drops_of(
    slots: Slots,
    events: Seq<LootEvent>,
    draws: Seq<i32>,
) -> Seq<Entity>
    decreases events.len(),
{
    if events.len() == 0 || draws.len() != events.len() {
        Seq::empty()
    } else {
        let before = drops_of(slots, events.drop_last(), draws.drop_last());
        if loot_drawn(draws.last()) == Loot::Nothing {
            before
        } else {
            before.push(
                Entity(dropped_all(slots, events.drop_last(), draws.drop_last()).len() as usize),
            )
        }
    }
}

/// Every draw is one of the outcomes.
pub open spec fn draws_ok(draws: Seq<i32>) -> bool {
    forall|i: int| 0 <= i < draws.len() ==> 0 <= #[trigger] draws[i] < LOOT_OUTCOMES
}

/// What a draw brings.
pub fn loot_for(draw: i32) -> (loot: Loot)
    ensures
        loot == loot_drawn(draw),
{
    if draw == 0 {
        Loot::IncreasedRateOfFire(200)
    } else if draw == 1 {
        Loot::IncreasedMunitionDuration(150)
    } else {
        Loot::Nothing
    }
}

/// Drops `loot` at `position`, and names the entity that holds it, if the
/// loot is anything.
pub fn spawn_loot(world: &mut World, position: Vec2, loot: Loot) -> (spawned: Option<Entity>)
    ensures
        final(world)@ == dropped(old(world)@, position, loot),
        spawned == if loot == Loot::Nothing {
            None
        } else {
            Some(Entity(old(world)@.len() as usize))
        },
{
    if loot == Loot::Nothing {
        return None;
    }
    let entity = world.spawn_with_ghosts(
        SpriteComponents {
            material: loot.material(),
            transform: Transform {
                translation: Vec3 { x: position.x, y: position.y, z: LOOT_DEPTH },
                rotation: Rotation { cos: 1000, sin: 0 },
                scale: LOOT_SCALE,
            },
        },
    );
    let mut c = world.get(entity).unwrap();
    c.loot = Some(loot);
    c.collider_type = Some(ColliderType::Loot);
    c.tween_scale = Some(TweenScale::new(400, 750, 1000));
    c.outline = Some(Outline { with_outline: false });
    world.set(entity, c);
    assert(world@ =~= dropped(old(world)@, position, loot));
    Some(entity)
}

/// For each event, draws what the enemy leaves behind and drops it where
/// the enemy stood. Returns the entities that hold the loot, for which
/// colliders are still to be made.
pub fn loot_spawn_system(events: &Vec<LootEvent>, world: &mut World) -> (spawned: Vec<Entity>)
    ensures
        exists|draws: Seq<i32>|
            draws.len() == events@.len() && draws_ok(draws) && final(world)@ == dropped_all(
                old(world)@,
                events@,
                draws,
            ) && spawned@ == drops_of(old(world)@, events@, draws),
{
    let mut spawned: Vec<Entity> = Vec::new();
    let ghost mut draws: Seq<i32> = Seq::empty();
    let mut i: usize = 0;
    while i < events.len()
        invariant
            i <= events.len(),
            draws.len() == i,
            draws_ok(draws),
            world@ == dropped_all(old(world)@, events@.take(i as int), draws),
            spawned@ == drops_of(old(world)@, events@.take(i as int), draws),
        decreases events.len() - i,
    {
        let draw = gen_range(0, LOOT_OUTCOMES);
        proof {
            let upto = events@.take(i + 1);
            assert(upto.drop_last() == events@.take(i as int));
            assert(upto.last() == events@[i as int]);
            assert(draws.push(draw).drop_last() == draws);
            draws = draws.push(draw);
        }
        if let Some(entity) = spawn_loot(world, events[i].position, loot_for(draw)) {
            spawned.push(entity);
        }
        i = i + 1;
    }
    assert(events@.take(events.len() as int) == events@);
    spawned
}

impl TweenScale {
    /// A pulse from `min` to `max` and back within `period`, which starts by
    /// growing.
    pub fn new(min: i32, max: i32, period: u32) -> (tween: TweenScale)
        ensures
            tween == (TweenScale {
                min,
                max,
                period,
                increase: true,
                rate: tween_rate(min, max, period),
            }),
    {
        let span: i64 = 2 * ((max as i64) - (min as i64));
        let rate: i32 = if period > 0 {
            saturate(div_trunc(span * 1000, period as i64))
        } else if span > 0 {
            i32::MAX
        } else if span < 0 {
            i32::MIN
        } else {
            0
        };
        TweenScale { min, max, period, increase: true, rate }
    }
}

/// A size and its pulse after `delta` thousandths of a second: the size
/// moves on in the direction of the pulse, and the pulse turns round once
/// the size has passed the bound it was heading for.
pub open spec fn pulsed(size: i32, tween: TweenScale, delta: u32) -> (i32, TweenScale) {
    let change = scaled(tween.rate as int, clamp(delta as int));
    if tween.increase {
        let grown = clamp(size + change) as i32;
        (grown, TweenScale { increase: !(grown > tween.max), ..tween })
    } else {
        let shrunk = clamp(size - change) as i32;
        (shrunk, TweenScale { increase: shrunk < tween.min, ..tween })
    }
}

/// The slot `slot` after a frame of pulsing.
pub open spec fn tweened(slot: Option<Components>, delta: u32) -> Option<Components> {
    match slot {
        Some(c) => match (c.transform, c.tween_scale) {
            (Some(t), Some(tween)) => Some(
                Components {
                    transform: Some(Transform { scale: pulsed(t.scale, tween, delta).0, ..t }),
                    tween_scale: Some(pulsed(t.scale, tween, delta).1),
                    ..c
                },
            ),
            _ => Some(c),
        },
        None => None,
    }
}

/// Lets every pulsing sprite grow or shrink for one frame.
pub fn tweenscale_system(time: &Time, world: &mut World)
    ensures
        final(world)@.len() == old(world)@.len(),
        forall|i: int|
            0 <= i < old(world)@.len() ==> #[trigger] final(world)@[i] == tweened(
                old(world)@[i],
                time.elapsed(),
            ),
{
    let n = world.len();
    let delta: i32 = if time.delta() > 2147483647 {
        2147483647
    } else {
        time.delta() as i32
    };
    let mut i: usize = 0;
    while i < n
        invariant
            i <= n,
            n == old(world)@.len(),
            world@.len() == n,
            delta == clamp(time.elapsed() as int),
            forall|j: int|
                0 <= j < i ==> #[trigger] world@[j] == tweened(old(world)@[j], time.elapsed()),
            forall|j: int| i <= j < n ==> #[trigger] world@[j] == old(world)@[j],
        decreases n - i,
    {
        if let Some(c) = world.get(Entity(i)) {
            if let Some(t) = c.transform {
                if let Some(tween) = c.tween_scale {
                    let change: i64 = scale(tween.rate, delta) as i64;
                    let mut pulse = tween;
                    let size: i32;
                    if tween.increase {
                        size = saturate((t.scale as i64) + change);
                        if size > tween.max {
                            pulse.increase = false;
                        }
                    } else {
                        size = saturate((t.scale as i64) - change);
                        if size < tween.min {
                            pulse.increase = true;
                        }
                    }
                    let mut moved = c;
                    moved.transform = Some(Transform { scale: size, ..t });
                    moved.tween_scale = Some(pulse);
                    world.set(Entity(i), moved);
                }
            }
        }
        i = i + 1;
    }
}

} // verus!
