use kotlot::collision::ColliderType;
use kotlot::components::Components;
use kotlot::components::Entity;
use kotlot::components::Material;
use kotlot::components::Outline;
use kotlot::components::Transform;
use kotlot::loot::loot_for;
use kotlot::loot::loot_spawn_system;
use kotlot::loot::spawn_loot;
use kotlot::loot::tweenscale_system;
use kotlot::loot::Loot;
use kotlot::loot::LootEvent;
use kotlot::loot::TweenScale;
use kotlot::math::Rotation;
use kotlot::math::Vec2;
use kotlot::math::Vec3;
use kotlot::time::Time;
use kotlot::world::World;

fn frame(delta: u32) -> Time {
    let seconds = delta as f64 / 1000.0;
    let mut table: Vec<u32> = Vec::new();
    for d in 0..=1000u32 {
        let mut factor = ((d as f64 / 1000.0).powf(seconds) * 1000.0).round() as u32;
        if delta <= 1000 {
            factor = factor.max(d);
        }
        if delta >= 1000 {
            factor = factor.min(d);
        }
        factor = factor.max(table.last().copied().unwrap_or(0)).min(1000);
        table.push(factor);
    }
    Time::new(delta, table).unwrap()
}

fn pulsing(scale: i32, tween: TweenScale) -> Components {
    let mut c = Components::empty();
    c.transform = Some(Transform {
        translation: Vec3::new(1, 2, 3),
        rotation: Rotation { cos: 1000, sin: 0 },
        scale,
    });
    c.tween_scale = Some(tween);
    c
}

#[test]
fn each_draw_brings_its_loot() {
    assert_eq!(loot_for(0), Loot::IncreasedRateOfFire(200));
    assert_eq!(loot_for(1), Loot::IncreasedMunitionDuration(150));
    assert_eq!(loot_for(2), Loot::Nothing);
    assert_eq!(loot_for(3), Loot::Nothing);
    assert_eq!(loot_for(-1), Loot::Nothing);
}

#[test]
fn each_loot_has_its_image() {
    assert_eq!(Loot::IncreasedRateOfFire(200).get_asset(), "bolt_silver.png");
    assert_eq!(Loot::IncreasedMunitionDuration(150).get_asset(), "bolt_bronze.png");
    assert_eq!(Loot::IncreasedRateOfFire(0).material(), Material::BoltSilver);
    assert_eq!(Loot::IncreasedMunitionDuration(0).material(), Material::BoltBronze);
}

#[test]
fn loot_drops_where_the_enemy_stood_with_ghosts_and_a_pulse() {
    let mut world = World::new();
    world.spawn(Components::empty());
    let loot = Loot::IncreasedMunitionDuration(150);
    let entity = spawn_loot(&mut world, Vec2::new(100_000, -100_000), loot).unwrap();
    assert_eq!(entity, Entity(1));
    assert_eq!(world.len(), 5);
    let c = world.get(entity).unwrap();
    assert_eq!(
        c.transform,
        Some(Transform {
            translation: Vec3::new(100_000, -100_000, -200),
            rotation: Rotation { cos: 1000, sin: 0 },
            scale: 500,
        })
    );
    assert_eq!(c.material, Some(Material::BoltBronze));
    assert_eq!(c.loot, Some(loot));
    assert_eq!(c.collider_type, Some(ColliderType::Loot));
    assert_eq!(
        c.tween_scale,
        Some(TweenScale { min: 400, max: 750, period: 1000, increase: true, rate: 700 })
    );
    assert_eq!(c.outline, Some(Outline { with_outline: false }));
    assert!(c.collider.is_none());
    assert_eq!(c.ghost_children.unwrap().0, [Entity(2), Entity(3), Entity(4)]);
    for k in 2..5 {
        let g = world.get(Entity(k)).unwrap();
        assert_eq!(g.material, Some(Material::BoltBronze));
        assert_eq!(g.sprite_ghost.unwrap().parent(), entity);
        assert!(g.loot.is_none());
    }
}

#[test]
fn the_draw_that_leaves_nothing_drops_nothing() {
    let mut world = World::new();
    assert!(spawn_loot(&mut world, Vec2::new(1, 1), Loot::Nothing).is_none());
    assert_eq!(world.len(), 0);
}

#[test]
fn every_drawn_loot_is_one_of_the_outcomes_and_all_of_them_come_up() {
    let mut world = World::new();
    let events: Vec<LootEvent> =
        (0..600).map(|i| LootEvent { position: Vec2::new(i, -i) }).collect();
    let spawned = loot_spawn_system(&events, &mut world);
    assert_eq!(world.len(), 4 * spawned.len());
    assert!(spawned.len() < 600);
    let mut silver = 0;
    let mut bronze = 0;
    for (k, entity) in spawned.iter().enumerate() {
        assert_eq!(*entity, Entity(4 * k));
        let c = world.get(*entity).unwrap();
        let t = c.transform.unwrap().translation;
        assert_eq!(t.x, -t.y);
        assert!((0..600).contains(&t.x));
        assert_eq!(t.z, -200);
        match c.loot.unwrap() {
            Loot::IncreasedRateOfFire(p) => {
                assert_eq!(p, 200);
                assert_eq!(c.material, Some(Material::BoltSilver));
                silver += 1;
            }
            Loot::IncreasedMunitionDuration(p) => {
                assert_eq!(p, 150);
                assert_eq!(c.material, Some(Material::BoltBronze));
                bronze += 1;
            }
            Loot::Nothing => panic!("nothing was dropped as loot"),
        }
    }
    assert!(silver > 0);
    assert!(bronze > 0);
    for pair in spawned.windows(2) {
        let a = world.get(pair[0]).unwrap().transform.unwrap().translation.x;
        let b = world.get(pair[1]).unwrap().transform.unwrap().translation.x;
        assert!(a < b);
    }
}

#[test]
fn no_event_no_loot() {
    let mut world = World::new();
    assert!(loot_spawn_system(&Vec::new(), &mut world).is_empty());
    assert_eq!(world.len(), 0);
}

#[test]
fn the_rate_of_a_pulse_covers_the_span_in_half_a_period() {
    assert_eq!(
        TweenScale::new(400, 750, 1000),
        TweenScale { min: 400, max: 750, period: 1000, increase: true, rate: 700 }
    );
    assert_eq!(TweenScale::new(400, 750, 2000).rate, 350);
    assert_eq!(TweenScale::new(400, 750, 500).rate, 1400);
    assert_eq!(TweenScale::new(750, 400, 1000).rate, -700);
    assert_eq!(TweenScale::new(0, 1, 3000).rate, 0);
    assert_eq!(TweenScale::new(5, 5, 0).rate, 0);
    assert_eq!(TweenScale::new(400, 750, 0).rate, i32::MAX);
    assert_eq!(TweenScale::new(750, 400, 0).rate, i32::MIN);
    assert_eq!(TweenScale::new(i32::MIN, i32::MAX, 1).rate, i32::MAX);
    assert_eq!(TweenScale::new(i32::MAX, i32::MIN, 1).rate, i32::MIN);
}

#[test]
fn a_pulse_grows_past_its_upper_bound_and_then_shrinks() {
    let mut world = World::new();
    let e = world.spawn(pulsing(500, TweenScale::new(400, 750, 1000)));
    let time = frame(100);
    let mut sizes = Vec::new();
    let mut growing = Vec::new();
    for _ in 0..10 {
        tweenscale_system(&time, &mut world);
        let c = world.get(e).unwrap();
        sizes.push(c.transform.unwrap().scale);
        growing.push(c.tween_scale.unwrap().increase);
    }
    assert_eq!(sizes, vec![570, 640, 710, 780, 710, 640, 570, 500, 430, 360]);
    assert_eq!(growing, vec![true, true, true, false, false, false, false, false, false, true]);
    tweenscale_system(&time, &mut world);
    assert_eq!(world.get(e).unwrap().transform.unwrap().scale, 430);
    let c = world.get(e).unwrap();
    assert_eq!(c.transform.unwrap().translation, Vec3::new(1, 2, 3));
    assert_eq!(c.tween_scale.unwrap().rate, 700);
}

#[test]
fn a_pulse_turns_only_once_the_bound_is_passed() {
    let mut world = World::new();
    let e = world.spawn(pulsing(680, TweenScale::new(400, 750, 1000)));
    tweenscale_system(&frame(100), &mut world);
    let c = world.get(e).unwrap();
    assert_eq!(c.transform.unwrap().scale, 750);
    assert!(c.tween_scale.unwrap().increase);
    let mut down = TweenScale::new(400, 750, 1000);
    down.increase = false;
    let f = world.spawn(pulsing(470, down));
    tweenscale_system(&frame(100), &mut world);
    let c = world.get(f).unwrap();
    assert_eq!(c.transform.unwrap().scale, 400);
    assert!(!c.tween_scale.unwrap().increase);
}

#[test]
fn only_what_has_a_place_and_a_pulse_pulses() {
    let mut world = World::new();
    let mut placed = Components::empty();
    placed.transform = Some(Transform::identity());
    let placed = world.spawn(placed);
    let mut unplaced = Components::empty();
    unplaced.tween_scale = Some(TweenScale::new(400, 750, 1000));
    let unplaced = world.spawn(unplaced);
    tweenscale_system(&frame(100), &mut world);
    assert_eq!(world.get(placed).unwrap().transform, Some(Transform::identity()));
    assert_eq!(world.get(unplaced).unwrap().tween_scale, Some(TweenScale::new(400, 750, 1000)));
    assert!(world.get(unplaced).unwrap().transform.is_none());
}

#[test]
fn a_pulse_stops_at_what_a_size_holds() {
    let mut world = World::new();
    let e = world.spawn(pulsing(i32::MAX - 1, TweenScale::new(0, 10, 0)));
    tweenscale_system(&frame(u32::MAX), &mut world);
    let c = world.get(e).unwrap();
    assert_eq!(c.transform.unwrap().scale, i32::MAX);
    assert!(!c.tween_scale.unwrap().increase);
    tweenscale_system(&frame(u32::MAX), &mut world);
    let c = world.get(e).unwrap();
    assert_eq!(c.transform.unwrap().scale, 0);
}
