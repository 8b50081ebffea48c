use kotlot::collision::ColliderType;
use kotlot::components::Components;
use kotlot::components::Entity;
use kotlot::components::Movement;
use kotlot::components::Transform;
use kotlot::components::UserControlled;
use kotlot::input::action_system;
use kotlot::input::orientation_system;
use kotlot::input::spawn_cursor_collider;
use kotlot::input::Action;
use kotlot::input::CursorSelection;
use kotlot::math::Rotation;
use kotlot::math::Vec2;
use kotlot::math::Vec3;
use kotlot::spaceship::Spaceship;
use kotlot::spaceship::Weapon;
use kotlot::time::Time;
use kotlot::time::Timer;
use kotlot::weapon::FireWeaponEvent;
use kotlot::world::World;
use ncollide2d::pipeline::CollisionObjectSlabHandle;

fn frame(delta: u32) -> Time {
    let seconds = delta as f64 / 1000.0;
    let mut table: Vec<u32> = Vec::new();
    for d in 0..=1000u32 {
        let mut factor = ((d as f64 / 1000.0).powf(seconds) * 1000.0).round() as u32;
        if delta <= 1000 {
            factor = factor.max(d);
        }
        if delta >= 1000 {
            factor = factor.min(d);
        }
        factor = factor.max(table.last().copied().unwrap_or(0)).min(1000);
        table.push(factor);
    }
    Time::new(delta, table).unwrap()
}

fn steered(cos: i32, sin: i32) -> Components {
    let mut c = Components::empty();
    c.user_controlled = Some(UserControlled {});
    c.spaceship = Some(Spaceship { max_angvel: 6283, max_linvel: 300_000, max_latvel: 200_000 });
    c.movement = Some(Movement { speed: Vec2::new(1000, 2000), dampening: 100 });
    c.transform = Some(Transform {
        translation: Vec3::new(5, 6, 7),
        rotation: Rotation { cos, sin },
        scale: 300,
    });
    c.weapon = Some(Weapon { fire_timer: Timer::from_seconds(1000, false), munition_lifespan: 500 });
    c
}

fn speed_after(action: Action, cos: i32, sin: i32, delta: u32) -> Vec2 {
    let mut world = World::new();
    let ship = world.spawn(steered(cos, sin));
    let out = action_system(&vec![action], &frame(delta), &mut world);
    assert!(!out.quit);
    assert!(out.fire_events.is_empty());
    let c = world.get(ship).unwrap();
    assert_eq!(c.transform, steered(cos, sin).transform);
    assert_eq!(c.weapon, steered(cos, sin).weapon);
    c.movement.unwrap().speed
}

#[test]
fn each_action_has_its_name() {
    assert_eq!(Action::Forward.name(), "FORWARD");
    assert_eq!(Action::Backward.name(), "BACKWARD");
    assert_eq!(Action::RcsLeft.name(), "RCS_LEFT");
    assert_eq!(Action::RcsRight.name(), "RCS_RIGHT");
    assert_eq!(Action::Shoot1.name(), "SHOOT_1");
    assert_eq!(Action::QuitApp.name(), "QUIT_APP");
}

#[test]
fn the_main_thrusters_push_along_the_heading() {
    assert_eq!(speed_after(Action::Forward, 1000, 0, 100), Vec2::new(31_000, 2000));
    assert_eq!(speed_after(Action::Backward, 1000, 0, 100), Vec2::new(-29_000, 2000));
    assert_eq!(speed_after(Action::Forward, 600, -800, 100), Vec2::new(19_000, -22_000));
    assert_eq!(speed_after(Action::Backward, 600, -800, 100), Vec2::new(-17_000, 26_000));
    assert_eq!(speed_after(Action::Forward, 0, 1000, 16), Vec2::new(1000, 6800));
    assert_eq!(speed_after(Action::Forward, 1000, 0, 0), Vec2::new(1000, 2000));
}

#[test]
fn the_side_thrusters_push_across_the_heading() {
    assert_eq!(speed_after(Action::RcsLeft, 1000, 0, 100), Vec2::new(1000, 22_000));
    assert_eq!(speed_after(Action::RcsRight, 1000, 0, 100), Vec2::new(1000, -18_000));
    assert_eq!(speed_after(Action::RcsLeft, 0, 1000, 100), Vec2::new(-19_000, 2000));
    assert_eq!(speed_after(Action::RcsRight, 0, 1000, 100), Vec2::new(21_000, 2000));
    assert_eq!(speed_after(Action::RcsLeft, 600, -800, 100), Vec2::new(17_000, 14_000));
}

#[test]
fn thrust_stops_at_what_a_speed_holds() {
    let mut world = World::new();
    let mut c = steered(i32::MIN, i32::MAX);
    c.spaceship = Some(Spaceship { max_angvel: 0, max_linvel: i32::MAX, max_latvel: i32::MIN });
    let ship = world.spawn(c);
    action_system(&vec![Action::Backward], &frame(u32::MAX), &mut world);
    assert_eq!(world.get(ship).unwrap().movement.unwrap().speed, Vec2::new(i32::MAX, i32::MIN));
    action_system(&vec![Action::RcsLeft], &frame(u32::MAX), &mut world);
    assert_eq!(world.get(ship).unwrap().movement.unwrap().speed, Vec2::new(i32::MAX, i32::MAX));
}

#[test]
fn shooting_waits_for_the_cooldown_and_starts_it_again() {
    let mut world = World::new();
    let ship = world.spawn(steered(1000, 0));
    let out = action_system(&vec![Action::Shoot1], &frame(16), &mut world);
    assert!(out.fire_events.is_empty());
    assert_eq!(world.get(ship).unwrap().weapon, steered(1000, 0).weapon);
    let mut c = world.get(ship).unwrap();
    let mut w = c.weapon.unwrap();
    w.fire_timer.tick(1000);
    c.weapon = Some(w);
    world.set(ship, c);
    let out = action_system(&vec![Action::Shoot1, Action::Shoot1], &frame(16), &mut world);
    assert_eq!(out.fire_events, vec![FireWeaponEvent { ship_entity: ship, munition_lifespan: 500 }]);
    assert!(!out.quit);
    let w = world.get(ship).unwrap().weapon.unwrap();
    assert_eq!(w.fire_timer, Timer::from_seconds(1000, false));
    assert_eq!(w.munition_lifespan, 500);
    assert_eq!(world.get(ship).unwrap().movement, steered(1000, 0).movement);
}

#[test]
fn leaving_is_noted_and_touches_no_ship() {
    let mut world = World::new();
    let ship = world.spawn(steered(1000, 0));
    let out = action_system(&vec![Action::QuitApp], &frame(16), &mut world);
    assert!(out.quit);
    assert!(out.fire_events.is_empty());
    assert_eq!(world.get(ship).unwrap().movement, steered(1000, 0).movement);
    let out = action_system(&vec![Action::QuitApp, Action::Forward], &frame(100), &mut world);
    assert!(out.quit);
    assert_eq!(world.get(ship).unwrap().movement.unwrap().speed, Vec2::new(31_000, 2000));
    let out = action_system(&Vec::new(), &frame(100), &mut world);
    assert!(!out.quit);
}

#[test]
fn actions_add_up_in_their_order_on_every_steered_ship() {
    let mut world = World::new();
    let a = world.spawn(steered(1000, 0));
    let mut unsteered = steered(1000, 0);
    unsteered.user_controlled = None;
    let b = world.spawn(unsteered);
    let mut unarmed = steered(1000, 0);
    unarmed.weapon = None;
    let c = world.spawn(unarmed);
    let d = world.spawn(steered(0, 1000));
    let actions = vec![Action::Forward, Action::Forward, Action::RcsLeft];
    action_system(&actions, &frame(100), &mut world);
    assert_eq!(world.get(a).unwrap().movement.unwrap().speed, Vec2::new(61_000, 22_000));
    assert_eq!(world.get(b).unwrap().movement.unwrap().speed, Vec2::new(1000, 2000));
    assert_eq!(world.get(c).unwrap().movement.unwrap().speed, Vec2::new(1000, 2000));
    assert_eq!(world.get(d).unwrap().movement.unwrap().speed, Vec2::new(-19_000, 62_000));
}

#[test]
fn the_cursor_gets_an_entity_for_its_collider() {
    let mut world = World::new();
    world.spawn(Components::empty());
    let cursor = spawn_cursor_collider(&mut world);
    assert_eq!(cursor, Entity(1));
    let c = world.get(cursor).unwrap();
    assert_eq!(c.collider_type, Some(ColliderType::Cursor));
    assert!(c.transform.is_none());
    assert!(c.collider.is_none());
    let selection = CursorSelection::new(CollisionObjectSlabHandle(3));
    assert_eq!(selection.cursor_collider_handle, CollisionObjectSlabHandle(3));
    assert!(selection.enemies.is_empty());
    assert!(selection.loots.is_empty());
}

#[test]
fn what_the_player_steers_turns_towards_the_cursor() {
    let mut world = World::new();
    let ship = world.spawn(steered(1000, 0));
    let mut other = steered(1000, 0);
    other.user_controlled = None;
    let other = world.spawn(other);
    let mut unplaced = steered(1000, 0);
    unplaced.transform = None;
    let unplaced = world.spawn(unplaced);
    orientation_system(Vec2::new(3005, -3994), &mut world);
    let t = world.get(ship).unwrap().transform.unwrap();
    assert_eq!(t.rotation, Rotation { cos: 600, sin: -800 });
    assert_eq!(t.translation, Vec3::new(5, 6, 7));
    assert_eq!(t.scale, 300);
    assert_eq!(world.get(ship).unwrap().movement, steered(1000, 0).movement);
    assert_eq!(world.get(other).unwrap().transform, steered(1000, 0).transform);
    assert!(world.get(unplaced).unwrap().transform.is_none());
    orientation_system(Vec2::new(5, 6), &mut world);
    assert_eq!(
        world.get(ship).unwrap().transform.unwrap().rotation,
        Rotation { cos: 1000, sin: 0 }
    );
    orientation_system(Vec2::new(5, 5), &mut world);
    assert_eq!(
        world.get(ship).unwrap().transform.unwrap().rotation,
        Rotation { cos: 0, sin: -1000 }
    );
}
