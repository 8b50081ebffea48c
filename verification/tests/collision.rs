use kotlot::arena::ArenaExt;
use kotlot::armor::Armor;
use kotlot::collision::all_ready;
use kotlot::collision::all_typed;
use kotlot::collision::attach_collider;
use kotlot::collision::collide_position_system;
use kotlot::collision::collision_event_system;
use kotlot::collision::collision_system;
use kotlot::collision::setup_ncollide;
use kotlot::collision::Attachment;
use kotlot::collision::ColliderType;
use kotlot::collision::CollisionEvent;
use kotlot::collision::Cue;
use kotlot::components::Components;
use kotlot::components::Enemy;
use kotlot::components::Entity;
use kotlot::components::Material;
use kotlot::components::SpriteComponents;
use kotlot::components::Transform;
use kotlot::input::CursorSelection;
use kotlot::loot::Loot;
use kotlot::loot::LootEvent;
use kotlot::math::Rotation;
use kotlot::math::Vec2;
use kotlot::math::Vec3;
use kotlot::spaceship::Weapon;
use kotlot::spaceship::XpEvent;
use kotlot::time::Timer;
use kotlot::weapon::DamageDealer;
use kotlot::weapon::DamageKind;
use kotlot::world::World;
use ncollide2d::pipeline::CollisionObjectSlabHandle;

const KINDS: [ColliderType; 5] = [
    ColliderType::Ship,
    ColliderType::Enemy,
    ColliderType::Missile,
    ColliderType::Loot,
    ColliderType::Cursor,
];

fn at(x: i32, y: i32) -> Transform {
    Transform {
        translation: Vec3::new(x, y, -8000),
        rotation: Rotation { cos: 1000, sin: 0 },
        scale: 500,
    }
}

fn typed(world: &mut World, kind: ColliderType) -> Entity {
    let mut c = Components::empty();
    c.collider_type = Some(kind);
    world.spawn(c)
}

fn enemy(world: &mut World, x: i32, y: i32, life: u32, xp: Option<u32>) -> Entity {
    let e = world.spawn_with_ghosts(SpriteComponents { material: Material::Meteor, transform: at(x, y) });
    let mut c = world.get(e).unwrap();
    c.armor = Some(Armor::new(life));
    c.enemy = xp.map(|xp| Enemy { xp });
    c.collider_type = Some(ColliderType::Enemy);
    c.collider = Some(CollisionObjectSlabHandle(1000 + e.0));
    world.set(e, c);
    e
}

fn missile(world: &mut World, source: Entity, value: u32) -> Entity {
    let m = world.spawn_with_ghosts(SpriteComponents { material: Material::LaserRed, transform: at(0, 0) });
    let mut c = world.get(m).unwrap();
    c.damage_dealer = Some(DamageDealer { source, kind: DamageKind::Energy, value });
    c.collider_type = Some(ColliderType::Missile);
    c.collider = Some(CollisionObjectSlabHandle(1000 + m.0));
    world.set(m, c);
    m
}

fn ship(world: &mut World, weapon: Option<Weapon>) -> Entity {
    let mut c = Components::empty();
    c.transform = Some(at(0, 0));
    c.weapon = weapon;
    c.collider_type = Some(ColliderType::Ship);
    world.spawn(c)
}

fn loot(world: &mut World, what: Loot) -> Entity {
    let l = world.spawn_with_ghosts(SpriteComponents { material: Material::BoltSilver, transform: at(7, 7) });
    let mut c = world.get(l).unwrap();
    c.loot = Some(what);
    c.collider_type = Some(ColliderType::Loot);
    c.collider = Some(CollisionObjectSlabHandle(1000 + l.0));
    world.set(l, c);
    l
}

fn weapon(duration: u32, lifespan: u32) -> Weapon {
    Weapon { fire_timer: Timer::from_seconds(duration, false), munition_lifespan: lifespan }
}

fn life(world: &World, e: Entity) -> u32 {
    world.get(e).unwrap().armor.unwrap().life
}

fn gone_with_ghosts(world: &World, e: Entity) -> bool {
    (0..4).all(|k| !world.contains(Entity(e.0 + k)))
}

#[test]
fn each_kind_is_in_its_own_group_and_whitelists_what_it_lets_touch_it() {
    let groups = setup_ncollide();
    let own = [1usize, 2, 3, 4, 5];
    let allowed: [&[usize]; 5] = [&[2, 3, 4], &[1, 2, 3, 5], &[2], &[1, 5], &[2, 4]];
    for (i, kind) in KINDS.iter().enumerate() {
        let g = groups.groups(*kind);
        for id in 0..30usize {
            assert_eq!(g.is_member_of(id), id == own[i]);
            assert_eq!(g.is_group_whitelisted(id), allowed[i].contains(&id));
            assert!(!g.is_group_blacklisted(id));
        }
    }
}

#[test]
fn the_backend_lets_interact_what_the_table_lets_collide() {
    let groups = setup_ncollide();
    let table = [
        [false, true, false, true, false],
        [true, true, true, false, true],
        [false, true, false, false, false],
        [true, false, false, false, true],
        [false, true, false, true, false],
    ];
    for (i, a) in KINDS.iter().enumerate() {
        for (j, b) in KINDS.iter().enumerate() {
            let ga = groups.groups(*a);
            let gb = groups.groups(*b);
            assert_eq!(ga.can_interact_with_groups(&gb), table[i][j]);
            assert_eq!(table[i][j], table[j][i]);
        }
    }
}

#[test]
fn asking_the_backend_gives_what_the_table_says() {
    let groups = setup_ncollide();
    let lets: [&[ColliderType]; 5] = [
        &[ColliderType::Enemy, ColliderType::Missile, ColliderType::Loot],
        &[ColliderType::Ship, ColliderType::Enemy, ColliderType::Missile, ColliderType::Cursor],
        &[ColliderType::Enemy],
        &[ColliderType::Ship, ColliderType::Cursor],
        &[ColliderType::Enemy, ColliderType::Loot],
    ];
    let mut colliding = 0;
    for (i, a) in KINDS.iter().enumerate() {
        for (j, b) in KINDS.iter().enumerate() {
            let expected = lets[i].contains(b) && lets[j].contains(a);
            assert_eq!(groups.can_collide(*a, *b), expected);
            assert_eq!(groups.can_collide(*b, *a), expected);
            if expected {
                colliding += 1;
            }
        }
    }
    assert_eq!(colliding, 11);
    assert!(groups.can_collide(ColliderType::Enemy, ColliderType::Enemy));
    assert!(!groups.can_collide(ColliderType::Ship, ColliderType::Ship));
    assert!(!groups.can_collide(ColliderType::Ship, ColliderType::Missile));
}

#[test]
fn the_groups_of_a_kind_are_the_fields_of_that_kind() {
    let groups = setup_ncollide();
    assert!(groups.ships.is_member_of(1));
    assert!(groups.enemies.is_member_of(2));
    assert!(groups.missiles.is_member_of(3));
    assert!(groups.loots.is_member_of(4));
    assert!(groups.cursors.is_member_of(5));
    assert!(!groups.ships.is_member_of(0));
    assert!(!groups.missiles.is_group_whitelisted(1));
}

#[test]
fn a_missile_that_touches_an_enemy_is_named_first() {
    let mut world = World::new();
    let m = typed(&mut world, ColliderType::Missile);
    let e = typed(&mut world, ColliderType::Enemy);
    let mut selection = CursorSelection::new(CollisionObjectSlabHandle(0));
    let events = collision_system(&world, &vec![(m, e)], &mut selection);
    assert_eq!(events, vec![CollisionEvent::MissileToEnemy(m, e)]);
    let events = collision_system(&world, &vec![(e, m)], &mut selection);
    assert_eq!(events, vec![CollisionEvent::MissileToEnemy(m, e)]);
}

#[test]
fn a_ship_that_touches_loot_is_named_first() {
    let mut world = World::new();
    let s = typed(&mut world, ColliderType::Ship);
    let l = typed(&mut world, ColliderType::Loot);
    let mut selection = CursorSelection::new(CollisionObjectSlabHandle(0));
    let events = collision_system(&world, &vec![(s, l)], &mut selection);
    assert_eq!(events, vec![CollisionEvent::ShipToLoot(s, l)]);
    let events = collision_system(&world, &vec![(l, s)], &mut selection);
    assert_eq!(events, vec![CollisionEvent::ShipToLoot(s, l)]);
}

#[test]
fn other_pairs_give_no_event() {
    let mut world = World::new();
    let entities: Vec<Entity> = KINDS.iter().map(|k| typed(&mut world, *k)).collect();
    let mut selection = CursorSelection::new(CollisionObjectSlabHandle(0));
    for (i, a) in entities.iter().enumerate() {
        for (j, b) in entities.iter().enumerate() {
            let events = collision_system(&world, &vec![(*a, *b)], &mut selection);
            let expected = match (KINDS[i], KINDS[j]) {
                (ColliderType::Missile, ColliderType::Enemy) => 1,
                (ColliderType::Enemy, ColliderType::Missile) => 1,
                (ColliderType::Ship, ColliderType::Loot) => 1,
                (ColliderType::Loot, ColliderType::Ship) => 1,
                _ => 0,
            };
            assert_eq!(events.len(), expected);
        }
    }
}

#[test]
fn events_come_in_the_order_of_the_pairs() {
    let mut world = World::new();
    let s = typed(&mut world, ColliderType::Ship);
    let e1 = typed(&mut world, ColliderType::Enemy);
    let e2 = typed(&mut world, ColliderType::Enemy);
    let m1 = typed(&mut world, ColliderType::Missile);
    let m2 = typed(&mut world, ColliderType::Missile);
    let l = typed(&mut world, ColliderType::Loot);
    let mut selection = CursorSelection::new(CollisionObjectSlabHandle(0));
    let pairs = vec![(e2, m2), (s, e1), (l, s), (e1, e2), (m1, e1), (m1, e2)];
    let events = collision_system(&world, &pairs, &mut selection);
    assert_eq!(
        events,
        vec![
            CollisionEvent::MissileToEnemy(m2, e2),
            CollisionEvent::ShipToLoot(s, l),
            CollisionEvent::MissileToEnemy(m1, e1),
            CollisionEvent::MissileToEnemy(m1, e2),
        ]
    );
    assert!(events.len() <= pairs.len());
    assert!(collision_system(&world, &Vec::new(), &mut selection).is_empty());
}

#[test]
fn the_cursor_selects_enemies_and_loot_afresh_each_time() {
    let mut world = World::new();
    let c = typed(&mut world, ColliderType::Cursor);
    let e1 = typed(&mut world, ColliderType::Enemy);
    let e2 = typed(&mut world, ColliderType::Enemy);
    let l = typed(&mut world, ColliderType::Loot);
    let s = typed(&mut world, ColliderType::Ship);
    let mut selection = CursorSelection::new(CollisionObjectSlabHandle(9));
    selection.enemies.push(Entity(55));
    selection.loots.push(Entity(56));
    let events = collision_system(&world, &vec![(c, e1), (l, c), (e2, c), (c, s), (c, c)], &mut selection);
    assert!(events.is_empty());
    assert_eq!(selection.enemies, vec![e1, e2]);
    assert_eq!(selection.loots, vec![l]);
    assert_eq!(selection.cursor_collider_handle, CollisionObjectSlabHandle(9));
    collision_system(&world, &vec![(c, l)], &mut selection);
    assert!(selection.enemies.is_empty());
    assert_eq!(selection.loots, vec![l]);
    collision_system(&world, &Vec::new(), &mut selection);
    assert!(selection.enemies.is_empty());
    assert!(selection.loots.is_empty());
}

#[test]
fn a_collider_without_a_kind_is_found_out() {
    let mut world = World::new();
    let m = typed(&mut world, ColliderType::Missile);
    let bare = world.spawn(Components::empty());
    assert!(all_typed(&world, &vec![(m, m)]));
    assert!(all_typed(&world, &Vec::new()));
    assert!(!all_typed(&world, &vec![(m, bare)]));
    assert!(!all_typed(&world, &vec![(bare, m)]));
    assert!(!all_typed(&world, &vec![(m, m), (m, Entity(99))]));
}

#[test]
fn colliders_go_where_their_entities_are() {
    let mut world = World::new();
    let a = enemy(&mut world, 100_000, 100_000, 3, None);
    let unplaced = typed(&mut world, ColliderType::Cursor);
    assert!(matches!(
        attach_collider(&mut world, unplaced, CollisionObjectSlabHandle(5)),
        Attachment::Attached
    ));
    let b = ship(&mut world, None);
    assert!(matches!(
        attach_collider(&mut world, b, CollisionObjectSlabHandle(4)),
        Attachment::Attached
    ));
    assert!(matches!(
        attach_collider(&mut world, b, CollisionObjectSlabHandle(6)),
        Attachment::Replaced(CollisionObjectSlabHandle(4))
    ));
    assert!(matches!(
        attach_collider(&mut world, Entity(99), CollisionObjectSlabHandle(7)),
        Attachment::Refused
    ));
    assert_eq!(world.len(), 6);
    let places = collide_position_system(&world);
    assert_eq!(places.len(), 2);
    assert_eq!(places[0].handle, CollisionObjectSlabHandle(1000 + a.0));
    assert_eq!(places[0].position, Vec2::new(100_000, 100_000));
    assert_eq!(places[1].handle, CollisionObjectSlabHandle(6));
    assert_eq!(places[1].position, Vec2::new(0, 0));
    assert_eq!(world.get(unplaced).unwrap().collider, Some(CollisionObjectSlabHandle(5)));
}

#[test]
fn three_hits_destroy_the_asteroid_of_the_window_sized_arena() {
    let mut world = World::new();
    let shooter = ship(&mut world, Some(weapon(1000, 500)));
    let e = enemy(&mut world, 100_000, 100_000, 3, Some(2));
    let m = missile(&mut world, shooter, 1);
    let events = vec![CollisionEvent::MissileToEnemy(m, e)];
    assert!(all_ready(&world, &events));
    let out = collision_event_system(&events, &mut world);
    assert_eq!(life(&world, e), 2);
    assert_eq!(world.get(e).unwrap().armor.unwrap().max_life, 3);
    assert!(gone_with_ghosts(&world, m));
    assert!(out.xp_events.is_empty());
    assert!(out.loot_events.is_empty());
    assert_eq!(out.cues, vec![Cue::Explosion]);
    assert_eq!(out.reports.len(), 1);
    assert_eq!(out.reports[0].collider, Some(CollisionObjectSlabHandle(1000 + m.0)));
    assert_eq!(out.reports[0].missing_ghosts, 0);
    assert!(!out.reports[0].missing_entity);

    let m = missile(&mut world, shooter, 1);
    let out = collision_event_system(&vec![CollisionEvent::MissileToEnemy(m, e)], &mut world);
    assert_eq!(life(&world, e), 1);
    assert!(out.xp_events.is_empty());
    assert!(out.loot_events.is_empty());
    assert_eq!(out.cues, vec![Cue::Explosion]);

    let m = missile(&mut world, shooter, 1);
    let out = collision_event_system(&vec![CollisionEvent::MissileToEnemy(m, e)], &mut world);
    assert!(gone_with_ghosts(&world, e));
    assert!(gone_with_ghosts(&world, m));
    assert_eq!(out.xp_events, vec![XpEvent { xp: 2, source: shooter }]);
    assert_eq!(out.loot_events, vec![LootEvent { position: Vec2::new(100_000, 100_000) }]);
    assert_eq!(out.cues, vec![Cue::ExplosionFinal]);
    assert_eq!(out.reports.len(), 2);
    assert_eq!(out.reports[0].collider, Some(CollisionObjectSlabHandle(1000 + m.0)));
    assert_eq!(out.reports[1].collider, Some(CollisionObjectSlabHandle(1000 + e.0)));
    assert!(world.contains(shooter));
}

#[test]
fn two_missiles_on_an_enemy_with_one_life_kill_it_once() {
    let mut world = World::new();
    let shooter = ship(&mut world, None);
    let e = enemy(&mut world, -5, 9, 1, Some(2));
    let m1 = missile(&mut world, shooter, 1);
    let m2 = missile(&mut world, shooter, 1);
    let events = vec![CollisionEvent::MissileToEnemy(m1, e), CollisionEvent::MissileToEnemy(m2, e)];
    assert!(all_ready(&world, &events));
    let out = collision_event_system(&events, &mut world);
    assert_eq!(out.xp_events, vec![XpEvent { xp: 2, source: shooter }]);
    assert_eq!(out.loot_events, vec![LootEvent { position: Vec2::new(-5, 9) }]);
    assert_eq!(out.cues, vec![Cue::ExplosionFinal]);
    assert!(gone_with_ghosts(&world, e));
    assert!(gone_with_ghosts(&world, m1));
    assert!(gone_with_ghosts(&world, m2));
    assert_eq!(out.reports.len(), 3);
    assert_eq!(out.reports[0].collider, Some(CollisionObjectSlabHandle(1000 + m1.0)));
    assert_eq!(out.reports[1].collider, Some(CollisionObjectSlabHandle(1000 + e.0)));
    assert_eq!(out.reports[2].collider, Some(CollisionObjectSlabHandle(1000 + m2.0)));
}

#[test]
fn an_enemy_without_life_is_not_hit_but_the_missile_leaves() {
    let mut world = World::new();
    let shooter = ship(&mut world, None);
    let e = enemy(&mut world, 0, 0, 0, Some(2));
    let m = missile(&mut world, shooter, 1);
    let out = collision_event_system(&vec![CollisionEvent::MissileToEnemy(m, e)], &mut world);
    assert!(world.contains(e));
    assert_eq!(life(&world, e), 0);
    assert!(gone_with_ghosts(&world, m));
    assert!(out.xp_events.is_empty());
    assert!(out.loot_events.is_empty());
    assert!(out.cues.is_empty());
    assert_eq!(out.reports.len(), 1);
}

#[test]
fn a_missile_lands_one_hit_only() {
    let mut world = World::new();
    let shooter = ship(&mut world, None);
    let e1 = enemy(&mut world, 0, 0, 3, Some(2));
    let e2 = enemy(&mut world, 0, 0, 3, Some(2));
    let m = missile(&mut world, shooter, 1);
    let events = vec![CollisionEvent::MissileToEnemy(m, e1), CollisionEvent::MissileToEnemy(m, e2)];
    let out = collision_event_system(&events, &mut world);
    assert_eq!(life(&world, e1), 2);
    assert_eq!(life(&world, e2), 3);
    assert_eq!(out.cues, vec![Cue::Explosion]);
    assert_eq!(out.reports.len(), 1);
}

#[test]
fn a_hit_worth_more_than_the_life_left_leaves_none() {
    let mut world = World::new();
    let shooter = ship(&mut world, None);
    let e = enemy(&mut world, 3, 4, 2, None);
    let m = missile(&mut world, shooter, 5);
    let out = collision_event_system(&vec![CollisionEvent::MissileToEnemy(m, e)], &mut world);
    assert!(gone_with_ghosts(&world, e));
    assert!(out.xp_events.is_empty());
    assert!(out.loot_events.is_empty());
    assert_eq!(out.cues, vec![Cue::ExplosionFinal]);
}

#[test]
fn a_higher_rate_of_fire_divides_the_cooldown() {
    let mut world = World::new();
    let s = ship(&mut world, Some(weapon(1000, 500)));
    let l = loot(&mut world, Loot::IncreasedRateOfFire(200));
    let out = collision_event_system(&vec![CollisionEvent::ShipToLoot(s, l)], &mut world);
    let w = world.get(s).unwrap().weapon.unwrap();
    assert_eq!(w.fire_timer.duration, 500);
    assert_eq!(w.munition_lifespan, 500);
    assert!(gone_with_ghosts(&world, l));
    assert_eq!(out.cues, vec![Cue::Pickup]);
    assert_eq!(out.reports.len(), 1);
    assert_eq!(out.reports[0].collider, Some(CollisionObjectSlabHandle(1000 + l.0)));
    assert!(out.xp_events.is_empty());
    assert!(out.loot_events.is_empty());
}

#[test]
fn a_longer_munition_duration_multiplies_the_lifespan() {
    let mut world = World::new();
    let s = ship(&mut world, Some(weapon(1000, 500)));
    let l = loot(&mut world, Loot::IncreasedMunitionDuration(150));
    collision_event_system(&vec![CollisionEvent::ShipToLoot(s, l)], &mut world);
    let w = world.get(s).unwrap().weapon.unwrap();
    assert_eq!(w.munition_lifespan, 750);
    assert_eq!(w.fire_timer.duration, 1000);
}

#[test]
fn a_ship_without_a_weapon_still_picks_up() {
    let mut world = World::new();
    let s = ship(&mut world, None);
    let l = loot(&mut world, Loot::IncreasedRateOfFire(200));
    let before = world.get(s).unwrap().transform;
    let out = collision_event_system(&vec![CollisionEvent::ShipToLoot(s, l)], &mut world);
    assert!(gone_with_ghosts(&world, l));
    assert_eq!(out.cues, vec![Cue::Pickup]);
    assert!(world.get(s).unwrap().weapon.is_none());
    assert_eq!(world.get(s).unwrap().transform, before);
}

#[test]
fn loot_is_picked_up_once() {
    let mut world = World::new();
    let s = ship(&mut world, Some(weapon(1000, 500)));
    let l = loot(&mut world, Loot::IncreasedRateOfFire(200));
    let events = vec![CollisionEvent::ShipToLoot(s, l), CollisionEvent::ShipToLoot(s, l)];
    let out = collision_event_system(&events, &mut world);
    assert_eq!(world.get(s).unwrap().weapon.unwrap().fire_timer.duration, 500);
    assert_eq!(out.cues, vec![Cue::Pickup]);
    assert_eq!(out.reports.len(), 1);
}

#[test]
fn the_loot_that_is_nothing_changes_no_weapon() {
    let mut world = World::new();
    let s = ship(&mut world, Some(weapon(1000, 500)));
    let l = loot(&mut world, Loot::Nothing);
    let out = collision_event_system(&vec![CollisionEvent::ShipToLoot(s, l)], &mut world);
    assert_eq!(world.get(s).unwrap().weapon, Some(weapon(1000, 500)));
    assert!(gone_with_ghosts(&world, l));
    assert_eq!(out.cues, vec![Cue::Pickup]);
}

#[test]
fn events_on_what_is_gone_do_nothing() {
    let mut world = World::new();
    let s = ship(&mut world, Some(weapon(1000, 500)));
    let events = vec![
        CollisionEvent::MissileToEnemy(Entity(50), Entity(51)),
        CollisionEvent::ShipToLoot(s, Entity(52)),
        CollisionEvent::ShipToLoot(Entity(53), Entity(54)),
    ];
    assert!(all_ready(&world, &events));
    let out = collision_event_system(&events, &mut world);
    assert!(out.cues.is_empty());
    assert!(out.reports.is_empty());
    assert_eq!(world.len(), 1);
    assert_eq!(world.get(s).unwrap().weapon, Some(weapon(1000, 500)));
    let none = collision_event_system(&Vec::new(), &mut world);
    assert!(none.cues.is_empty());
}

#[test]
fn entities_that_lack_what_an_event_reads_are_found_out() {
    let mut world = World::new();
    let shooter = ship(&mut world, None);
    let e = enemy(&mut world, 0, 0, 3, Some(2));
    let m = missile(&mut world, shooter, 1);
    let l = loot(&mut world, Loot::IncreasedRateOfFire(200));
    let bare = world.spawn(Components::empty());
    assert!(all_ready(&world, &vec![CollisionEvent::MissileToEnemy(m, e), CollisionEvent::ShipToLoot(shooter, l)]));
    assert!(!all_ready(&world, &vec![CollisionEvent::MissileToEnemy(bare, e)]));
    assert!(!all_ready(&world, &vec![CollisionEvent::MissileToEnemy(m, bare)]));
    assert!(!all_ready(&world, &vec![CollisionEvent::ShipToLoot(shooter, bare)]));
    assert!(all_ready(&world, &vec![CollisionEvent::ShipToLoot(bare, l)]));
    let mut unplaced = world.get(e).unwrap();
    unplaced.transform = None;
    world.set(e, unplaced);
    assert!(!all_ready(&world, &vec![CollisionEvent::MissileToEnemy(m, e)]));
    let mut plain = world.get(e).unwrap();
    plain.enemy = None;
    world.set(e, plain);
    assert!(all_ready(&world, &vec![CollisionEvent::MissileToEnemy(m, e)]));
}

#[test]
fn each_cue_has_its_sound() {
    assert_eq!(Cue::ExplosionFinal.asset(), "Explosion_final.mp3");
    assert_eq!(Cue::Explosion.asset(), "Explosion.mp3");
    assert_eq!(Cue::Pickup.asset(), "zapThreeToneUp.ogg");
    assert_eq!(Cue::Laser.asset(), "sfx_laser1.mp3");
}
