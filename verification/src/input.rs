//! What the player does: pointing, steering, shooting.
use vstd::prelude::*;
use ncollide2d::pipeline::CollisionObjectSlabHandle;
use crate::collision::ColliderType;
use crate::collision::pushed;
use crate::components::Components;
use crate::components::Entity;
use crate::components::Movement;
use crate::components::Transform;
use crate::math::clamp;
use crate::math::div_trunc;
use crate::math::head;
use crate::math::heading;
use crate::math::quot;
use crate::math::Vec2;
use crate::spaceship::Weapon;
use crate::time::Time;
use crate::time::Timer;
use crate::weapon::FireWeaponEvent;
use crate::world::Slots;
use crate::world::World;

verus! {

/// What the cursor points at, noted afresh on every frame.
pub struct CursorSelection {
    pub cursor_collider_handle: CollisionObjectSlabHandle,
    pub enemies: Vec<Entity>,
    pub loots: Vec<Entity>,
}

/// What the player can ask for.
#[derive(Clone, Copy, PartialEq, Eq, Debug, Structural)]
pub enum Action {
    Forward,
    Backward,
    RcsLeft,
    RcsRight,
    Shoot1,
    QuitApp,
}

/// What the actions of a frame lead to, besides what they do to the ships.
pub struct ActionOutcome {
    /// Whether the player asked to leave.
    pub quit: bool,
    pub fire_events: Vec<FireWeaponEvent>,
}

/// The ships as the actions have left them so far, the shots asked for, and
/// whether the player asked to leave.
pub struct Acted {
    pub slots: Slots,
    pub fire_events: Seq<FireWeaponEvent>,
    pub quit: bool,
}

impl Action {
    /// The name under which the input layer knows the action.
    pub open spec fn label(self) -> Seq<char> {
        match self {
            Action::Forward => "FORWARD"@,
            Action::Backward => "BACKWARD"@,
            Action::RcsLeft => "RCS_LEFT"@,
            Action::RcsRight => "RCS_RIGHT"@,
            Action::Shoot1 => "SHOOT_1"@,
            Action::QuitApp => "QUIT_APP"@,
        }
    }

    pub fn name(&self) -> (name: String)
        ensures
            name@ == self.label(),
    {
        match self {
            Action::Forward => "FORWARD".to_owned(),
            Action::Backward => "BACKWARD".to_owned(),
            Action::RcsLeft => "RCS_LEFT".to_owned(),
            Action::RcsRight => "RCS_RIGHT".to_owned(),
            Action::Shoot1 => "SHOOT_1".to_owned(),
            Action::QuitApp => "QUIT_APP".to_owned(),
        }
    }
}

impl CursorSelection {
    /// A selection that points at nothing yet.
    pub fn new(cursor_collider_handle: CollisionObjectSlabHandle) -> (selection: CursorSelection)
        ensures
            selection.cursor_collider_handle == cursor_collider_handle,
            selection.enemies@.len() == 0,
            selection.loots@.len() == 0,
    {
        CursorSelection { cursor_collider_handle, enemies: Vec::new(), loots: Vec::new() }
    }
}

/// By how much a thruster of the given `power`, in units per second gained
/// each second, changes over `delta` thousandths of a second the part of a
/// speed that lies along an axis on which the thruster points by `heading`
/// thousandths.
pub open spec fn impulse(power: i32, heading: int, delta: u32) -> int {
    quot(quot(power * heading, 1000) * delta, 1000)
}

/// A speed after a thruster has pushed along the heading `(cos, sin)`.
pub open spec fn thrusted(speed: Vec2, power: i32, cos: int, sin: int, delta: u32) -> Vec2 {
    Vec2 {
        x: clamp(speed.x + impulse(power, cos, delta)) as i32,
        y: clamp(speed.y + impulse(power, sin, delta)) as i32,
    }
}

/// The slot once what the player steers in it, if it has a place, has
/// turned towards `cursor`.
pub open spec fn oriented(slot: Option<Components>, cursor: Vec2) -> Option<Components> {
    match slot {
        Some(c) => match (c.user_controlled, c.transform) {
            (Some(_), Some(t)) => Some(
                Components {
                    transform: Some(
                        Transform {
                            rotation: heading(
                                cursor.x - t.translation.x,
                                cursor.y - t.translation.y,
                            ),
                            ..t
                        },
                    ),
                    ..c
                },
            ),
            _ => Some(c),
        },
        None => None,
    }
}

/// The slot holds a ship that the player steers: it is marked as such, is a
/// ship, moves, has a place and has a weapon.
pub open spec fn steerable(slot: Option<Components>) -> bool {
    slot matches Some(c) && c.user_controlled is Some && c.spaceship is Some && c.movement is Some
        && c.transform is Some && c.weapon is Some
}

/// A steered ship after `action`. Shooting starts the cooldown again if it
/// had run out. The main thrusters push along the heading or against it;
/// the side thrusters push across it, to the left or to the right.
pub open spec fn steered(c: Components, action: Action, delta: u32) -> Components {
    let rotation = c.transform.unwrap().rotation;
    let ship = c.spaceship.unwrap();
    let m = c.movement.unwrap();
    let w = c.weapon.unwrap();
    match action {
        Action::Shoot1 => if w.fire_timer.finished {
            Components {
                weapon: Some(
                    Weapon {
                        fire_timer: Timer {
                            elapsed: 0,
                            finished: false,
                            just_finished: false,
                            ..w.fire_timer
                        },
                        ..w
                    },
                ),
                ..c
            }
        } else {
            c
        },
        Action::Forward => Components {
            movement: Some(
                Movement {
                    speed: thrusted(
                        m.speed,
                        ship.max_linvel,
                        rotation.cos as int,
                        rotation.sin as int,
                        delta,
                    ),
                    ..m
                },
            ),
            ..c
        },
        Action::Backward => Components {
            movement: Some(
                Movement {
                    speed: thrusted(
                        m.speed,
                        ship.max_linvel,
                        -rotation.cos,
                        -rotation.sin,
                        delta,
                    ),
                    ..m
                },
            ),
            ..c
        },
        Action::RcsLeft => Components {
            movement: Some(
                Movement {
                    speed: thrusted(
                        m.speed,
                        ship.max_latvel,
                        -rotation.sin,
                        rotation.cos as int,
                        delta,
                    ),
                    ..m
                },
            ),
            ..c
        },
        Action::RcsRight => Components {
            movement: Some(
                Movement {
                    speed: thrusted(
                        m.speed,
                        ship.max_latvel,
                        rotation.sin as int,
                        -rotation.cos,
                        delta,
                    ),
                    ..m
                },
            ),
            ..c
        },
        Action::QuitApp => c,
    }
}

/// The shot that `action` asks of the steered ship numbered `i`, if it asks
/// for one: shooting does, once the cooldown has run out.
pub open spec fn shot(c: Components, action: Action, i: int) -> Option<FireWeaponEvent> {
    if action == Action::Shoot1 && c.weapon.unwrap().fire_timer.finished {
        Some(
            FireWeaponEvent {
                ship_entity: Entity(i as usize),
                munition_lifespan: c.weapon.unwrap().munition_lifespan,
            },
        )
    } else {
        None
    }
}

/// Where `action` leads once it has reached the first `n` slots: every
/// steered ship among them takes it.
pub open spec fn acted_upto(state: Acted, action: Action, delta: u32, n: nat) -> Acted
    decreases n,
{
    if n == 0 {
        state
    } else {
        let before = acted_upto(state, action, delta, (n - 1) as nat);
        if steerable(before.slots[n - 1]) {
            let c = before.slots[n - 1].unwrap();
            Acted {
                slots: before.slots.update(n - 1, Some(steered(c, action, delta))),
                fire_events: pushed(before.fire_events, shot(c, action, n - 1)),
                quit: before.quit,
            }
        } else {
            before
        }
    }
}

/// Where `action` leads: asking to leave is noted, and touches no ship; any
/// other action reaches every steered ship.
pub open spec fn acted(state: Acted, action: Action, delta: u32) -> Acted {
    if action == Action::QuitApp {
        Acted { quit: true, ..state }
    } else {
        acted_upto(state, action, delta, state.slots.len())
    }
}

/// Where `actions` lead, taken in their order.
pub open spec fn acted_all(slots: Slots, actions: Seq<Action>, delta: u32) -> Acted
    decreases actions.len(),
{
    if actions.len() == 0 {
        Acted { slots, fire_events: Seq::empty(), quit: false }
    } else {
        acted(acted_all(slots, actions.drop_last(), delta), actions.last(), delta)
    }
}

/// Lets a thruster push on one part of a speed.
fn thrust(speed: i32, power: i32, heading: i64, delta: u32) -> (pushed: i32)
    requires
        -2147483648 <= heading <= 2147483648,
    ensures
        pushed == clamp(speed + impulse(power, heading as int, delta)),
{
    assert(-4611686018427387904 <= (power as int) * (heading as int) <= 4611686018427387904)
        by (nonlinear_arith)
        requires
            -2147483648 <= power <= 2147483647,
            -2147483648 <= heading <= 2147483648,
    ;
    let along: i64 = div_trunc((power as i64) * heading, 1000);
    assert(-4611686018427388 <= along <= 4611686018427388) by {
        let product = (power as int) * (heading as int);
        if product >= 0 {
            assert(0 <= product / 1000 <= 4611686018427388);
        } else {
            assert(0 <= (-product) / 1000 <= 4611686018427388);
        }
    }
    assert(-19807040628566088492174770176 <= (along as int) * (delta as int)
        <= 19807040628566088492174770176) by (nonlinear_arith)
        requires
            -4611686018427388 <= along <= 4611686018427388,
            0 <= delta <= 4294967295,
    ;
    let wide: i128 = (along as i128) * (delta as i128);
    let gained: i128 = if wide >= 0 {
        wide / 1000
    } else {
        -((-wide) / 1000)
    };
    let sum: i128 = (speed as i128) + gained;
    if sum < -2147483648 {
        -2147483648
    } else if sum > 2147483647 {
        2147483647
    } else {
        sum as i32
    }
}

/// Spawns the entity that carries the collider of the cursor.
pub fn spawn_cursor_collider(world: &mut World) -> (cursor: Entity)
    ensures
        cursor.0 == old(world)@.len(),
        final(world)@ == old(world)@.push(
            Some(
                Components {
                    collider_type: Some(ColliderType::Cursor),
                    ..Components::empty_spec()
                },
            ),
        ),
{
    let mut c = Components::empty();
    c.collider_type = Some(ColliderType::Cursor);
    world.spawn(c)
}

/// Turns whatever the player steers towards the cursor.
pub fn orientation_system(cursor: Vec2, world: &mut World)
    ensures
        final(world)@.len() == old(world)@.len(),
        forall|i: int|
            0 <= i < old(world)@.len() ==> #[trigger] final(world)@[i] == oriented(
                old(world)@[i],
                cursor,
            ),
{
    let n = world.len();
    let mut i: usize = 0;
    while i < n
        invariant
            i <= n,
            n == old(world)@.len(),
            world@.len() == n,
            forall|j: int| 0 <= j < i ==> #[trigger] world@[j] == oriented(old(world)@[j], cursor),
            forall|j: int| i <= j < n ==> #[trigger] world@[j] == old(world)@[j],
        decreases n - i,
    {
        if let Some(c) = world.get(Entity(i)) {
            if c.user_controlled.is_some() {
                if let Some(t) = c.transform {
                    let rotation = head(t.translation.truncate(), cursor);
                    let mut turned = c;
                    turned.transform = Some(Transform { rotation, ..t });
                    world.set(Entity(i), turned);
                }
            }
        }
        i = i + 1;
    }
}

/// Carries out what the player asks for, action by action: steering and
/// shooting for every ship that the player steers, and leaving.
pub fn action_system(actions: &Vec<Action>, time: &Time, world: &mut World) -> (out: ActionOutcome)
    ensures
        final(world)@ == acted_all(old(world)@, actions@, time.elapsed()).slots,
        out.fire_events@ == acted_all(old(world)@, actions@, time.elapsed()).fire_events,
        out.quit == acted_all(old(world)@, actions@, time.elapsed()).quit,
{
    let mut quit = false;
    let mut fire_events: Vec<FireWeaponEvent> = Vec::new();
    let delta = time.delta();
    let n = world.len();
    let mut a: usize = 0;
    while a < actions.len()
        invariant
            a <= actions.len(),
            delta == time.elapsed(),
            n == world@.len(),
            world@ == acted_all(old(world)@, actions@.take(a as int), delta).slots,
            fire_events@ == acted_all(old(world)@, actions@.take(a as int), delta).fire_events,
            quit == acted_all(old(world)@, actions@.take(a as int), delta).quit,
        decreases actions.len() - a,
    {
        proof {
            let upto = actions@.take(a + 1);
            assert(upto.drop_last() == actions@.take(a as int));
            assert(upto.last() == actions@[a as int]);
        }
        let action = actions[a];
        let ghost start = Acted { slots: world@, fire_events: fire_events@, quit };
        if action == Action::QuitApp {
            quit = true;
        } else {
            let mut i: usize = 0;
            while i < n
                invariant
                    i <= n,
                    n == world@.len(),
                    n == start.slots.len(),
                    action != Action::QuitApp,
                    quit == start.quit,
                    world@ == acted_upto(start, action, delta, i as nat).slots,
                    fire_events@ == acted_upto(start, action, delta, i as nat).fire_events,
                    quit == acted_upto(start, action, delta, i as nat).quit,
                decreases n - i,
            {
                if let Some(c) = world.get(Entity(i)) {
                    if c.user_controlled.is_some() {
                        if let Some(ship) = c.spaceship {
                            if let Some(m) = c.movement {
                                if let Some(t) = c.transform {
                                    if let Some(w) = c.weapon {
                                        let mut steered = c;
                                        let cos: i64 = t.rotation.cos as i64;
                                        let sin: i64 = t.rotation.sin as i64;
                                        match action {
                                            Action::Shoot1 => {
                                                if w.fire_timer.finished {
                                                    fire_events.push(
                                                        FireWeaponEvent {
                                                            ship_entity: Entity(i),
                                                            munition_lifespan: w.munition_lifespan,
                                                        },
                                                    );
                                                    let mut timer = w.fire_timer;
                                                    timer.reset();
                                                    steered.weapon = Some(
                                                        Weapon { fire_timer: timer, ..w },
                                                    );
                                                }
                                            },
                                            Action::Forward => {
                                                steered.movement = Some(
                                                    Movement {
                                                        speed: Vec2 {
                                                            x: thrust(
                                                                m.speed.x,
                                                                ship.max_linvel,
                                                                cos,
                                                                delta,
                                                            ),
                                                            y: thrust(
                                                                m.speed.y,
                                                                ship.max_linvel,
                                                                sin,
                                                                delta,
                                                            ),
                                                        },
                                                        ..m
                                                    },
                                                );
                                            },
                                            Action::Backward => {
                                                steered.movement = Some(
                                                    Movement {
                                                        speed: Vec2 {
                                                            x: thrust(
                                                                m.speed.x,
                                                                ship.max_linvel,
                                                                -cos,
                                                                delta,
                                                            ),
                                                            y: thrust(
                                                                m.speed.y,
                                                                ship.max_linvel,
                                                                -sin,
                                                                delta,
                                                            ),
                                                        },
                                                        ..m
                                                    },
                                                );
                                            },
                                            Action::RcsLeft => {
                                                steered.movement = Some(
                                                    Movement {
                                                        speed: Vec2 {
                                                            x: thrust(
                                                                m.speed.x,
                                                                ship.max_latvel,
                                                                -sin,
                                                                delta,
                                                            ),
                                                            y: thrust(
                                                                m.speed.y,
                                                                ship.max_latvel,
                                                                cos,
                                                                delta,
                                                            ),
                                                        },
                                                        ..m
                                                    },
                                                );
                                            },
                                            Action::RcsRight => {
                                                steered.movement = Some(
                                                    Movement {
                                                        speed: Vec2 {
                                                            x: thrust(
                                                                m.speed.x,
                                                                ship.max_latvel,
                                                                sin,
                                                                delta,
                                                            ),
                                                            y: thrust(
                                                                m.speed.y,
                                                                ship.max_latvel,
                                                                -cos,
                                                                delta,
                                                            ),
                                                        },
                                                        ..m
                                                    },
                                                );
                                            },
                                            Action::QuitApp => {},
                                        }
                                        world.set(Entity(i), steered);
                                    }
                                }
                            }
                        }
                    }
                }
                i = i + 1;
            }
        }
        a = a + 1;
    }
    assert(actions@.take(actions.len() as int) == actions@);
    ActionOutcome { quit, fire_events }
}

} // verus!
