//! The torus: its quadrants, the ghosts that mirror an entity across its
//! edges, and the systems that move entities around it.
use vstd::prelude::*;
use ncollide2d::pipeline::CollisionObjectSlabHandle;
use crate::components::Components;
use crate::components::Entity;
use crate::components::Material;
use crate::components::Movement;
use crate::components::SpriteComponents;
use crate::components::Transform;
use crate::math::clamp;
use crate::math::div_trunc;
use crate::math::quot;
use crate::math::saturate;
use crate::math::scale;
use crate::math::scaled;
use crate::math::Vec2;
use crate::math::Vec3;
use crate::time::Time;
use crate::world::alive;
use crate::world::lookup;
use crate::world::Slots;
use crate::world::without;
use crate::world::World;

verus! {

#[derive(Clone, Copy, PartialEq, Eq, Debug, Structural)]
pub enum ArenaQuadrant {
    NE,
    NW,
    SW,
    SE,
}

/// Marks a ghost: a sprite that shows its parent where the parent would be
/// seen across an edge of the arena.
#[derive(Clone, Copy, Debug)]
pub struct SpriteGhost {
    parent: Entity,
    id: u8,
}

/// The ghosts of an entity, by their number.
#[derive(Clone, Copy, Debug)]
pub struct SpriteGhostChildren(pub [Entity; 3]);

#[derive(Clone, Copy, PartialEq, Eq, Debug, Structural)]
pub struct Arena {
    pub size: Vec2,
    /// The quarter of the arena that is on screen.
    pub shown: ArenaQuadrant,
}

/// How many ghosts mirror one entity.
pub const GHOSTS: u8 = 3;

/// A dot of the grid that lets the eye measure the arena.
#[derive(Clone, Copy, PartialEq, Eq, Debug, Structural)]
pub struct Marker {
    pub translation: Vec3,
    /// How light the dot is, in thousandths of white.
    pub shade: u32,
}

/// The side of a cell of the marker grid.
pub const MARKER_CELL: i32 = 200000;

/// The distance from one marker to the next.
pub const MARKER_STEP: i32 = 100000;

/// The depth at which markers are drawn.
pub const MARKER_DEPTH: i32 = -1000;

/// What `despawn_from_arena` found on its way.
#[derive(Clone, Copy, Debug)]
pub struct DespawnReport {
    /// How many of the ghosts were gone already.
    pub missing_ghosts: u8,
    /// The collider to withdraw from the collision backend, if the entity
    /// had one.
    pub collider: Option<CollisionObjectSlabHandle>,
    /// Whether the entity itself was gone already.
    pub missing_entity: bool,
}

/// What a ghost is spawned with: the material of its parent, and its mark.
pub open spec fn ghost_components(material: Material, parent: Entity, id: u8) -> Components {
    Components {
        transform: Some(Transform::identity_spec()),
        material: Some(material),
        sprite_ghost: Some(SpriteGhost::made(parent, id)),
        ..Components::empty_spec()
    }
}

/// The store once an entity with `body` attached has been spawned together
/// with its three ghosts, which are drawn with `material`: the entity takes
/// the next free number and lists the ghosts, which take the three numbers
/// after it.
pub open spec fn sprouted(
    slots: Slots,
    body: Components,
    material: Material,
) -> Slots {
    let parent = Entity(slots.len() as usize);
    slots.push(
        Some(Components { ghost_children: Some(SpriteGhostChildren::next_to(parent)), ..body }),
    ).push(Some(ghost_components(material, parent, 0))).push(
        Some(ghost_components(material, parent, 1)),
    ).push(Some(ghost_components(material, parent, 2)))
}

/// The ghosts listed on `entity`; none if it is dead or has no list.
pub open spec fn children_of(slots: Slots, entity: Entity) -> Seq<Entity> {
    match lookup(slots, entity) {
        Some(c) => match c.ghost_children {
            Some(children) => children.0@,
            None => Seq::empty(),
        },
        None => Seq::empty(),
    }
}

/// The store once each of `entities` is gone.
pub open spec fn without_all(slots: Slots, entities: Seq<Entity>) -> Slots
    decreases entities.len(),
{
    if entities.len() == 0 {
        slots
    } else {
        without(without_all(slots, entities.drop_last()), entities.last())
    }
}

/// How many of `entities` are dead by the time their turn comes, when they
/// are despawned one after the other.
pub open spec fn missing_among(slots: Slots, entities: Seq<Entity>) -> nat
    decreases entities.len(),
{
    if entities.len() == 0 {
        0
    } else {
        let before = entities.drop_last();
        missing_among(slots, before) + if alive(without_all(slots, before), entities.last()) {
            0nat
        } else {
            1nat
        }
    }
}

/// The store once `entity` has left the arena: its ghosts are gone, and so
/// is the entity.
pub open spec fn despawned(slots: Slots, entity: Entity) -> Slots {
    without(without_all(slots, children_of(slots, entity)), entity)
}

/// What leaving the arena reports, for a store in which the ghosts of
/// `entity` are already gone.
pub open spec fn report_of(
    slots: Slots,
    entity: Entity,
) -> DespawnReport {
    let ghostless = without_all(slots, children_of(slots, entity));
    DespawnReport {
        missing_ghosts: missing_among(slots, children_of(slots, entity)) as u8,
        collider: match lookup(ghostless, entity) {
            Some(c) => c.collider,
            None => None,
        },
        missing_entity: !alive(ghostless, entity),
    }
}

/// The quarter of the plane that holds the point `(x, y)`; a point on an
/// axis counts with the negative side.
pub open spec fn quadrant_at(x: int, y: int) -> ArenaQuadrant {
    if x <= 0 {
        if y <= 0 {
            ArenaQuadrant::SW
        } else {
            ArenaQuadrant::NW
        }
    } else {
        if y <= 0 {
            ArenaQuadrant::SE
        } else {
            ArenaQuadrant::NE
        }
    }
}

/// By how much the ghost numbered `id` is set off from its parent while the
/// quarter `shown` is on screen, in an arena of size `size`.
pub open spec fn ghost_offset(shown: ArenaQuadrant, id: u8, size: Vec2) -> (int, int) {
    let w = size.x as int;
    let h = size.y as int;
    match shown {
        ArenaQuadrant::NW => if id == 0 {
            (-w, 0)
        } else if id == 1 {
            (-w, h)
        } else {
            (0, h)
        },
        ArenaQuadrant::NE => if id == 0 {
            (0, h)
        } else if id == 1 {
            (w, h)
        } else {
            (w, 0)
        },
        ArenaQuadrant::SE => if id == 0 {
            (w, 0)
        } else if id == 1 {
            (w, -h)
        } else {
            (0, -h)
        },
        ArenaQuadrant::SW => if id == 0 {
            (0, -h)
        } else if id == 1 {
            (-w, -h)
        } else {
            (-w, 0)
        },
    }
}

/// The point `from` set off by `offset` in the plane, at the same depth.
pub open spec fn translated(from: Vec3, offset: (int, int)) -> Vec3 {
    Vec3 {
        x: clamp(from.x + offset.0) as i32,
        y: clamp(from.y + offset.1) as i32,
        z: from.z,
    }
}

/// Where the ghost numbered `id` stands when its parent stands at `parent`:
/// set off in the plane, with the heading and the size of the parent.
pub open spec fn ghost_transform(parent: Transform, arena: Arena, id: u8) -> Transform {
    Transform {
        translation: translated(parent.translation, ghost_offset(arena.shown, id, arena.size)),
        rotation: parent.rotation,
        scale: parent.scale,
    }
}

/// The slot `i` once its ghost, if it holds one, is brought next to its
/// parent. A ghost moves only if it has a place, and only to a living
/// parent that has a place and is no ghost itself.
pub open spec fn mirrored(slots: Slots, arena: Arena, i: int) -> Option<Components> {
    match slots[i] {
        Some(c) => match (c.sprite_ghost, c.transform) {
            (Some(g), Some(_)) => match lookup(slots, g.guardian()) {
                Some(p) => match (p.sprite_ghost, p.transform) {
                    (None, Some(t)) => Some(
                        Components { transform: Some(ghost_transform(t, arena, g.number())), ..c },
                    ),
                    _ => Some(c),
                },
                None => Some(c),
            },
            _ => Some(c),
        },
        None => None,
    }
}

/// Where a coordinate is after moving at `speed` units per second for
/// `delta` thousandths of a second.
pub open spec fn advanced(x: i32, speed: i32, delta: u32) -> i32 {
    clamp(x + quot(speed * delta, 1000)) as i32
}

/// Half of an extent of the arena.
pub open spec fn half(extent: i32) -> i32 {
    quot(extent as int, 2) as i32
}

/// A coordinate brought back into an arena that reaches `half` to either
/// side: one that has left the arena and still moves away from it enters
/// again at the opposite edge; any other stays.
pub open spec fn wrapped(x: i32, speed: i32, half: i32) -> i32 {
    if x < -half && speed < 0 {
        half
    } else if x > half && speed > 0 {
        (-half) as i32
    } else {
        x
    }
}

/// One coordinate after a frame: moved at the old speed, then wrapped
/// according to the new one.
pub open spec fn stepped_axis(x: i32, speed: i32, extent: i32, time: &Time, dampening: u32) -> i32 {
    wrapped(
        advanced(x, speed, time.elapsed()),
        scaled(speed as int, time.factor(dampening) as int) as i32,
        half(extent),
    )
}

/// Place and movement after a frame.
pub open spec fn stepped(
    transform: Transform,
    movement: Movement,
    arena: Arena,
    time: &Time,
) -> (Transform, Movement) {
    (
        Transform {
            translation: Vec3 {
                x: stepped_axis(
                    transform.translation.x,
                    movement.speed.x,
                    arena.size.x,
                    time,
                    movement.dampening,
                ),
                y: stepped_axis(
                    transform.translation.y,
                    movement.speed.y,
                    arena.size.y,
                    time,
                    movement.dampening,
                ),
                z: transform.translation.z,
            },
            ..transform
        },
        Movement {
            speed: Vec2 {
                x: scaled(movement.speed.x as int, time.factor(movement.dampening) as int) as i32,
                y: scaled(movement.speed.y as int, time.factor(movement.dampening) as int) as i32,
            },
            ..movement
        },
    )
}

/// The slot `slot` after a frame: what has both a place and a movement
/// moves, the rest stays.
pub open spec fn positioned(slot: Option<Components>, arena: Arena, time: &Time) -> Option<
    Components,
> {
    match slot {
        Some(c) => match (c.transform, c.movement) {
            (Some(t), Some(m)) => Some(
                Components {
                    transform: Some(stepped(t, m, arena, time).0),
                    movement: Some(stepped(t, m, arena, time).1),
                    ..c
                },
            ),
            _ => Some(c),
        },
        None => None,
    }
}

impl ArenaQuadrant {
    pub open spec fn is_west(self) -> bool {
        self == ArenaQuadrant::NW || self == ArenaQuadrant::SW
    }

    pub open spec fn is_south(self) -> bool {
        self == ArenaQuadrant::SW || self == ArenaQuadrant::SE
    }
}

/// The store and the quarter on screen once the camera of slot `i`, if the
/// slot names one, has been brought over the entity of the slot. The camera
/// moves only if the entity has a place and the camera lives, is a camera and
/// has a place.
pub open spec fn followed(slots: Slots, shown: ArenaQuadrant, i: int) -> (Slots, ArenaQuadrant) {
    match slots[i] {
        Some(c) => match (c.followed_camera, c.transform) {
            (Some(f), Some(t)) => match lookup(slots, f.0) {
                Some(cam) => match (cam.camera, cam.transform) {
                    (Some(_), Some(seen)) => (
                        slots.update(
                            f.0.0 as int,
                            Some(
                                Components {
                                    transform: Some(
                                        Transform { translation: t.translation, ..seen },
                                    ),
                                    ..cam
                                },
                            ),
                        ),
                        quadrant_at(t.translation.x as int, t.translation.y as int),
                    ),
                    _ => (slots, shown),
                },
                None => (slots, shown),
            },
            _ => (slots, shown),
        },
        None => (slots, shown),
    }
}

/// The store and the quarter on screen once the cameras of the first `n`
/// slots have followed, one slot after the other.
pub open spec fn followed_all(slots: Slots, shown: ArenaQuadrant, n: nat) -> (Slots, ArenaQuadrant)
    decreases n,
{
    if n == 0 {
        (slots, shown)
    } else {
        let before = followed_all(slots, shown, (n - 1) as nat);
        followed(before.0, before.1, n - 1)
    }
}

/// How light the marker of the cell `(x, y)` is: lightest at the centre,
/// lighter on the axes than off them.
pub open spec fn marker_shade(x: int, y: int) -> u32 {
    if x == 0 && y == 0 {
        900
    } else if x == 0 || y == 0 {
        700
    } else {
        500
    }
}

/// The marker of the cell `(x, y)`, mirrored by the signs `sx` and `sy`.
pub open spec fn marker_at(x: int, y: int, sx: int, sy: int) -> Marker {
    Marker {
        translation: Vec3 {
            x: (sx * x * MARKER_STEP) as i32,
            y: (sy * y * MARKER_STEP) as i32,
            z: MARKER_DEPTH,
        },
        shade: marker_shade(x, y),
    }
}

/// The markers of the cell `(x, y)`: one in each quarter of the plane, where
/// a cell on an axis is its own mirror image.
pub open spec fn cell_markers(x: int, y: int) -> Seq<Marker> {
    seq![marker_at(x, y, 1, 1)] + (if x != 0 {
        seq![marker_at(x, y, -1, 1)]
    } else {
        Seq::empty()
    }) + (if y != 0 {
        seq![marker_at(x, y, 1, -1)]
    } else {
        Seq::empty()
    }) + (if x != 0 && y != 0 {
        seq![marker_at(x, y, -1, -1)]
    } else {
        Seq::empty()
    })
}

/// How many cells of the marker grid fit into an extent of the arena.
pub open spec fn marker_cells(extent: i32) -> int {
    if extent <= 0 {
        0
    } else {
        extent as int / MARKER_CELL as int
    }
}

/// The markers of the first `rows` cells of the column `x`.
pub open spec fn column_markers(x: int, rows: int) -> Seq<Marker>
    decreases rows,
{
    if rows <= 0 {
        Seq::empty()
    } else {
        column_markers(x, rows - 1) + cell_markers(x, rows - 1)
    }
}

/// The markers of the first `columns` columns, each of `rows` cells.
pub open spec fn grid_markers(columns: int, rows: int) -> Seq<Marker>
    decreases columns,
{
    if columns <= 0 {
        Seq::empty()
    } else {
        grid_markers(columns - 1, rows) + column_markers(columns - 1, rows)
    }
}

/// Spawning and despawning entities that wrap around the arena.
pub trait ArenaExt {
    /// The slots of the store, by entity number.
    spec fn slots(&self) -> Slots;

    /// Spawns a sprite and, with it, its three ghosts, which share its
    /// material. The parent gets the next free number and the ghosts the
    /// three after it.
    fn spawn_with_ghosts(&mut self, sprite: SpriteComponents) -> (parent: Entity)
        ensures
            parent.0 == old(self).slots().len(),
            final(self).slots() == sprouted(
                old(self).slots(),
                Components::sprite_spec(sprite),
                sprite.material,
            ),
    ;

    /// Takes `entity` out of the arena: first its ghosts, then its collider,
    /// then the entity. Whatever is gone already is reported, and the rest
    /// still leaves.
    fn despawn_from_arena(&mut self, entity: Entity) -> (report: DespawnReport)
        ensures
            final(self).slots() == despawned(old(self).slots(), entity),
            report == report_of(old(self).slots(), entity),
    ;
}

impl SpriteGhostChildren {
    /// The ghosts of `parent` when they were spawned right after it.
    pub open spec fn next_to(parent: Entity) -> SpriteGhostChildren {
        SpriteGhostChildren(
            [
                Entity((parent.0 + 1) as usize),
                Entity((parent.0 + 2) as usize),
                Entity((parent.0 + 3) as usize),
            ],
        )
    }
}

impl SpriteGhost {
    #[verifier::type_invariant]
    spec fn numbered(&self) -> bool {
        self.id < GHOSTS
    }

    /// The entity that this ghost mirrors.
    pub closed spec fn guardian(&self) -> Entity {
        self.parent
    }

    /// Which of the copies of its parent this ghost shows.
    pub closed spec fn number(&self) -> u8 {
        self.id
    }

    /// The ghost of `parent` numbered `id`.
    pub closed spec fn made(parent: Entity, id: u8) -> SpriteGhost {
        SpriteGhost { parent, id }
    }

    /// A ghost of `parent`, or nothing if `id` is not the number of one.
    pub fn new(parent: Entity, id: u8) -> (made: Option<SpriteGhost>)
        ensures
            made is Some <==> id < GHOSTS,
            made matches Some(g) ==> g == SpriteGhost::made(parent, id),
    {
        if id < GHOSTS {
            Some(SpriteGhost { parent, id })
        } else {
            None
        }
    }

    pub fn parent(&self) -> (parent: Entity)
        ensures
            parent == self.guardian(),
    {
        self.parent
    }

    pub fn id(&self) -> (id: u8)
        ensures
            id == self.number(),
            id < GHOSTS,
    {
        proof {
            use_type_invariant(self);
        }
        self.id
    }
}

/// Despawning several entities empties their slots and touches no other.
pub proof fn lemma_without_all(slots: Slots, entities: Seq<Entity>)
    ensures
        without_all(slots, entities).len() == slots.len(),
        forall|i: int|
            0 <= i < slots.len() ==> #[trigger] without_all(slots, entities)[i] == if exists|
                k: int,
            |
                0 <= k < entities.len() && #[trigger] entities[k].0 == i {
                None
            } else {
                slots[i]
            },
    decreases entities.len(),
{
    if entities.len() > 0 {
        let before = entities.drop_last();
        lemma_without_all(slots, before);
        assert forall|i: int| 0 <= i < slots.len() implies #[trigger] without_all(
            slots,
            entities,
        )[i] == if exists|k: int| 0 <= k < entities.len() && #[trigger] entities[k].0 == i {
            None
        } else {
            slots[i]
        } by {
            if entities.last().0 == i {
                assert(entities[entities.len() - 1].0 == i);
            } else if exists|k: int| 0 <= k < before.len() && #[trigger] before[k].0 == i {
                let k = choose|k: int| 0 <= k < before.len() && #[trigger] before[k].0 == i;
                assert(entities[k].0 == i);
            } else {
                if exists|k: int| 0 <= k < entities.len() && #[trigger] entities[k].0 == i {
                    let k = choose|k: int|
                        0 <= k < entities.len() && #[trigger] entities[k].0 == i;
                    assert(before[k].0 == i);
                }
            }
        }
    }
}

/// Once an entity has left the arena, it is gone and so is each of its
/// ghosts, whichever of them lived before; the collider it had went with it;
/// and no other entity has changed.
pub proof fn lemma_despawn_cascade(slots: Slots, entity: Entity)
    ensures
        despawned(slots, entity).len() == slots.len(),
        !alive(despawned(slots, entity), entity),
        forall|k: int|
            0 <= k < children_of(slots, entity).len() ==> !alive(
                despawned(slots, entity),
                #[trigger] children_of(slots, entity)[k],
            ),
        forall|other: Entity|
            other != entity && !children_of(slots, entity).contains(other) ==> #[trigger] lookup(
                despawned(slots, entity),
                other,
            ) == lookup(slots, other),
        forall|i: int|
            0 <= i < slots.len() ==> (#[trigger] despawned(slots, entity)[i]) is None
                || despawned(slots, entity)[i] == slots[i],
        !children_of(slots, entity).contains(entity) ==> report_of(slots, entity).missing_entity
            == !alive(slots, entity) && report_of(slots, entity).collider == match lookup(
            slots,
            entity,
        ) {
            Some(c) => c.collider,
            None => None,
        },
{
    let children = children_of(slots, entity);
    lemma_without_all(slots, children);
    let ghostless = without_all(slots, children);
    assert forall|k: int| 0 <= k < children.len() implies !alive(
        despawned(slots, entity),
        #[trigger] children[k],
    ) by {
        let child = children[k];
        if child.0 < slots.len() {
            assert(children[k].0 == child.0 as int);
        }
    }
    assert forall|other: Entity|
        other != entity && !children.contains(other) implies #[trigger] lookup(
        despawned(slots, entity),
        other,
    ) == lookup(slots, other) by {
        if other.0 < slots.len() {
            if exists|k: int| 0 <= k < children.len() && #[trigger] children[k].0 == other.0 {
                let k = choose|k: int|
                    0 <= k < children.len() && #[trigger] children[k].0 == other.0;
                assert(children[k] == other);
            }
        }
    }
}

/// A coordinate that has left the arena and moves on outward comes in at
/// the opposite edge, wherever beyond the edge it was; one that stands on
/// an edge and moves inward stays there; and wrapping what is wrapped
/// changes nothing.
pub proof fn lemma_wraparound(x: i32, speed: i32, half: i32)
    requires
        0 <= half,
    ensures
        x > half && speed > 0 ==> wrapped(x, speed, half) == -half,
        x < -half && speed < 0 ==> wrapped(x, speed, half) == half,
        speed > 0 ==> wrapped((-half) as i32, speed, half) == -half,
        speed < 0 ==> wrapped(half, speed, half) == half,
        wrapped(wrapped(x, speed, half), speed, half) == wrapped(x, speed, half),
{
}

/// A column of markers has one marker for each row on the axis and above
/// it and one for each row below it, and that twice over off the other axis.
proof fn lemma_column_count(x: int, rows: int)
    requires
        0 <= x,
    ensures
        column_markers(x, rows).len() == if rows <= 0 {
            0
        } else if x == 0 {
            2 * rows - 1
        } else {
            2 * (2 * rows - 1)
        },
    decreases rows,
{
    if rows > 0 {
        lemma_column_count(x, rows - 1);
    }
}

/// The grid has a marker wherever a column crosses a row, on either side of
/// either axis: as many as there are columns, counted on both sides of the
/// centre, times rows, counted likewise.
pub proof fn lemma_marker_count(columns: int, rows: int)
    ensures
        grid_markers(columns, rows).len() == if columns <= 0 || rows <= 0 {
            0
        } else {
            (2 * columns - 1) * (2 * rows - 1)
        },
    decreases columns,
{
    if columns > 0 {
        lemma_marker_count(columns - 1, rows);
        lemma_column_count(columns - 1, rows);
        if rows > 0 {
            if columns == 1 {
                assert((2 * columns - 1) * (2 * rows - 1) == 2 * rows - 1) by (nonlinear_arith)
                    requires
                        columns == 1,
                ;
            } else {
                assert((2 * columns - 1) * (2 * rows - 1) == (2 * (columns - 1) - 1) * (2 * rows
                    - 1) + 2 * (2 * rows - 1)) by (nonlinear_arith);
            }
        }
    }
}

/// A frame leaves an undamped speed as it is: what comes in at the opposite
/// edge comes in as fast as it left. A frame that takes time stops what is
/// damped to nothing, and no frame makes anything faster.
pub proof fn lemma_decay(speed: i32, time: &Time, dampening: u32)
    requires
        time.sound(),
    ensures
        dampening >= 1000 ==> scaled(speed as int, time.factor(dampening) as int) == speed,
        dampening == 0 && time.elapsed() > 0 ==> scaled(
            speed as int,
            time.factor(dampening) as int,
        ) == 0,
        speed >= 0 ==> 0 <= scaled(speed as int, time.factor(dampening) as int) <= speed,
        speed <= 0 ==> speed <= scaled(speed as int, time.factor(dampening) as int) <= 0,
{
    let f = time.factor(dampening) as int;
    assert(speed * 0 == 0);
    assert(speed * 1000 / 1000 == speed);
    assert(0 <= f <= 1000) by {
        if dampening < 1001 {
            assert(time.table()[dampening as int] <= 1000);
        } else {
            assert(time.table()[1000] <= 1000);
        }
    }
    if speed >= 0 {
        assert(0 <= speed * f <= speed * 1000) by (nonlinear_arith)
            requires
                0 <= f <= 1000,
                speed >= 0,
        ;
    } else {
        assert(0 <= (-speed) * f <= (-speed) * 1000) by (nonlinear_arith)
            requires
                0 <= f <= 1000,
                speed < 0,
        ;
        assert(speed * f == -((-speed) * f)) by (nonlinear_arith);
    }
}

/// After a frame, a coordinate that the frame has carried out of the arena
/// while it still moves outward stands on the opposite edge.
pub proof fn lemma_step_wraps(x: i32, speed: i32, extent: i32, time: &Time, dampening: u32)
    requires
        0 <= extent,
    ensures
        ({
            let moved = advanced(x, speed, time.elapsed());
            let damped = scaled(speed as int, time.factor(dampening) as int);
            &&& moved > half(extent) && damped > 0 ==> stepped_axis(
                x,
                speed,
                extent,
                time,
                dampening,
            ) == -half(extent)
            &&& moved < -half(extent) && damped < 0 ==> stepped_axis(
                x,
                speed,
                extent,
                time,
                dampening,
            ) == half(extent)
            &&& -half(extent) <= moved <= half(extent) ==> stepped_axis(
                x,
                speed,
                extent,
                time,
                dampening,
            ) == moved
        }),
{
}

/// The quarter of a point is told by the signs of its coordinates, where
/// nothing counts as negative: west for `x <= 0`, south for `y <= 0`.
pub proof fn lemma_quadrant_by_signs(x: int, y: int)
    ensures
        quadrant_at(x, y).is_west() <==> x <= 0,
        quadrant_at(x, y).is_south() <==> y <= 0,
{
}

/// Once a camera has followed its entity, the quarter on screen is the
/// quarter of that entity; where no camera moves, the quarter stays.
pub proof fn lemma_follow_shows_quadrant(slots: Slots, shown: ArenaQuadrant, i: int)
    requires
        0 <= i < slots.len(),
    ensures
        moving_camera(slots, i) is Some ==> followed(slots, shown, i).1 == quadrant_at(
            slots[i].unwrap().transform.unwrap().translation.x as int,
            slots[i].unwrap().transform.unwrap().translation.y as int,
        ),
        moving_camera(slots, i) is None ==> followed(slots, shown, i) == (slots, shown),
{
}

/// The camera that is brought over the entity of slot `i`: the one that the
/// slot names, if the entity has a place and the camera lives, is a camera
/// and has a place.
pub open spec fn moving_camera(slots: Slots, i: int) -> Option<Entity> {
    match slots[i] {
        Some(c) => match (c.followed_camera, c.transform) {
            (Some(f), Some(_)) => match lookup(slots, f.0) {
                Some(cam) => if cam.camera is Some && cam.transform is Some {
                    Some(f.0)
                } else {
                    None
                },
                None => None,
            },
            _ => None,
        },
        None => None,
    }
}

/// Following keeps every slot as alive as it was and following whom it did.
proof fn lemma_followed_keeps(slots: Slots, shown: ArenaQuadrant, i: int)
    requires
        0 <= i < slots.len(),
    ensures
        followed(slots, shown, i).0.len() == slots.len(),
        forall|j: int|
            0 <= j < slots.len() ==> match (#[trigger] followed(slots, shown, i).0[j]) {
                Some(c) => slots[j] matches Some(was) && c.followed_camera == was.followed_camera
                    && c.camera == was.camera && (c.transform is Some <==> was.transform is Some),
                None => slots[j] is None,
            },
{
}

/// Where one entity alone is followed, and its camera lives, is a camera
/// and has a place, the quarter on screen after following is the quarter of
/// that entity, whatever was on screen before.
pub proof fn lemma_follow_shows_quadrant_of_the_followed(
    slots: Slots,
    shown: ArenaQuadrant,
    i: int,
    n: nat,
)
    requires
        0 <= i < slots.len(),
        n <= slots.len(),
        moving_camera(slots, i) is Some,
        moving_camera(slots, i) != Some(Entity(i as usize)),
        forall|j: int|
            0 <= j < slots.len() && j != i ==> ((#[trigger] slots[j]) matches Some(c)
                ==> c.followed_camera is None),
    ensures
        n <= i ==> followed_all(slots, shown, n) == (slots, shown),
        n > i ==> followed_all(slots, shown, n) == followed(slots, shown, i),
        n > i ==> followed_all(slots, shown, n).1 == quadrant_at(
            slots[i].unwrap().transform.unwrap().translation.x as int,
            slots[i].unwrap().transform.unwrap().translation.y as int,
        ),
    decreases n,
{
    if n > 0 {
        lemma_follow_shows_quadrant_of_the_followed(slots, shown, i, (n - 1) as nat);
        if n - 1 > i {
            lemma_followed_keeps(slots, shown, i);
            let before = followed(slots, shown, i);
            assert(before.0[n - 1] is Some ==> before.0[n - 1].unwrap().followed_camera is None);
        }
    }
}

/// The three ghosts of a quarter stand where the parent is seen again
/// across the two edges of that quarter and across its corner: away from
/// the centre along the first axis, along the second, and along both. So no
/// two of them stand in the same place, and none stands on the parent.
pub proof fn lemma_ghost_offsets(shown: ArenaQuadrant, size: Vec2)
    ensures
        ({
            let dx: int = if shown.is_west() {
                -size.x
            } else {
                size.x as int
            };
            let dy: int = if shown.is_south() {
                -size.y
            } else {
                size.y as int
            };
            &&& forall|id: u8|
                id < GHOSTS ==> (#[trigger] ghost_offset(shown, id, size) == (dx, 0int)
                    || ghost_offset(shown, id, size) == (dx, dy) || ghost_offset(shown, id, size)
                    == (0int, dy))
            &&& exists|id: u8| id < GHOSTS && #[trigger] ghost_offset(shown, id, size) == (dx, 0int)
            &&& exists|id: u8| id < GHOSTS && #[trigger] ghost_offset(shown, id, size) == (dx, dy)
            &&& exists|id: u8| id < GHOSTS && #[trigger] ghost_offset(shown, id, size) == (0int, dy)
        }),
{
    assert(ghost_offset(shown, 0, size) == ghost_offset(shown, 0, size));
    assert(ghost_offset(shown, 1, size) == ghost_offset(shown, 1, size));
    assert(ghost_offset(shown, 2, size) == ghost_offset(shown, 2, size));
}

/// An entity spawned with ghosts has exactly three, numbered from nothing
/// to two, and once the ghosts are brought next to it, each stands where
/// its number and the quarter on screen put it, with the heading and the
/// size of the entity.
pub proof fn lemma_ghosts_mirror_parent(
    slots: Slots,
    body: Components,
    material: Material,
    arena: Arena,
    id: u8,
)
    requires
        id < GHOSTS,
        slots.len() + 3 <= usize::MAX,
        body.transform is Some,
        body.sprite_ghost is None,
    ensures
        ({
            let parent = Entity(slots.len() as usize);
            let all = sprouted(slots, body, material);
            &&& children_of(all, parent).len() == GHOSTS
            &&& children_of(all, parent)[id as int] == Entity((slots.len() + 1 + id) as usize)
            &&& mirrored(all, arena, slots.len() + 1 + id) == Some(
                Components {
                    transform: Some(ghost_transform(body.transform.unwrap(), arena, id)),
                    ..ghost_components(material, parent, id)
                },
            )
        }),
{
    let parent = Entity(slots.len() as usize);
    let all = sprouted(slots, body, material);
    lemma_ghost_made(SpriteGhost::made(parent, id));
    assert(all[slots.len() as int] == Some(
        Components { ghost_children: Some(SpriteGhostChildren::next_to(parent)), ..body },
    ));
    assert(all[slots.len() + 1 + id] == Some(ghost_components(material, parent, id)));
    assert(lookup(all, parent) == all[slots.len() as int]);
}

/// A ghost is what its parent and its number make it.
pub proof fn lemma_ghost_made(g: SpriteGhost)
    ensures
        g == SpriteGhost::made(g.guardian(), g.number()),
        forall|parent: Entity, id: u8|
            #![trigger SpriteGhost::made(parent, id)]
            SpriteGhost::made(parent, id).guardian() == parent && SpriteGhost::made(
                parent,
                id,
            ).number() == id,
{
}

/// The quarter of the plane that holds `position`.
pub fn quadrant_of(position: Vec2) -> (shown: ArenaQuadrant)
    ensures
        shown == quadrant_at(position.x as int, position.y as int),
{
    if position.x <= 0 {
        if position.y <= 0 {
            ArenaQuadrant::SW
        } else {
            ArenaQuadrant::NW
        }
    } else {
        if position.y <= 0 {
            ArenaQuadrant::SE
        } else {
            ArenaQuadrant::NE
        }
    }
}

/// Where the ghost numbered `id` stands when its parent stands at `parent`.
pub fn place_ghost(parent: &Transform, arena: &Arena, id: u8) -> (placed: Transform)
    requires
        id < GHOSTS,
    ensures
        placed == ghost_transform(*parent, *arena, id),
{
    let w: i64 = arena.size.x as i64;
    let h: i64 = arena.size.y as i64;
    let (dx, dy): (i64, i64) = match arena.shown {
        ArenaQuadrant::NW => if id == 0 {
            (-w, 0)
        } else if id == 1 {
            (-w, h)
        } else {
            (0, h)
        },
        ArenaQuadrant::NE => if id == 0 {
            (0, h)
        } else if id == 1 {
            (w, h)
        } else {
            (w, 0)
        },
        ArenaQuadrant::SE => if id == 0 {
            (w, 0)
        } else if id == 1 {
            (w, -h)
        } else {
            (0, -h)
        },
        ArenaQuadrant::SW => if id == 0 {
            (0, -h)
        } else if id == 1 {
            (-w, -h)
        } else {
            (-w, 0)
        },
    };
    Transform {
        translation: Vec3 {
            x: saturate(parent.translation.x as i64 + dx),
            y: saturate(parent.translation.y as i64 + dy),
            z: parent.translation.z,
        },
        rotation: parent.rotation,
        scale: parent.scale,
    }
}

/// Brings every ghost next to its parent, for the quarter that is on screen.
pub fn spriteghost_quadrant_system(arena: &Arena, world: &mut World)
    ensures
        final(world)@.len() == old(world)@.len(),
        forall|i: int|
            0 <= i < old(world)@.len() ==> #[trigger] final(world)@[i] == mirrored(
                old(world)@,
                *arena,
                i,
            ),
{
    let n = world.len();
    let mut i: usize = 0;
    while i < n
        invariant
            i <= n,
            n == old(world)@.len(),
            world@.len() == n,
            forall|j: int| 0 <= j < i ==> #[trigger] world@[j] == mirrored(old(world)@, *arena, j),
            forall|j: int| i <= j < n ==> #[trigger] world@[j] == old(world)@[j],
            forall|j: int|
                0 <= j < n && (old(world)@[j] matches Some(c) && c.sprite_ghost is None)
                    ==> #[trigger] world@[j] == old(world)@[j],
        decreases n - i,
    {
        if let Some(c) = world.get(Entity(i)) {
            if let Some(g) = c.sprite_ghost {
                if c.transform.is_some() {
                    if let Some(p) = world.get(g.parent()) {
                        if p.sprite_ghost.is_none() {
                            if let Some(t) = p.transform {
                                let mut moved = c;
                                moved.transform = Some(place_ghost(&t, arena, g.id()));
                                world.set(Entity(i), moved);
                            }
                        }
                    }
                }
            }
        }
        i = i + 1;
    }
}

/// Moves a coordinate at `speed` units per second for `delta` thousandths
/// of a second.
pub fn advance(x: i32, speed: i32, delta: u32) -> (moved: i32)
    ensures
        moved == advanced(x, speed, delta),
{
    assert(-9223372036854775808 <= (speed as int) * (delta as int) <= 9223372036854775807)
        by (nonlinear_arith)
        requires
            -2147483648 <= speed <= 2147483647,
            0 <= delta <= 4294967295,
    ;
    let way: i64 = div_trunc((speed as i64) * (delta as i64), 1000);
    assert(-9223372036854775 <= way <= 9223372036854775) by {
        let product = (speed as int) * (delta as int);
        if product >= 0 {
            assert(0 <= product / 1000 <= 9223372036854775);
        } else {
            assert(0 <= (-product) / 1000 <= 9223372036854775);
        }
    }
    saturate((x as i64) + way)
}

/// Brings a coordinate back into an arena that reaches `half` to either
/// side, if it has left it and still moves away.
pub fn wrap(x: i32, speed: i32, half: i32) -> (inside: i32)
    requires
        half > i32::MIN,
    ensures
        inside == wrapped(x, speed, half),
        x > half && speed > 0 ==> inside == -half,
        x < -half && speed < 0 ==> inside == half,
        -half <= x <= half ==> inside == x,
{
    if x < -half && speed < 0 {
        half
    } else if x > half && speed > 0 {
        -half
    } else {
        x
    }
}

/// Moves whatever has a place and a movement, lets its speed decay, and
/// brings back in at the opposite edge what left the arena.
pub fn position_system(time: &Time, arena: &Arena, world: &mut World)
    ensures
        time.sound(),
        final(world)@.len() == old(world)@.len(),
        forall|i: int|
            0 <= i < old(world)@.len() ==> #[trigger] final(world)@[i] == positioned(
                old(world)@[i],
                *arena,
                time,
            ),
{
    let n = world.len();
    let delta = time.delta();
    let half_width: i32 = arena.size.x / 2;
    let half_height: i32 = arena.size.y / 2;
    let mut i: usize = 0;
    while i < n
        invariant
            i <= n,
            n == old(world)@.len(),
            world@.len() == n,
            delta == time.elapsed(),
            half_width == half(arena.size.x),
            half_height == half(arena.size.y),
            forall|j: int|
                0 <= j < i ==> #[trigger] world@[j] == positioned(old(world)@[j], *arena, time),
            forall|j: int| i <= j < n ==> #[trigger] world@[j] == old(world)@[j],
        decreases n - i,
    {
        if let Some(c) = world.get(Entity(i)) {
            if let Some(t) = c.transform {
                if let Some(m) = c.movement {
                    let factor = time.decay(m.dampening);
                    let speed = Vec2 { x: scale(m.speed.x, factor), y: scale(m.speed.y, factor) };
                    let x = wrap(advance(t.translation.x, m.speed.x, delta), speed.x, half_width);
                    let y = wrap(advance(t.translation.y, m.speed.y, delta), speed.y, half_height);
                    let mut moved = c;
                    moved.transform = Some(
                        Transform { translation: Vec3 { x, y, z: t.translation.z }, ..t },
                    );
                    moved.movement = Some(Movement { speed, ..m });
                    world.set(Entity(i), moved);
                }
            }
        }
        i = i + 1;
    }
}

/// Brings each camera over the entity it follows, and puts on screen the
/// quarter of the arena that holds that entity. Says whether another quarter
/// came on screen.
pub fn camera_follow_system(arena: &mut Arena, world: &mut World) -> (changed: bool)
    ensures
        final(world)@ == followed_all(old(world)@, old(arena).shown, old(world)@.len()).0,
        final(arena).shown == followed_all(old(world)@, old(arena).shown, old(world)@.len()).1,
        final(arena).size == old(arena).size,
        changed == (final(arena).shown != old(arena).shown),
{
    let before = arena.shown;
    let n = world.len();
    let mut i: usize = 0;
    while i < n
        invariant
            i <= n,
            n == old(world)@.len(),
            world@.len() == n,
            arena.size == old(arena).size,
            before == old(arena).shown,
            (world@, arena.shown) == followed_all(old(world)@, old(arena).shown, i as nat),
        decreases n - i,
    {
        if let Some(c) = world.get(Entity(i)) {
            if let Some(f) = c.followed_camera {
                if let Some(t) = c.transform {
                    if let Some(cam) = world.get(f.0) {
                        if cam.camera.is_some() {
                            if let Some(seen) = cam.transform {
                                let mut moved = cam;
                                moved.transform = Some(
                                    Transform { translation: t.translation, ..seen },
                                );
                                world.set(f.0, moved);
                                arena.shown = quadrant_of(t.translation.truncate());
                            }
                        }
                    }
                }
            }
        }
        i = i + 1;
    }
    arena.shown != before
}

/// The markers to draw for an arena: a grid of dots around the centre, one
/// cell for every two hundred units of width and of height.
pub fn spawn_arena_markers(arena: &Arena) -> (markers: Vec<Marker>)
    ensures
        markers@ == grid_markers(marker_cells(arena.size.x), marker_cells(arena.size.y)),
{
    let columns: i32 = if arena.size.x <= 0 {
        0
    } else {
        arena.size.x / MARKER_CELL
    };
    let rows: i32 = if arena.size.y <= 0 {
        0
    } else {
        arena.size.y / MARKER_CELL
    };
    let mut markers: Vec<Marker> = Vec::new();
    let mut x: i32 = 0;
    while x < columns
        invariant
            0 <= x <= columns <= 10737,
            0 <= rows <= 10737,
            markers@ == grid_markers(x as int, rows as int),
        decreases columns - x,
    {
        let mut y: i32 = 0;
        while y < rows
            invariant
                0 <= x < columns <= 10737,
                0 <= y <= rows <= 10737,
                markers@ == grid_markers(x as int, rows as int) + column_markers(
                    x as int,
                    y as int,
                ),
            decreases rows - y,
        {
            let shade: u32 = if x == 0 && y == 0 {
                900
            } else if x == 0 || y == 0 {
                700
            } else {
                500
            };
            let ghost before = markers@;
            markers.push(
                Marker {
                    translation: Vec3 { x: x * MARKER_STEP, y: y * MARKER_STEP, z: MARKER_DEPTH },
                    shade,
                },
            );
            if x != 0 {
                markers.push(
                    Marker {
                        translation: Vec3 {
                            x: -x * MARKER_STEP,
                            y: y * MARKER_STEP,
                            z: MARKER_DEPTH,
                        },
                        shade,
                    },
                );
            }
            if y != 0 {
                markers.push(
                    Marker {
                        translation: Vec3 {
                            x: x * MARKER_STEP,
                            y: -y * MARKER_STEP,
                            z: MARKER_DEPTH,
                        },
                        shade,
                    },
                );
            }
            if y != 0 && x != 0 {
                markers.push(
                    Marker {
                        translation: Vec3 {
                            x: -x * MARKER_STEP,
                            y: -y * MARKER_STEP,
                            z: MARKER_DEPTH,
                        },
                        shade,
                    },
                );
            }
            assert(markers@ =~= before + cell_markers(x as int, y as int));
            assert(markers@ =~= grid_markers(x as int, rows as int) + column_markers(
                x as int,
                y + 1,
            ));
            y = y + 1;
        }
        x = x + 1;
    }
    markers
}

impl ArenaExt for World {
    open spec fn slots(&self) -> Slots {
        self@
    }

    fn spawn_with_ghosts(&mut self, sprite: SpriteComponents) -> (parent: Entity) {
        let mut body = Components::sprite(sprite);
        let parent = self.spawn(body);
        let mut children: [Entity; 3] = [parent, parent, parent];
        let mut id: u8 = 0;
        while id < GHOSTS
            invariant
                id <= GHOSTS,
                parent.0 == old(self)@.len(),
                self@.len() == parent.0 + 1 + id,
                self@.subrange(0, parent.0 + 1) == old(self)@.push(Some(body)),
                forall|k: int| 0 <= k < id ==> (#[trigger] children@[k]).0 == parent.0 + 1 + k,
                forall|k: u8|
                    k < id ==> #[trigger] self@[parent.0 + 1 + k] == Some(
                        ghost_components(sprite.material, parent, k),
                    ),
            decreases GHOSTS - id,
        {
            let mut g = Components::empty();
            g.transform = Some(Transform::identity());
            g.material = Some(sprite.material);
            g.sprite_ghost = SpriteGhost::new(parent, id);
            let child = self.spawn(g);
            children[id as usize] = child;
            id = id + 1;
        }
        let ghost grown = self@;
        body.ghost_children = Some(SpriteGhostChildren(children));
        self.set(parent, body);
        proof {
            let made = sprouted(old(self)@, Components::sprite_spec(sprite), sprite.material);
            assert(grown[parent.0 + 1 + 0u8] == made[parent.0 + 1]);
            assert(grown[parent.0 + 1 + 1u8] == made[parent.0 + 2]);
            assert(grown[parent.0 + 1 + 2u8] == made[parent.0 + 3]);
            assert(children@ =~= SpriteGhostChildren::next_to(parent).0@);
            assert(children == SpriteGhostChildren::next_to(parent).0);
            assert(grown.subrange(0, parent.0 + 1)[parent.0 as int] == Some(
                Components::sprite_spec(sprite),
            ));
            assert forall|i: int| 0 <= i < parent.0 implies self@[i] == made[i] by {
                assert(grown.subrange(0, parent.0 + 1)[i] == grown[i]);
            }
            assert(self@ =~= made);
        }
        parent
    }

    fn despawn_from_arena(&mut self, entity: Entity) -> (report: DespawnReport) {
        let mut missing_ghosts: u8 = 0;
        if let Some(c) = self.get(entity) {
            if let Some(children) = c.ghost_children {
                let mut k: usize = 0;
                while k < 3
                    invariant
                        k <= 3,
                        children.0@ == children_of(old(self)@, entity),
                        self@ == without_all(old(self)@, children.0@.take(k as int)),
                        missing_ghosts == missing_among(old(self)@, children.0@.take(k as int)),
                        missing_ghosts <= k,
                    decreases 3 - k,
                {
                    proof {
                        let upto = children.0@.take(k + 1);
                        assert(upto.drop_last() == children.0@.take(k as int));
                        assert(upto.last() == children.0@[k as int]);
                    }
                    if !self.despawn(children.0[k]) {
                        missing_ghosts = missing_ghosts + 1;
                    }
                    k = k + 1;
                }
                assert(children.0@.take(3) == children.0@);
            }
        }
        let collider = match self.get(entity) {
            Some(c) => c.collider,
            None => None,
        };
        let missing_entity = !self.despawn(entity);
        DespawnReport { missing_ghosts, collider, missing_entity }
    }
}

} // verus!
