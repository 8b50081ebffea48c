//! From touching colliders to what happens in the game.
use vstd::prelude::*;
use ncollide2d::pipeline::CollisionGroups;
use ncollide2d::pipeline::CollisionObjectSlabHandle;
use crate::arena::ArenaExt;
use crate::arena::despawned;
use crate::arena::DespawnReport;
use crate::arena::lemma_despawn_cascade;
use crate::arena::report_of;
use crate::armor::Armor;
use crate::armor::life_after;
use crate::components::Components;
use crate::components::Entity;
use crate::input::CursorSelection;
use crate::loot::LootEvent;
use crate::math::Vec2;
use crate::spaceship::upgraded;
use crate::spaceship::XpEvent;
use crate::world::lookup;
use crate::world::Slots;
use crate::world::with;
use crate::world::World;

verus! {

#[derive(Clone, Copy, PartialEq, Eq, Debug, Structural)]
pub enum ColliderType {
    Ship,
    Enemy,
    Missile,
    Loot,
    Cursor,
}

#[derive(Clone, Copy, PartialEq, Eq, Debug, Structural)]
pub enum CollisionEvent {
    /// A missile, then the enemy it touches.
    MissileToEnemy(Entity, Entity),
    /// A ship, then the loot it touches.
    ShipToLoot(Entity, Entity),
}

/// A sound to play.
#[derive(Clone, Copy, PartialEq, Eq, Debug, Structural)]
pub enum Cue {
    /// An enemy is destroyed.
    ExplosionFinal,
    /// An enemy is hit and lives on.
    Explosion,
    /// Loot is picked up.
    Pickup,
    /// A missile is shot.
    Laser,
}

impl Cue {
    /// The name of the file that holds the sound.
    pub open spec fn file(self) -> Seq<char> {
        match self {
            Cue::ExplosionFinal => "Explosion_final.mp3"@,
            Cue::Explosion => "Explosion.mp3"@,
            Cue::Pickup => "zapThreeToneUp.ogg"@,
            Cue::Laser => "sfx_laser1.mp3"@,
        }
    }

    pub fn asset(&self) -> (name: String)
        ensures
            name@ == self.file(),
    {
        match self {
            Cue::ExplosionFinal => "Explosion_final.mp3".to_owned(),
            Cue::Explosion => "Explosion.mp3".to_owned(),
            Cue::Pickup => "zapThreeToneUp.ogg".to_owned(),
            Cue::Laser => "sfx_laser1.mp3".to_owned(),
        }
    }
}

/// Where the collider of an entity has to be.
#[derive(Clone, Copy, Debug)]
pub struct ColliderPosition {
    pub handle: CollisionObjectSlabHandle,
    pub position: Vec2,
}

/// What became of a collider that was to be noted on an entity.
#[derive(Clone, Copy, Debug)]
pub enum Attachment {
    /// The entity had no collider and has this one now.
    Attached,
    /// The entity has this one now; the one it had is of no use any more.
    Replaced(CollisionObjectSlabHandle),
    /// The entity is gone, and this collider is of no use.
    Refused,
}

/// What resolving events has led to: the store, and what was sent out on
/// the way.
pub struct Resolved {
    pub slots: Slots,
    pub xp_events: Seq<XpEvent>,
    pub loot_events: Seq<LootEvent>,
    pub cues: Seq<Cue>,
    pub reports: Seq<DespawnReport>,
}

/// What `collision_event_system` sends out.
pub struct Resolution {
    pub xp_events: Vec<XpEvent>,
    pub loot_events: Vec<LootEvent>,
    pub cues: Vec<Cue>,
    /// One report for each entity that left the arena, in the order in
    /// which they left.
    pub reports: Vec<DespawnReport>,
}

/// The collision groups of the backend: who a collider is, whom it lets
/// touch it, and whom it never touches.
#[verifier::external_type_specification]
#[verifier::external_body]
pub struct ExCollisionGroups(CollisionGroups);

/// The groups that `groups` is a member of.
pub uninterp spec fn membership(groups: CollisionGroups) -> Set<usize>;

/// The groups that `groups` lets touch it.
pub uninterp spec fn whitelist(groups: CollisionGroups) -> Set<usize>;

/// The groups that `groups` never touches.
pub uninterp spec fn blacklist(groups: CollisionGroups) -> Set<usize>;

/// The collision groups of each kind of collider.
pub struct CollideGroups {
    pub ships: CollisionGroups,
    pub enemies: CollisionGroups,
    pub missiles: CollisionGroups,
    pub loots: CollisionGroups,
    pub cursors: CollisionGroups,
}

/// How many groups the backend knows; they are numbered from zero.
pub const GROUP_COUNT: usize = 30;

/// Every group that the backend knows.
pub open spec fn all_groups() -> Set<usize> {
    Set::new(|g: usize| g < GROUP_COUNT)
}

/// The group that colliders of kind `kind` are members of.
pub open spec fn group_of(kind: ColliderType) -> usize {
    match kind {
        ColliderType::Ship => 1,
        ColliderType::Enemy => 2,
        ColliderType::Missile => 3,
        ColliderType::Loot => 4,
        ColliderType::Cursor => 5,
    }
}

/// Whether a collider of kind `kind` lets one of kind `other` touch it.
pub open spec fn accepts(kind: ColliderType, other: ColliderType) -> bool {
    match kind {
        ColliderType::Ship => other == ColliderType::Enemy || other == ColliderType::Missile
            || other == ColliderType::Loot,
        ColliderType::Enemy => other == ColliderType::Ship || other == ColliderType::Enemy
            || other == ColliderType::Missile || other == ColliderType::Cursor,
        ColliderType::Missile => other == ColliderType::Enemy,
        ColliderType::Loot => other == ColliderType::Ship || other == ColliderType::Cursor,
        ColliderType::Cursor => other == ColliderType::Enemy || other == ColliderType::Loot,
    }
}

/// Whether colliders of these two kinds are reported when they touch: each
/// has to let the other touch it.
pub open spec fn collides(kind: ColliderType, other: ColliderType) -> bool {
    accepts(kind, other) && accepts(other, kind)
}

/// Whether the backend lets colliders of these two groups interact: each is
/// a member of a group that the other whitelists, and neither is a member of
/// a group that the other blacklists.
pub open spec fn can_interact(a: CollisionGroups, b: CollisionGroups) -> bool {
    &&& membership(a).disjoint(blacklist(b))
    &&& membership(b).disjoint(blacklist(a))
    &&& !membership(a).disjoint(whitelist(b))
    &&& !membership(b).disjoint(whitelist(a))
}

/// The groups listed in `ids` are groups that the backend knows.
pub open spec fn known_groups(ids: Seq<usize>) -> bool {
    forall|i: int| 0 <= i < ids.len() ==> ids[i] < GROUP_COUNT
}

/// `CollisionGroups::new` of ncollide2d. The groups it makes are a member of
/// every group, whitelist every group and blacklist none.
#[verifier::external_body]
fn groups_new() -> (groups: CollisionGroups)
    ensures
        membership(groups) == all_groups(),
        whitelist(groups) == all_groups(),
        blacklist(groups) == Set::<usize>::empty(),
{
    CollisionGroups::new()
}

/// `CollisionGroups::with_membership` of ncollide2d, which panics on a group
/// that the backend does not know. The result is a member of the listed
/// groups and of no other; its two lists are those of `groups`.
#[verifier::external_body]
fn groups_with_membership(groups: CollisionGroups, ids: &Vec<usize>) -> (made: CollisionGroups)
    requires
        known_groups(ids@),
    ensures
        membership(made) == ids@.to_set(),
        whitelist(made) == whitelist(groups),
        blacklist(made) == blacklist(groups),
{
    groups.with_membership(ids.as_slice())
}

/// `CollisionGroups::with_whitelist` of ncollide2d, which panics on a group
/// that the backend does not know. The result whitelists the listed groups
/// and no other; the rest is that of `groups`.
#[verifier::external_body]
fn groups_with_whitelist(groups: CollisionGroups, ids: &Vec<usize>) -> (made: CollisionGroups)
    requires
        known_groups(ids@),
    ensures
        membership(made) == membership(groups),
        whitelist(made) == ids@.to_set(),
        blacklist(made) == blacklist(groups),
{
    groups.with_whitelist(ids.as_slice())
}

/// `CollisionGroups::can_interact_with_groups` of ncollide2d, by which the
/// backend decides whether two colliders are reported when they touch: each
/// has to be a member of a group that the other whitelists, and neither of a
/// group that the other blacklists.
#[verifier::external_body]
fn groups_can_interact(a: &CollisionGroups, b: &CollisionGroups) -> (allowed: bool)
    ensures
        allowed == can_interact(*a, *b),
{
    a.can_interact_with_groups(b)
}

impl CollideGroups {
    /// The groups of the colliders of kind `kind`.
    pub open spec fn of(&self, kind: ColliderType) -> CollisionGroups {
        match kind {
            ColliderType::Ship => self.ships,
            ColliderType::Enemy => self.enemies,
            ColliderType::Missile => self.missiles,
            ColliderType::Loot => self.loots,
            ColliderType::Cursor => self.cursors,
        }
    }

    /// Each kind is a member of its own group alone, whitelists the groups
    /// of the kinds it lets touch it, and blacklists none.
    pub open spec fn configured(&self) -> bool {
        forall|kind: ColliderType|
            #![trigger self.of(kind)]
            {
                &&& membership(self.of(kind)) == set![group_of(kind)]
                &&& whitelist(self.of(kind)) == Set::new(
                    |g: usize|
                        exists|other: ColliderType| accepts(kind, other) && g == group_of(other),
                )
                &&& blacklist(self.of(kind)) == Set::<usize>::empty()
            }
    }

    pub fn groups(&self, kind: ColliderType) -> (groups: CollisionGroups)
        ensures
            groups == self.of(kind),
    {
        match kind {
            ColliderType::Ship => self.ships,
            ColliderType::Enemy => self.enemies,
            ColliderType::Missile => self.missiles,
            ColliderType::Loot => self.loots,
            ColliderType::Cursor => self.cursors,
        }
    }

    /// Asks the backend whether it reports colliders of these two kinds when
    /// they touch. Under the groups that `setup_ncollide` makes, it does so
    /// exactly when each kind lets the other touch it.
    pub fn can_collide(&self, kind: ColliderType, other: ColliderType) -> (reported: bool)
        ensures
            reported == can_interact(self.of(kind), self.of(other)),
            self.configured() ==> reported == collides(kind, other),
    {
        proof {
            if self.configured() {
                lemma_groups_follow_table(*self, kind, other);
            }
        }
        let a = self.groups(kind);
        let b = self.groups(other);
        groups_can_interact(&a, &b)
    }
}

/// Makes the groups of one kind of collider from its own group and the
/// groups it whitelists. New groups blacklist none, and so do these.
fn groups_for(own: usize, allowed: Vec<usize>) -> (groups: CollisionGroups)
    requires
        own < GROUP_COUNT,
        known_groups(allowed@),
    ensures
        membership(groups) == set![own],
        whitelist(groups) == allowed@.to_set(),
        blacklist(groups) == Set::<usize>::empty(),
{
    let member: Vec<usize> = vec![own];
    assert(member@.to_set() =~= set![own]) by {
        assert(member@[0] == own);
        assert forall|g: usize| member@.contains(g) implies g == own by {
            let i = choose|i: int| 0 <= i < member@.len() && member@[i] == g;
        }
    }
    groups_with_whitelist(groups_with_membership(groups_new(), &member), &allowed)
}

/// Sets up the collision groups of the five kinds of collider.
pub fn setup_ncollide() -> (groups: CollideGroups)
    ensures
        groups.configured(),
{
    let ship_list: Vec<usize> = vec![2, 3, 4];
    let enemy_list: Vec<usize> = vec![1, 2, 3, 5];
    let missile_list: Vec<usize> = vec![2];
    let loot_list: Vec<usize> = vec![1, 5];
    let cursor_list: Vec<usize> = vec![2, 4];
    proof {
        lemma_whitelist(ColliderType::Ship, ship_list@);
        lemma_whitelist(ColliderType::Enemy, enemy_list@);
        lemma_whitelist(ColliderType::Missile, missile_list@);
        lemma_whitelist(ColliderType::Loot, loot_list@);
        lemma_whitelist(ColliderType::Cursor, cursor_list@);
    }
    let groups = CollideGroups {
        ships: groups_for(1, ship_list),
        enemies: groups_for(2, enemy_list),
        missiles: groups_for(3, missile_list),
        loots: groups_for(4, loot_list),
        cursors: groups_for(5, cursor_list),
    };
    assert forall|kind: ColliderType| #![trigger groups.of(kind)] {
        &&& membership(groups.of(kind)) == set![group_of(kind)]
        &&& whitelist(groups.of(kind)) == Set::new(
            |g: usize| exists|other: ColliderType| accepts(kind, other) && g == group_of(other),
        )
        &&& blacklist(groups.of(kind)) == Set::<usize>::empty()
    } by {
        match kind {
            ColliderType::Ship => {},
            ColliderType::Enemy => {},
            ColliderType::Missile => {},
            ColliderType::Loot => {},
            ColliderType::Cursor => {},
        }
    }
    groups
}

/// The kinds that a kind lets touch it, by their groups.
pub open spec fn whitelist_of(kind: ColliderType) -> Seq<usize> {
    match kind {
        ColliderType::Ship => seq![2usize, 3, 4],
        ColliderType::Enemy => seq![1usize, 2, 3, 5],
        ColliderType::Missile => seq![2usize],
        ColliderType::Loot => seq![1usize, 5],
        ColliderType::Cursor => seq![2usize, 4],
    }
}

proof fn lemma_whitelist(kind: ColliderType, list: Seq<usize>)
    requires
        list =~= whitelist_of(kind),
    ensures
        known_groups(list),
        list.to_set() == Set::new(
            |g: usize| exists|other: ColliderType| accepts(kind, other) && g == group_of(other),
        ),
{
    let allowed = Set::new(
        |g: usize| exists|other: ColliderType| accepts(kind, other) && g == group_of(other),
    );
    assert forall|g: usize| list.to_set().contains(g) <==> allowed.contains(g) by {
        if list.to_set().contains(g) {
            let i = choose|i: int| 0 <= i < list.len() && list[i] == g;
            let other = if g == 1 {
                ColliderType::Ship
            } else if g == 2 {
                ColliderType::Enemy
            } else if g == 3 {
                ColliderType::Missile
            } else if g == 4 {
                ColliderType::Loot
            } else {
                ColliderType::Cursor
            };
            assert(accepts(kind, other) && g == group_of(other));
        }
        if allowed.contains(g) {
            let other = choose|other: ColliderType| accepts(kind, other) && g == group_of(other);
            let i: int = match kind {
                ColliderType::Ship => g - 2,
                ColliderType::Enemy => if g == 5 {
                    3
                } else {
                    g - 1
                },
                ColliderType::Missile => 0,
                ColliderType::Loot => if g == 1 {
                    0
                } else {
                    1
                },
                ColliderType::Cursor => if g == 2 {
                    0
                } else {
                    1
                },
            };
            assert(list[i] == g);
        }
    }
    assert(list.to_set() =~= allowed);
}

/// Under the groups that `setup_ncollide` makes, the backend lets two
/// colliders interact exactly when each kind lets the other touch it; so
/// whether two kinds collide does not depend on their order.
pub proof fn lemma_groups_follow_table(groups: CollideGroups, a: ColliderType, b: ColliderType)
    requires
        groups.configured(),
    ensures
        can_interact(groups.of(a), groups.of(b)) == collides(a, b),
        collides(a, b) == collides(b, a),
{
    let ga = groups.of(a);
    let gb = groups.of(b);
    assert(membership(ga).contains(group_of(a)));
    assert(membership(gb).contains(group_of(b)));
    if accepts(b, a) {
        assert(whitelist(gb).contains(group_of(a)));
    } else {
        assert forall|g: usize| membership(ga).contains(g) implies !whitelist(gb).contains(g) by {
            if whitelist(gb).contains(g) {
                let other = choose|other: ColliderType| accepts(b, other) && g == group_of(other);
                assert(other == a);
            }
        }
    }
    if accepts(a, b) {
        assert(whitelist(ga).contains(group_of(b)));
    } else {
        assert forall|g: usize| membership(gb).contains(g) implies !whitelist(ga).contains(g) by {
            if whitelist(ga).contains(g) {
                let other = choose|other: ColliderType| accepts(a, other) && g == group_of(other);
                assert(other == b);
            }
        }
    }
}

/// The kind of the collider of `entity`, if it lives and has one.
pub open spec fn kind_of(slots: Slots, entity: Entity) -> Option<ColliderType> {
    match lookup(slots, entity) {
        Some(c) => c.collider_type,
        None => None,
    }
}

/// Every entity of every pair has a collider of a known kind.
pub open spec fn typed(slots: Slots, pairs: Seq<(Entity, Entity)>) -> bool {
    forall|i: int|
        0 <= i < pairs.len() ==> kind_of(slots, (#[trigger] pairs[i]).0) is Some && kind_of(
            slots,
            pairs[i].1,
        ) is Some
}

/// The event that two touching colliders give rise to: a missile that
/// touches an enemy, or a ship that touches loot, whichever of the two
/// comes first in the pair. The event names the missile or the ship first.
pub open spec fn pair_event(
    first: ColliderType,
    second: ColliderType,
    a: Entity,
    b: Entity,
) -> Option<CollisionEvent> {
    if first == ColliderType::Missile && second == ColliderType::Enemy {
        Some(CollisionEvent::MissileToEnemy(a, b))
    } else if second == ColliderType::Missile && first == ColliderType::Enemy {
        Some(CollisionEvent::MissileToEnemy(b, a))
    } else if first == ColliderType::Ship && second == ColliderType::Loot {
        Some(CollisionEvent::ShipToLoot(a, b))
    } else if second == ColliderType::Ship && first == ColliderType::Loot {
        Some(CollisionEvent::ShipToLoot(b, a))
    } else {
        None
    }
}

/// What the cursor points at, if one of two touching colliders is the
/// cursor and the other has the kind `wanted`.
pub open spec fn pair_pointed(
    first: ColliderType,
    second: ColliderType,
    a: Entity,
    b: Entity,
    wanted: ColliderType,
) -> Option<Entity> {
    if first == ColliderType::Cursor && second == wanted {
        Some(b)
    } else if second == ColliderType::Cursor && first == wanted {
        Some(a)
    } else {
        None
    }
}

/// `items` with `item` added at its end, if there is one.
pub open spec fn pushed<T>(items: Seq<T>, item: Option<T>) -> Seq<T> {
    match item {
        Some(it) => items.push(it),
        None => items,
    }
}

/// The events of the pairs `pairs`, in their order.
pub open spec fn events_of(slots: Slots, pairs: Seq<(Entity, Entity)>) -> Seq<CollisionEvent>
    decreases pairs.len(),
{
    if pairs.len() == 0 {
        Seq::empty()
    } else {
        let (a, b) = pairs.last();
        pushed(
            events_of(slots, pairs.drop_last()),
            pair_event(kind_of(slots, a).unwrap(), kind_of(slots, b).unwrap(), a, b),
        )
    }
}

/// The entities of kind `wanted` that the cursor touches in `pairs`, in
/// their order.
pub open spec fn pointed_of(
    slots: Slots,
    pairs: Seq<(Entity, Entity)>,
    wanted: ColliderType,
) -> Seq<Entity>
    decreases pairs.len(),
{
    if pairs.len() == 0 {
        Seq::empty()
    } else {
        let (a, b) = pairs.last();
        pushed(
            pointed_of(slots, pairs.drop_last(), wanted),
            pair_pointed(kind_of(slots, a).unwrap(), kind_of(slots, b).unwrap(), a, b, wanted),
        )
    }
}

/// Says whether every entity of every pair has a collider of a known kind.
pub fn all_typed(world: &World, pairs: &Vec<(Entity, Entity)>) -> (ok: bool)
    ensures
        ok == typed(world@, pairs@),
{
    let mut i: usize = 0;
    while i < pairs.len()
        invariant
            i <= pairs.len(),
            typed(world@, pairs@.take(i as int)),
        decreases pairs.len() - i,
    {
        let (a, b) = pairs[i];
        let first = match world.get(a) {
            Some(c) => c.collider_type,
            None => None,
        };
        let second = match world.get(b) {
            Some(c) => c.collider_type,
            None => None,
        };
        if first.is_none() || second.is_none() {
            return false;
        }
        assert forall|k: int| 0 <= k < i + 1 implies kind_of(
            world@,
            (#[trigger] pairs@.take(i + 1)[k]).0,
        ) is Some && kind_of(world@, pairs@.take(i + 1)[k].1) is Some by {
            if k < i {
                assert(pairs@.take(i as int)[k] == pairs@[k]);
            }
        }
        i = i + 1;
    }
    assert(pairs@.take(pairs.len() as int) == pairs@);
    true
}

/// Turns the pairs of touching colliders into events, in the order of the
/// pairs, and notes afresh what the cursor points at.
pub fn collision_system(
    world: &World,
    pairs: &Vec<(Entity, Entity)>,
    cursor_selection: &mut CursorSelection,
) -> (events: Vec<CollisionEvent>)
    requires
        typed(world@, pairs@),
    ensures
        events@ == events_of(world@, pairs@),
        final(cursor_selection).enemies@ == pointed_of(world@, pairs@, ColliderType::Enemy),
        final(cursor_selection).loots@ == pointed_of(world@, pairs@, ColliderType::Loot),
        final(cursor_selection).cursor_collider_handle == old(
            cursor_selection,
        ).cursor_collider_handle,
{
    let mut events: Vec<CollisionEvent> = Vec::new();
    cursor_selection.enemies = Vec::new();
    cursor_selection.loots = Vec::new();
    let mut i: usize = 0;
    while i < pairs.len()
        invariant
            i <= pairs.len(),
            typed(world@, pairs@),
            events@ == events_of(world@, pairs@.take(i as int)),
            cursor_selection.enemies@ == pointed_of(
                world@,
                pairs@.take(i as int),
                ColliderType::Enemy,
            ),
            cursor_selection.loots@ == pointed_of(
                world@,
                pairs@.take(i as int),
                ColliderType::Loot,
            ),
            cursor_selection.cursor_collider_handle == old(cursor_selection).cursor_collider_handle,
        decreases pairs.len() - i,
    {
        proof {
            let upto = pairs@.take(i + 1);
            assert(upto.drop_last() == pairs@.take(i as int));
            assert(upto.last() == pairs@[i as int]);
        }
        let (a, b) = pairs[i];
        let first = match world.get(a) {
            Some(c) => c.collider_type,
            None => None,
        };
        let second = match world.get(b) {
            Some(c) => c.collider_type,
            None => None,
        };
        if let Some(first) = first {
            if let Some(second) = second {
                if first == ColliderType::Missile && second == ColliderType::Enemy {
                    events.push(CollisionEvent::MissileToEnemy(a, b));
                } else if second == ColliderType::Missile && first == ColliderType::Enemy {
                    events.push(CollisionEvent::MissileToEnemy(b, a));
                } else if first == ColliderType::Ship && second == ColliderType::Loot {
                    events.push(CollisionEvent::ShipToLoot(a, b));
                } else if second == ColliderType::Ship && first == ColliderType::Loot {
                    events.push(CollisionEvent::ShipToLoot(b, a));
                }
                if first == ColliderType::Cursor {
                    if second == ColliderType::Enemy {
                        cursor_selection.enemies.push(b);
                    }
                    if second == ColliderType::Loot {
                        cursor_selection.loots.push(b);
                    }
                } else if second == ColliderType::Cursor {
                    if first == ColliderType::Enemy {
                        cursor_selection.enemies.push(a);
                    }
                    if first == ColliderType::Loot {
                        cursor_selection.loots.push(a);
                    }
                }
            }
        }
        i = i + 1;
    }
    assert(pairs@.take(pairs.len() as int) == pairs@);
    events
}

/// Where the collider of the slot has to be, if the slot holds an entity
/// that has both a place and a collider.
pub open spec fn collider_place(slot: Option<Components>) -> Option<ColliderPosition> {
    match slot {
        Some(c) => match (c.transform, c.collider) {
            (Some(t), Some(handle)) => Some(
                ColliderPosition {
                    handle,
                    position: Vec2 { x: t.translation.x, y: t.translation.y },
                },
            ),
            _ => None,
        },
        None => None,
    }
}

/// Where the colliders of the first `n` slots have to be, by entity number.
pub open spec fn collider_places(slots: Slots, n: nat) -> Seq<ColliderPosition>
    decreases n,
{
    if n == 0 {
        Seq::empty()
    } else {
        pushed(collider_places(slots, (n - 1) as nat), collider_place(slots[n - 1]))
    }
}

/// Lists, for every entity that has a place and a collider, where in the
/// plane the collider has to be.
pub fn collide_position_system(world: &World) -> (places: Vec<ColliderPosition>)
    ensures
        places@ == collider_places(world@, world@.len()),
{
    let mut places: Vec<ColliderPosition> = Vec::new();
    let n = world.len();
    let mut i: usize = 0;
    while i < n
        invariant
            i <= n,
            n == world@.len(),
            places@ == collider_places(world@, i as nat),
        decreases n - i,
    {
        if let Some(c) = world.get(Entity(i)) {
            if let Some(t) = c.transform {
                if let Some(handle) = c.collider {
                    places.push(ColliderPosition { handle, position: t.translation.truncate() });
                }
            }
        }
        i = i + 1;
    }
    places
}

/// Notes on a living `entity` the collider that the backend has made for
/// it, and says what became of it, so that an entity never has more than
/// one collider and no collider is left without its entity.
pub fn attach_collider(
    world: &mut World,
    entity: Entity,
    handle: CollisionObjectSlabHandle,
) -> (done: Attachment)
    ensures
        done == match lookup(old(world)@, entity) {
            Some(c) => match c.collider {
                Some(before) => Attachment::Replaced(before),
                None => Attachment::Attached,
            },
            None => Attachment::Refused,
        },
        final(world)@ == match lookup(old(world)@, entity) {
            Some(c) => with(old(world)@, entity, Components { collider: Some(handle), ..c }),
            None => old(world)@,
        },
{
    match world.get(entity) {
        Some(c) => {
            let mut held = c;
            held.collider = Some(handle);
            world.set(entity, held);
            match c.collider {
                Some(before) => Attachment::Replaced(before),
                None => Attachment::Attached,
            }
        },
        None => Attachment::Refused,
    }
}

/// Whether the entities of `event`, as far as they live, have what resolving
/// the event reads: a missile deals damage, an enemy has armor and, if it
/// rewards experience, a place; loot says what it brings.
pub open spec fn event_ready(slots: Slots, event: CollisionEvent) -> bool {
    match event {
        CollisionEvent::MissileToEnemy(missile, enemy) => {
            &&& lookup(slots, missile) matches Some(m) ==> m.damage_dealer is Some
            &&& lookup(slots, enemy) matches Some(e) ==> e.armor is Some && (e.enemy is Some
                ==> e.transform is Some)
        },
        CollisionEvent::ShipToLoot(_, loot) => lookup(slots, loot) matches Some(l)
            ==> l.loot is Some,
    }
}

pub open spec fn ready(slots: Slots, events: Seq<CollisionEvent>) -> bool {
    forall|i: int| 0 <= i < events.len() ==> event_ready(slots, #[trigger] events[i])
}

/// What a missile does to an enemy. A missile that is gone has landed its
/// hit already, and does nothing more. Otherwise the missile leaves the
/// arena, whatever it hit. An enemy that is gone or has no life left is not
/// hit again. One with life left loses what the missile deals; if none is
/// left then, the enemy leaves the arena with the final explosion and, if it
/// rewards experience, sends that to whoever shot the missile and drops loot
/// where it stood; if some is left, there is only the lesser explosion.
pub open spec fn hit(state: Resolved, missile: Entity, enemy: Entity) -> Resolved {
    match lookup(state.slots, missile) {
        None => state,
        Some(m) => {
            let dealer = m.damage_dealer.unwrap();
            let landed = Resolved {
                slots: despawned(state.slots, missile),
                reports: state.reports.push(report_of(state.slots, missile)),
                ..state
            };
            match lookup(landed.slots, enemy) {
                None => landed,
                Some(e) => {
                    let armor = e.armor.unwrap();
                    let life = life_after(armor.life, dealer.value);
                    let hurt = with(
                        landed.slots,
                        enemy,
                        Components { armor: Some(Armor { life, ..armor }), ..e },
                    );
                    if armor.life == 0 {
                        landed
                    } else if life == 0 {
                        Resolved {
                            slots: despawned(hurt, enemy),
                            reports: landed.reports.push(report_of(hurt, enemy)),
                            cues: state.cues.push(Cue::ExplosionFinal),
                            xp_events: pushed(
                                state.xp_events,
                                match e.enemy {
                                    Some(reward) => Some(
                                        XpEvent { xp: reward.xp, source: dealer.source },
                                    ),
                                    None => None,
                                },
                            ),
                            loot_events: pushed(
                                state.loot_events,
                                match e.enemy {
                                    Some(_) => Some(
                                        LootEvent {
                                            position: Vec2 {
                                                x: e.transform.unwrap().translation.x,
                                                y: e.transform.unwrap().translation.y,
                                            },
                                        },
                                    ),
                                    None => None,
                                },
                            ),
                        }
                    } else {
                        Resolved { slots: hurt, cues: state.cues.push(Cue::Explosion), ..landed }
                    }
                },
            }
        },
    }
}

/// What loot does to a ship. Loot that is gone was picked up already.
/// Otherwise the loot leaves the arena, the weapon of the ship takes in what
/// the loot brings, and the pickup sounds; a ship that is gone or has no
/// weapon takes in nothing.
pub open spec fn looted(state: Resolved, ship: Entity, loot: Entity) -> Resolved {
    match lookup(state.slots, loot) {
        None => state,
        Some(l) => {
            let taken = despawned(state.slots, loot);
            Resolved {
                slots: match lookup(taken, ship) {
                    Some(s) => match s.weapon {
                        Some(w) => with(
                            taken,
                            ship,
                            Components { weapon: Some(upgraded(w, l.loot.unwrap())), ..s },
                        ),
                        None => taken,
                    },
                    None => taken,
                },
                reports: state.reports.push(report_of(state.slots, loot)),
                cues: state.cues.push(Cue::Pickup),
                ..state
            }
        },
    }
}

/// Where resolving `event` leads from `state`.
pub open spec fn resolved(state: Resolved, event: CollisionEvent) -> Resolved {
    match event {
        CollisionEvent::MissileToEnemy(missile, enemy) => hit(state, missile, enemy),
        CollisionEvent::ShipToLoot(ship, loot) => looted(state, ship, loot),
    }
}

/// Where resolving `events` in their order leads from the store `slots`.
pub open spec fn resolved_all(slots: Slots, events: Seq<CollisionEvent>) -> Resolved
    decreases events.len(),
{
    if events.len() == 0 {
        Resolved {
            slots,
            xp_events: Seq::empty(),
            loot_events: Seq::empty(),
            cues: Seq::empty(),
            reports: Seq::empty(),
        }
    } else {
        resolved(resolved_all(slots, events.drop_last()), events.last())
    }
}

/// An entity as resolving may leave it: the same but for its armor, which
/// has lost life at most, and for its weapon, which loot may have scaled.
pub open spec fn kept(was: Components, now: Components) -> bool {
    &&& now == (Components { armor: now.armor, weapon: now.weapon, ..was })
    &&& match (was.armor, now.armor) {
        (Some(before), Some(after)) => after.max_life == before.max_life && after.life
            <= before.life,
        (None, None) => true,
        _ => false,
    }
    &&& (now.weapon is Some <==> was.weapon is Some)
}

/// What lives in `now` lived in `before` and is kept as resolving may leave
/// it; nothing has come to life.
pub open spec fn settled(before: Slots, now: Slots) -> bool {
    &&& now.len() == before.len()
    &&& forall|i: int|
        0 <= i < now.len() ==> ((#[trigger] now[i]) matches Some(c) ==> before[i] matches Some(was)
            && kept(was, c))
}

proof fn lemma_settled_ready(before: Slots, now: Slots, event: CollisionEvent)
    requires
        settled(before, now),
        event_ready(before, event),
    ensures
        event_ready(now, event),
{
    match event {
        CollisionEvent::MissileToEnemy(missile, enemy) => {
            if lookup(now, missile) is Some {
                assert(now[missile.0 as int] is Some);
            }
            if lookup(now, enemy) is Some {
                assert(now[enemy.0 as int] is Some);
            }
        },
        CollisionEvent::ShipToLoot(_, loot) => {
            if lookup(now, loot) is Some {
                assert(now[loot.0 as int] is Some);
            }
        },
    }
}

proof fn lemma_settled_despawned(before: Slots, now: Slots, entity: Entity)
    requires
        settled(before, now),
    ensures
        settled(before, despawned(now, entity)),
{
    lemma_despawn_cascade(now, entity);
}

proof fn lemma_resolved_settles(state: Resolved, event: CollisionEvent)
    requires
        event_ready(state.slots, event),
    ensures
        settled(state.slots, resolved(state, event).slots),
{
    let slots = state.slots;
    assert(settled(slots, slots));
    match event {
        CollisionEvent::MissileToEnemy(missile, enemy) => {
            if let Some(m) = lookup(slots, missile) {
                let landed = despawned(slots, missile);
                lemma_settled_despawned(slots, slots, missile);
                if let Some(e) = lookup(landed, enemy) {
                    assert(landed[enemy.0 as int] == Some(e));
                    let armor = e.armor.unwrap();
                    let life = life_after(armor.life, m.damage_dealer.unwrap().value);
                    let hurt = with(
                        landed,
                        enemy,
                        Components { armor: Some(Armor { life, ..armor }), ..e },
                    );
                    assert(settled(slots, hurt));
                    lemma_settled_despawned(slots, hurt, enemy);
                }
            }
        },
        CollisionEvent::ShipToLoot(ship, loot) => {
            if lookup(slots, loot) is Some {
                let taken = despawned(slots, loot);
                lemma_settled_despawned(slots, slots, loot);
                if let Some(s) = lookup(taken, ship) {
                    assert(taken[ship.0 as int] == Some(s));
                }
            }
        },
    }
}

/// Resolving events spawns nothing and touches little: whatever lives
/// afterwards lived before, and is what it was but for the life of its
/// armor, which has not grown, and for its weapon.
pub proof fn lemma_resolving_settles(slots: Slots, events: Seq<CollisionEvent>)
    requires
        ready(slots, events),
    ensures
        settled(slots, resolved_all(slots, events).slots),
    decreases events.len(),
{
    if events.len() > 0 {
        let before = resolved_all(slots, events.drop_last());
        assert(ready(slots, events.drop_last())) by {
            assert forall|i: int| 0 <= i < events.drop_last().len() implies event_ready(
                slots,
                #[trigger] events.drop_last()[i],
            ) by {
                assert(events.drop_last()[i] == events[i]);
            }
        }
        lemma_resolving_settles(slots, events.drop_last());
        lemma_settled_ready(slots, before.slots, events.last());
        lemma_resolved_settles(before, events.last());
    }
}

/// An enemy is destroyed at most once: where it is gone or has no life left,
/// a missile that touches it leaves the arena and nothing else happens: no
/// experience, no loot, no sound.
pub proof fn lemma_dead_enemy_is_not_hit(state: Resolved, missile: Entity, enemy: Entity)
    requires
        lookup(despawned(state.slots, missile), enemy) matches Some(e) ==> e.armor matches Some(
            armor,
        ) && armor.life == 0,
    ensures
        hit(state, missile, enemy).xp_events == state.xp_events,
        hit(state, missile, enemy).loot_events == state.loot_events,
        hit(state, missile, enemy).cues == state.cues,
        hit(state, missile, enemy).slots == if lookup(state.slots, missile) is Some {
            despawned(state.slots, missile)
        } else {
            state.slots
        },
        !(lookup(hit(state, missile, enemy).slots, missile) is Some),
{
    lemma_despawn_cascade(state.slots, missile);
}

/// An enemy that a missile destroys is gone afterwards, so that a second
/// missile that touches it within the same frame finds nothing to hit: it
/// leaves the arena, and sends out and sounds nothing.
pub proof fn lemma_kill_at_most_once(state: Resolved, first: Entity, second: Entity, enemy: Entity)
    requires
        hit(state, first, enemy).cues == state.cues.push(Cue::ExplosionFinal),
    ensures
        !(lookup(hit(state, first, enemy).slots, enemy) is Some),
        hit(hit(state, first, enemy), second, enemy).xp_events == hit(
            state,
            first,
            enemy,
        ).xp_events,
        hit(hit(state, first, enemy), second, enemy).loot_events == hit(
            state,
            first,
            enemy,
        ).loot_events,
        hit(hit(state, first, enemy), second, enemy).cues == hit(state, first, enemy).cues,
        !(lookup(hit(hit(state, first, enemy), second, enemy).slots, second) is Some),
        !(lookup(hit(hit(state, first, enemy), second, enemy).slots, enemy) is Some),
{
    let once = hit(state, first, enemy);
    assert(once.cues.len() == state.cues.len() + 1);
    let m = lookup(state.slots, first).unwrap();
    let landed = despawned(state.slots, first);
    let e = lookup(landed, enemy).unwrap();
    let armor = e.armor.unwrap();
    let life = life_after(armor.life, m.damage_dealer.unwrap().value);
    assert(once.cues.last() == Cue::ExplosionFinal);
    let hurt = with(landed, enemy, Components { armor: Some(Armor { life, ..armor }), ..e });
    assert(once.slots == despawned(hurt, enemy));
    lemma_despawn_cascade(hurt, enemy);
    lemma_despawn_cascade(once.slots, second);
    assert(!(lookup(despawned(once.slots, second), enemy) is Some)) by {
        if enemy.0 < once.slots.len() {
            assert(despawned(once.slots, second)[enemy.0 as int] is None
                || despawned(once.slots, second)[enemy.0 as int] == once.slots[enemy.0 as int]);
        }
    }
    lemma_dead_enemy_is_not_hit(once, second, enemy);
}

/// An event comes only of kinds that collide.
pub proof fn lemma_event_kinds_collide(
    first: ColliderType,
    second: ColliderType,
    a: Entity,
    b: Entity,
)
    ensures
        pair_event(first, second, a, b) is Some ==> collides(first, second),
        pair_event(first, second, a, b) matches Some(CollisionEvent::MissileToEnemy(m, e)) ==> (m
            == a && e == b && first == ColliderType::Missile) || (m == b && e == a && second
            == ColliderType::Missile),
        pair_event(first, second, a, b) matches Some(CollisionEvent::ShipToLoot(s, l)) ==> (s == a
            && l == b && first == ColliderType::Ship) || (s == b && l == a && second
            == ColliderType::Ship),
{
}

/// Each pair of touching colliders gives rise to one event at most.
pub proof fn lemma_one_event_per_pair(slots: Slots, pairs: Seq<(Entity, Entity)>)
    ensures
        events_of(slots, pairs).len() <= pairs.len(),
    decreases pairs.len(),
{
    if pairs.len() > 0 {
        lemma_one_event_per_pair(slots, pairs.drop_last());
    }
}

/// Says whether the entities of every event, as far as they live, have what
/// resolving the event reads.
pub fn all_ready(world: &World, events: &Vec<CollisionEvent>) -> (ok: bool)
    ensures
        ok == ready(world@, events@),
{
    let mut i: usize = 0;
    while i < events.len()
        invariant
            i <= events.len(),
            forall|k: int| 0 <= k < i ==> event_ready(world@, #[trigger] events@[k]),
        decreases events.len() - i,
    {
        let ok = match events[i] {
            CollisionEvent::MissileToEnemy(missile, enemy) => {
                let dealing = match world.get(missile) {
                    Some(m) => m.damage_dealer.is_some(),
                    None => true,
                };
                let armored = match world.get(enemy) {
                    Some(e) => e.armor.is_some() && (e.enemy.is_none() || e.transform.is_some()),
                    None => true,
                };
                dealing && armored
            },
            CollisionEvent::ShipToLoot(_, loot) => match world.get(loot) {
                Some(l) => l.loot.is_some(),
                None => true,
            },
        };
        if !ok {
            return false;
        }
        i = i + 1;
    }
    true
}

/// Resolves the events in their order: missiles damage and destroy enemies,
/// ships pick up loot.
pub fn collision_event_system(events: &Vec<CollisionEvent>, world: &mut World) -> (out: Resolution)
    requires
        ready(old(world)@, events@),
    ensures
        final(world)@ == resolved_all(old(world)@, events@).slots,
        out.xp_events@ == resolved_all(old(world)@, events@).xp_events,
        out.loot_events@ == resolved_all(old(world)@, events@).loot_events,
        out.cues@ == resolved_all(old(world)@, events@).cues,
        out.reports@ == resolved_all(old(world)@, events@).reports,
{
    let mut xp_events: Vec<XpEvent> = Vec::new();
    let mut loot_events: Vec<LootEvent> = Vec::new();
    let mut cues: Vec<Cue> = Vec::new();
    let mut reports: Vec<DespawnReport> = Vec::new();
    let mut i: usize = 0;
    while i < events.len()
        invariant
            i <= events.len(),
            ready(old(world)@, events@),
            world@ == resolved_all(old(world)@, events@.take(i as int)).slots,
            xp_events@ == resolved_all(old(world)@, events@.take(i as int)).xp_events,
            loot_events@ == resolved_all(old(world)@, events@.take(i as int)).loot_events,
            cues@ == resolved_all(old(world)@, events@.take(i as int)).cues,
            reports@ == resolved_all(old(world)@, events@.take(i as int)).reports,
        decreases events.len() - i,
    {
        proof {
            let upto = events@.take(i + 1);
            assert(upto.drop_last() == events@.take(i as int));
            assert(upto.last() == events@[i as int]);
            assert(ready(old(world)@, events@.take(i as int)));
            lemma_resolving_settles(old(world)@, events@.take(i as int));
            lemma_settled_ready(old(world)@, world@, events@[i as int]);
        }
        match events[i] {
            CollisionEvent::MissileToEnemy(missile, enemy) => {
                if let Some(m) = world.get(missile) {
                    let dealer = m.damage_dealer.unwrap();
                    proof {
                        lemma_despawn_cascade(world@, missile);
                    }
                    let ghost before_missile = world@;
                    reports.push(world.despawn_from_arena(missile));
                    if let Some(e) = world.get(enemy) {
                        assert(lookup(before_missile, enemy) == Some(e));
                        let mut armor = e.armor.unwrap();
                        if armor.life > 0 {
                            armor.damage(dealer.value);
                            let mut hurt = e;
                            hurt.armor = Some(armor);
                            world.set(enemy, hurt);
                            if armor.life == 0 {
                                reports.push(world.despawn_from_arena(enemy));
                                cues.push(Cue::ExplosionFinal);
                                if let Some(reward) = e.enemy {
                                    xp_events.push(
                                        XpEvent { xp: reward.xp, source: dealer.source },
                                    );
                                    loot_events.push(
                                        LootEvent {
                                            position: e.transform.unwrap().translation.truncate(),
                                        },
                                    );
                                }
                            } else {
                                cues.push(Cue::Explosion);
                            }
                        }
                    }
                }
            },
            CollisionEvent::ShipToLoot(ship, loot) => {
                if let Some(l) = world.get(loot) {
                    let brought = l.loot.unwrap();
                    reports.push(world.despawn_from_arena(loot));
                    if let Some(s) = world.get(ship) {
                        if let Some(w) = s.weapon {
                            let mut weapon = w;
                            weapon.upgrade(brought);
                            let mut richer = s;
                            richer.weapon = Some(weapon);
                            world.set(ship, richer);
                        }
                    }
                    cues.push(Cue::Pickup);
                }
            },
        }
        i = i + 1;
    }
    assert(events@.take(events.len() as int) == events@);
    Resolution { xp_events, loot_events, cues, reports }
}

} // verus!
