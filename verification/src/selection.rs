//! Showing the player what the cursor points at.
use vstd::prelude::*;
use crate::components::Components;
use crate::components::Entity;
use crate::components::Outline;
use crate::input::CursorSelection;
use crate::world::lookup;
use crate::world::Slots;
use crate::world::with;
use crate::world::World;

verus! {

/// Says that the selection has changed, and what it was before.
pub struct CursorSelectionEvent {
    pub prev_enemies: Vec<Entity>,
    pub prev_loots: Vec<Entity>,
}

/// The store once the outline of `entity` is shown or hidden; an entity
/// that is dead or has no outline stays as it is.
pub open spec fn outlined(slots: Slots, entity: Entity, shown: bool) -> Slots {
    match lookup(slots, entity) {
        Some(c) => match c.outline {
            Some(_) => with(
                slots,
                entity,
                Components { outline: Some(Outline { with_outline: shown }), ..c },
            ),
            None => slots,
        },
        None => slots,
    }
}

/// The store once the outline of each of `entities` is shown or hidden.
pub open spec fn outlined_all(
    slots: Slots,
    entities: Seq<Entity>,
    shown: bool,
) -> Slots
    decreases entities.len(),
{
    if entities.len() == 0 {
        slots
    } else {
        outlined(outlined_all(slots, entities.drop_last(), shown), entities.last(), shown)
    }
}

/// The store once a change of selection is shown: what was selected loses
/// its outline, what is selected gets one.
pub open spec fn reselected(
    slots: Slots,
    event: &CursorSelectionEvent,
    selection: &CursorSelection,
) -> Slots {
    outlined_all(
        outlined_all(
            outlined_all(outlined_all(slots, event.prev_enemies@, false), event.prev_loots@, false),
            selection.enemies@,
            true,
        ),
        selection.loots@,
        true,
    )
}

/// The store once each of the first `n` changes of selection is shown.
pub open spec fn reselected_all(
    slots: Slots,
    events: Seq<CursorSelectionEvent>,
    selection: &CursorSelection,
    n: nat,
) -> Slots
    decreases n,
{
    if n == 0 {
        slots
    } else {
        reselected(
            reselected_all(slots, events, selection, (n - 1) as nat),
            &events[n - 1],
            selection,
        )
    }
}

/// What to tell the player about the selection: an enemy comes before loot.
pub open spec fn selection_label(selection: &CursorSelection) -> Seq<char> {
    if selection.enemies@.len() > 0 {
        "Frail target"@
    } else if selection.loots@.len() > 0 {
        "Uber Loot"@
    } else {
        ""@
    }
}

/// Shows or hides the outline of each of `entities` that has one.
pub fn change_outline(world: &mut World, entities: &Vec<Entity>, with_outline: bool)
    ensures
        final(world)@ == outlined_all(old(world)@, entities@, with_outline),
{
    let mut i: usize = 0;
    while i < entities.len()
        invariant
            i <= entities.len(),
            world@ == outlined_all(old(world)@, entities@.take(i as int), with_outline),
        decreases entities.len() - i,
    {
        proof {
            let upto = entities@.take(i + 1);
            assert(upto.drop_last() == entities@.take(i as int));
            assert(upto.last() == entities@[i as int]);
        }
        if let Some(c) = world.get(entities[i]) {
            if c.outline.is_some() {
                let mut changed = c;
                changed.outline = Some(Outline { with_outline });
                world.set(entities[i], changed);
            }
        }
        i = i + 1;
    }
    assert(entities@.take(entities.len() as int) == entities@);
}

/// Shows each change of selection by outlines, and returns what to tell
/// the player if the selection has changed at all.
pub fn show_selection_system(
    events: &Vec<CursorSelectionEvent>,
    selection: &CursorSelection,
    world: &mut World,
) -> (text: Option<String>)
    ensures
        final(world)@ == reselected_all(old(world)@, events@, selection, events@.len()),
        text is Some <==> events@.len() > 0,
        text matches Some(label) ==> label@ == selection_label(selection),
{
    let mut text: Option<String> = None;
    let mut i: usize = 0;
    while i < events.len()
        invariant
            i <= events.len(),
            world@ == reselected_all(old(world)@, events@, selection, i as nat),
            text is Some <==> i > 0,
            text matches Some(label) ==> label@ == selection_label(selection),
        decreases events.len() - i,
    {
        change_outline(world, &events[i].prev_enemies, false);
        change_outline(world, &events[i].prev_loots, false);
        change_outline(world, &selection.enemies, true);
        change_outline(world, &selection.loots, true);
        let label = if selection.enemies.len() > 0 {
            "Frail target".to_owned()
        } else if selection.loots.len() > 0 {
            "Uber Loot".to_owned()
        } else {
            "".to_owned()
        };
        text = Some(label);
        i = i + 1;
    }
    text
}

} // verus!
