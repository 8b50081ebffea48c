//! The simulation core of a top-down arcade shooter played on a torus.
//!
//! Ships, enemies, missiles and loot move in an arena whose opposite edges
//! are joined: what leaves on one side comes in on the other, and everything
//! near an edge is seen again beyond it. The crate holds the rules of that
//! world and proves what it states of them; it draws nothing, plays nothing
//! and reads no device.
//!
//! # Numbers
//!
//! Every real quantity is an integer counted in thousandths (see [`math`]):
//! lengths, durations, factors and sizes alike. Arithmetic stops at the ends
//! of what its type holds instead of wrapping round.
//!
//! # The store
//!
//! Entities are numbers, and [`world::World`] holds what is attached to each
//! ([`components::Components`]). Contracts speak of the store through its
//! slots ([`world::Slots`]), one for every entity ever spawned.
//!
//! # A frame
//!
//! The stages of a frame are functions that take the store and, where time
//! matters, the frame ([`time::Time`]). Their order matters: actions
//! ([`input::action_system`]) and shots ([`weapon::fire_weapon_system`]),
//! movement ([`arena::position_system`]), the camera
//! ([`arena::camera_follow_system`]), the positions of the colliders
//! ([`collision::collide_position_system`]), then the pairs that the
//! collision backend finds touching ([`collision::collision_system`]) and
//! what comes of them ([`collision::collision_event_system`],
//! [`spaceship::xp_system`], [`loot::loot_spawn_system`]), and at last the
//! ghosts ([`arena::spriteghost_quadrant_system`]), which have to see the
//! quarter that the camera has put on screen within the same frame.
//!
//! # What is left to the caller
//!
//! The collision backend detects; the caller hands its pairs in and takes
//! out the colliders of what has left the arena
//! ([`arena::DespawnReport`]). Powers, sines and arc tangents take real
//! numbers: the caller supplies the decay of speeds with each frame and turns
//! the ships.
pub mod arena;
pub mod armor;
mod chance;
pub mod collision;
pub mod components;
pub mod game;
pub mod input;
pub mod loot;
pub mod math;
pub mod selection;
pub mod spaceship;
pub mod time;
pub mod weapon;
pub mod world;
