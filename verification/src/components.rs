//! What can be attached to an entity.
use vstd::prelude::*;
use ncollide2d::pipeline::CollisionObjectSlabHandle;
use crate::arena::SpriteGhost;
use crate::arena::SpriteGhostChildren;
use crate::armor::Armor;
use crate::collision::ColliderType;
use crate::loot::Loot;
use crate::loot::TweenScale;
use crate::math::Rotation;
use crate::math::Vec2;
use crate::math::Vec3;
use crate::spaceship::Progression;
use crate::spaceship::Spaceship;
use crate::spaceship::Weapon;
use crate::weapon::DamageDealer;
use crate::weapon::LifeSpanTimer;

verus! {

/// The token under which the collision backend knows a collider. The
/// simulation stores it and hands it back; it never looks inside.
#[verifier::external_type_specification]
#[verifier::external_body]
pub struct ExCollisionObjectSlabHandle(CollisionObjectSlabHandle);

/// An entity: nothing but a name for what is attached to it.
#[derive(Clone, Copy, PartialEq, Eq, Debug, Structural)]
pub struct Entity(pub usize);

/// The image that a sprite is drawn with.
#[derive(Clone, Copy, PartialEq, Eq, Debug, Structural)]
pub enum Material {
    Background,
    PlayerShip,
    Meteor,
    LaserRed,
    BoltSilver,
    BoltBronze,
}

/// Where an entity is drawn: position, heading, and size in thousandths.
#[derive(Clone, Copy, PartialEq, Eq, Debug, Structural)]
pub struct Transform {
    pub translation: Vec3,
    pub rotation: Rotation,
    pub scale: i32,
}

/// What a sprite is spawned from.
#[derive(Clone, Copy, PartialEq, Eq, Debug, Structural)]
pub struct SpriteComponents {
    pub material: Material,
    pub transform: Transform,
}

#[derive(Clone, Copy, PartialEq, Eq, Debug, Structural)]
pub struct Movement {
    /// Units per second.
    pub speed: Vec2,
    /// What is left of the speed after one second, in thousandths.
    pub dampening: u32,
}

#[derive(Clone, Copy, PartialEq, Eq, Debug, Structural)]
pub struct UserControlled {}

#[derive(Clone, Copy, PartialEq, Eq, Debug, Structural)]
pub struct Enemy {
    pub xp: u32,
}

/// Marks the entity that a camera follows, and names the camera.
#[derive(Clone, Copy, PartialEq, Eq, Debug, Structural)]
pub struct FollowedCamera(pub Entity);

#[derive(Clone, Copy, PartialEq, Eq, Debug, Structural)]
pub enum CameraName {
    Camera2d,
    CameraUi,
}

#[derive(Clone, Copy, PartialEq, Eq, Debug, Structural)]
pub struct Camera {
    pub name: Option<CameraName>,
}

/// Whether the entity is drawn with a highlight around it.
#[derive(Clone, Copy, PartialEq, Eq, Debug, Structural)]
pub struct Outline {
    pub with_outline: bool,
}

/// Everything attached to one entity; each part may be missing.
#[derive(Clone, Copy, Debug)]
pub struct Components {
    pub transform: Option<Transform>,
    pub material: Option<Material>,
    pub movement: Option<Movement>,
    pub sprite_ghost: Option<SpriteGhost>,
    pub ghost_children: Option<SpriteGhostChildren>,
    pub collider: Option<CollisionObjectSlabHandle>,
    pub collider_type: Option<ColliderType>,
    pub armor: Option<Armor>,
    pub damage_dealer: Option<DamageDealer>,
    pub lifespan: Option<LifeSpanTimer>,
    pub enemy: Option<Enemy>,
    pub loot: Option<Loot>,
    pub tween_scale: Option<TweenScale>,
    pub outline: Option<Outline>,
    pub spaceship: Option<Spaceship>,
    pub weapon: Option<Weapon>,
    pub progression: Option<Progression>,
    pub user_controlled: Option<UserControlled>,
    pub followed_camera: Option<FollowedCamera>,
    pub camera: Option<Camera>,
}

impl Material {
    /// The name of the file that holds the image.
    pub open spec fn file(self) -> Seq<char> {
        match self {
            Material::Background => "pexels-francesco-ungaro-998641.png"@,
            Material::PlayerShip => "playerShip1_red.png"@,
            Material::Meteor => "spaceMeteors_001.png"@,
            Material::LaserRed => "laserRed07.png"@,
            Material::BoltSilver => "bolt_silver.png"@,
            Material::BoltBronze => "bolt_bronze.png"@,
        }
    }

    pub fn asset(&self) -> (name: String)
        ensures
            name@ == self.file(),
    {
        match self {
            Material::Background => "pexels-francesco-ungaro-998641.png".to_owned(),
            Material::PlayerShip => "playerShip1_red.png".to_owned(),
            Material::Meteor => "spaceMeteors_001.png".to_owned(),
            Material::LaserRed => "laserRed07.png".to_owned(),
            Material::BoltSilver => "bolt_silver.png".to_owned(),
            Material::BoltBronze => "bolt_bronze.png".to_owned(),
        }
    }
}

impl Transform {
    /// At the origin, heading along the first axis, at natural size.
    pub open spec fn identity_spec() -> Transform {
        Transform {
            translation: Vec3 { x: 0, y: 0, z: 0 },
            rotation: Rotation { cos: 1000, sin: 0 },
            scale: 1000,
        }
    }

    pub fn identity() -> (t: Transform)
        ensures
            t == Transform::identity_spec(),
    {
        Transform {
            translation: Vec3 { x: 0, y: 0, z: 0 },
            rotation: Rotation { cos: 1000, sin: 0 },
            scale: 1000,
        }
    }
}

impl Components {
    /// An entity with nothing attached.
    pub open spec fn empty_spec() -> Components {
        Components {
            transform: None,
            material: None,
            movement: None,
            sprite_ghost: None,
            ghost_children: None,
            collider: None,
            collider_type: None,
            armor: None,
            damage_dealer: None,
            lifespan: None,
            enemy: None,
            loot: None,
            tween_scale: None,
            outline: None,
            spaceship: None,
            weapon: None,
            progression: None,
            user_controlled: None,
            followed_camera: None,
            camera: None,
        }
    }

    pub fn empty() -> (c: Components)
        ensures
            c == Components::empty_spec(),
    {
        Components {
            transform: None,
            material: None,
            movement: None,
            sprite_ghost: None,
            ghost_children: None,
            collider: None,
            collider_type: None,
            armor: None,
            damage_dealer: None,
            lifespan: None,
            enemy: None,
            loot: None,
            tween_scale: None,
            outline: None,
            spaceship: None,
            weapon: None,
            progression: None,
            user_controlled: None,
            followed_camera: None,
            camera: None,
        }
    }

    /// What a sprite starts with: its place and its material.
    pub open spec fn sprite_spec(sprite: SpriteComponents) -> Components {
        Components {
            transform: Some(sprite.transform),
            material: Some(sprite.material),
            ..Components::empty_spec()
        }
    }

    pub fn sprite(sprite: SpriteComponents) -> (c: Components)
        ensures
            c == Components::sprite_spec(sprite),
    {
        let mut c = Components::empty();
        c.transform = Some(sprite.transform);
        c.material = Some(sprite.material);
        c
    }
}

} // verus!
