use vstd::prelude::*;
use crate::geometry::{Vec2, Rect, UNIT, scale_spec, mul_scalar};
use crate::projectiles::{Gun, BULLET_SELF_DAMAGE};

verus! {

pub enum PlatformHeight {
    Top,
    Middle,
    Bottom,
}

#[derive(Debug, Clone, Copy, PartialEq, Eq, Structural)]
pub enum DrawOrder {
    Front,
    Back,
}

#[derive(Clone, Copy, Debug, PartialEq, Eq, Structural)]
pub enum EntityForce {
    Player,
    Neutral,
    Enemy,
}

#[derive(Clone, Copy, Debug, PartialEq, Eq, Structural)]
pub enum CollisionGroup {
    Bullet,
    Static,
    Other,
}

#[derive(Clone, Copy, Debug, PartialEq, Eq, Structural)]
pub enum EntityType {
    Player,
    Bullet,
    Crate,
    Retaliator,
    Enemy,
    Swarmer,
    Sprayer,
    Bigdog,
}

/// A display colour.
#[derive(Clone, Copy, Debug, PartialEq, Eq, Structural)]
pub struct Colour {
    pub r: u8,
    pub g: u8,
    pub b: u8,
}

/// Side length of a bullet.
pub const BULLET_SIZE: i32 = 20_000;

/// Speed of a bullet before its weapon sets its own, in length units per second.
pub const BULLET_SPEED: i32 = 700_000;

/// A live object of the arena.
///
/// `health` is in thousandths of a hit point. `melee_damage` is, for a bullet,
/// the damage of one hit, and otherwise damage per second of contact. `speed`
/// is in length units per second, `velocity` in length units per second, and
/// `look_direction` has length about `UNIT`.
#[derive(Debug, Clone, Copy)]
pub struct Entity {
    pub force: EntityForce,
    pub collision_group: CollisionGroup,
    pub variety: EntityType,
    pub source: u64,
    pub aabb: Rect,
    pub colour: Colour,
    pub velocity: Vec2,
    pub draw_order: DrawOrder,
    pub health: i64,
    pub speed: i32,
    pub melee_damage: u32,
    pub look_direction: Vec2,
    pub gun: Gun,
}

impl Entity {
    /// A valid weapon; a bullet never has more health than the damage it
    /// deals itself on impact, so an impact always removes it.
    pub open spec fn wf(&self) -> bool {
        &&& self.gun.wf()
        &&& self.variety == EntityType::Bullet ==> self.health <= BULLET_SELF_DAMAGE
    }

    /// The stats that the non-bullet constructors share.
    pub open spec fn shooter_spec(
        x: i32,
        y: i32,
        size: i32,
        colour: Colour,
        force: EntityForce,
        group: CollisionGroup,
        variety: EntityType,
        health: i64,
        speed: i32,
        gun: Gun,
        draw_order: DrawOrder,
    ) -> Entity {
        Entity {
            force,
            collision_group: group,
            variety,
            source: 0,
            aabb: Rect::centered_spec(x, y, size, size),
            colour,
            velocity: Vec2 { x: 0, y: 0 },
            draw_order,
            health,
            speed,
            melee_damage: 0,
            look_direction: Vec2 { x: UNIT, y: 0 },
            gun,
        }
    }

    pub open spec fn player_spec(x: i32, y: i32) -> Entity {
        Entity::shooter_spec(x, y, 50_000, Colour { r: 255, g: 255, b: 255 },
                EntityForce::Player, CollisionGroup::Other, EntityType::Player, 5_000, 600_000,
                Gun::burst_rifle_spec(), DrawOrder::Front)
    }

    pub open spec fn enemy_spec(x: i32, y: i32) -> Entity {
        Entity::shooter_spec(x, y, 80_000, Colour { r: 255, g: 0, b: 0 },
                EntityForce::Enemy, CollisionGroup::Other, EntityType::Enemy, 5_000, 600_000,
                Gun::npc_gun_spec(), DrawOrder::Front)
    }

    pub open spec fn sprayer_spec(x: i32, y: i32) -> Entity {
        Entity::shooter_spec(x, y, 70_000, Colour { r: 0, g: 0, b: 255 },
                EntityForce::Enemy, CollisionGroup::Other, EntityType::Sprayer, 5_000, 300_000,
                Gun::sprayer_gun_spec(), DrawOrder::Front)
    }

    pub open spec fn bigdog_spec(x: i32, y: i32) -> Entity {
        Entity::shooter_spec(x, y, 120_000, Colour { r: 0, g: 0, b: 128 },
                EntityForce::Enemy, CollisionGroup::Other, EntityType::Bigdog, 10_000, 100_000,
                Gun::bigdog_gun_spec(), DrawOrder::Front)
    }

    pub open spec fn crate_spec(x: i32, y: i32) -> Entity {
        Entity::shooter_spec(x, y, 100_000, Colour { r: 64, g: 64, b: 0 },
                EntityForce::Neutral, CollisionGroup::Static, EntityType::Crate, 4_000, 600_000,
                Gun::pistol_spec(), DrawOrder::Back)
    }

    pub open spec fn retalliator_spec(x: i32, y: i32) -> Entity {
        Entity::shooter_spec(x, y, 150_000, Colour { r: 32, g: 32, b: 32 },
                EntityForce::Neutral, CollisionGroup::Static, EntityType::Retaliator, 10_000,
                600_000, Gun::pistol_spec(), DrawOrder::Back)
    }

    pub open spec fn swarmer_spec(x: i32, y: i32) -> Entity {
        Entity {
            melee_damage: 2_000,
            ..Entity::shooter_spec(x, y, 50_000, Colour { r: 128, g: 0, b: 0 },
                EntityForce::Enemy, CollisionGroup::Other, EntityType::Swarmer, 3_000, 600_000,
                Gun::npc_gun_spec(), DrawOrder::Front)
        }
    }

    pub fn new_player(x: i32, y: i32) -> (e: Entity)
        ensures
            e == Entity::player_spec(x, y),
            e.wf(),
    {
        Entity {
            aabb: Rect::new_centered(x, y, 50_000, 50_000),
            colour: Colour { r: 255, g: 255, b: 255 },
            velocity: Vec2::zero(),
            draw_order: DrawOrder::Front,
            force: EntityForce::Player,
            collision_group: CollisionGroup::Other,
            health: 5_000,
            variety: EntityType::Player,
            source: 0,
            melee_damage: 0,
            look_direction: Vec2::new(UNIT, 0),
            speed: 600_000,
            gun: Gun::new_burst_rifle(),
        }
    }

    pub fn new_enemy(x: i32, y: i32) -> (e: Entity)
        ensures
            e == Entity::enemy_spec(x, y),
            e.wf(),
    {
        Entity {
            aabb: Rect::new_centered(x, y, 80_000, 80_000),
            colour: Colour { r: 255, g: 0, b: 0 },
            velocity: Vec2::zero(),
            draw_order: DrawOrder::Front,
            force: EntityForce::Enemy,
            collision_group: CollisionGroup::Other,
            health: 5_000,
            variety: EntityType::Enemy,
            source: 0,
            melee_damage: 0,
            look_direction: Vec2::new(UNIT, 0),
            gun: Gun::new_npc_gun(),
            speed: 600_000,
        }
    }

    pub fn new_sprayer(x: i32, y: i32) -> (e: Entity)
        ensures
            e == Entity::sprayer_spec(x, y),
            e.wf(),
    {
        Entity {
            aabb: Rect::new_centered(x, y, 70_000, 70_000),
            colour: Colour { r: 0, g: 0, b: 255 },
            velocity: Vec2::zero(),
            draw_order: DrawOrder::Front,
            force: EntityForce::Enemy,
            collision_group: CollisionGroup::Other,
            health: 5_000,
            variety: EntityType::Sprayer,
            source: 0,
            melee_damage: 0,
            look_direction: Vec2::new(UNIT, 0),
            gun: Gun::new_sprayer_gun(),
            speed: 300_000,
        }
    }

    pub fn new_bigdog(x: i32, y: i32) -> (e: Entity)
        ensures
            e == Entity::bigdog_spec(x, y),
            e.wf(),
    {
        Entity {
            aabb: Rect::new_centered(x, y, 120_000, 120_000),
            colour: Colour { r: 0, g: 0, b: 128 },
            velocity: Vec2::zero(),
            draw_order: DrawOrder::Front,
            force: EntityForce::Enemy,
            collision_group: CollisionGroup::Other,
            health: 10_000,
            variety: EntityType::Bigdog,
            source: 0,
            melee_damage: 0,
            look_direction: Vec2::new(UNIT, 0),
            gun: Gun::new_bigdog_gun(),
            speed: 100_000,
        }
    }

    /// An enemy that chases and hurts by contact.
    pub fn new_swarmer(x: i32, y: i32) -> (e: Entity)
        ensures
            e == Entity::swarmer_spec(x, y),
            e.wf(),
    {
        let mut enemy = Entity::new_enemy(x, y);
        enemy.variety = EntityType::Swarmer;
        enemy.colour = Colour { r: 128, g: 0, b: 0 };
        enemy.aabb = Rect::new_centered(x, y, 50_000, 50_000);
        enemy.melee_damage = 2_000;
        enemy.speed = 600_000;
        enemy.health = 3_000;
        enemy
    }

    pub fn new_crate(x: i32, y: i32) -> (e: Entity)
        ensures
            e == Entity::crate_spec(x, y),
            e.wf(),
    {
        Entity {
            force: EntityForce::Neutral,
            collision_group: CollisionGroup::Static,
            variety: EntityType::Crate,
            aabb: Rect::new_centered(x, y, 100_000, 100_000),
            colour: Colour { r: 64, g: 64, b: 0 },
            velocity: Vec2::zero(),
            draw_order: DrawOrder::Back,
            health: 4_000,
            source: 0,
            melee_damage: 0,
            look_direction: Vec2::new(UNIT, 0),
            gun: Gun::new_pistol(),
            speed: 600_000,
        }
    }

    /// A static target that answers a bullet hit with a ring of bullets.
    pub fn new_retalliator(x: i32, y: i32) -> (e: Entity)
        ensures
            e == Entity::retalliator_spec(x, y),
            e.wf(),
    {
        Entity {
            force: EntityForce::Neutral,
            collision_group: CollisionGroup::Static,
            variety: EntityType::Retaliator,
            aabb: Rect::new_centered(x, y, 150_000, 150_000),
            colour: Colour { r: 32, g: 32, b: 32 },
            velocity: Vec2::zero(),
            draw_order: DrawOrder::Back,
            health: 10_000,
            source: 0,
            melee_damage: 0,
            look_direction: Vec2::new(UNIT, 0),
            gun: Gun::new_pistol(),
            speed: 600_000,
        }
    }

    pub open spec fn bullet_spec(from: Vec2, dir: Vec2, force: EntityForce, source: u64) -> Entity {
        Entity {
            aabb: Rect::centered_spec(from.x, from.y, BULLET_SIZE, BULLET_SIZE),
            colour: Colour { r: 255, g: 255, b: 0 },
            velocity: scale_spec(dir, BULLET_SPEED as int),
            draw_order: DrawOrder::Front,
            force,
            collision_group: CollisionGroup::Bullet,
            health: 1_000,
            variety: EntityType::Bullet,
            source,
            melee_damage: 1_000,
            look_direction: Vec2 { x: UNIT, y: 0 },
            gun: Gun::pistol_spec(),
            speed: 600_000,
        }
    }

    /// A bullet centred on `from`, heading along `dir` (of length about `UNIT`),
    /// fired by entity `source`.
    pub fn new_bullet(from: Vec2, dir: Vec2, force: EntityForce, source: u64) -> (e: Entity)
        ensures
            e == Entity::bullet_spec(from, dir, force, source),
            e.wf(),
    {
        Entity {
            aabb: Rect::new_centered(from.x, from.y, BULLET_SIZE, BULLET_SIZE),
            colour: Colour { r: 255, g: 255, b: 0 },
            velocity: mul_scalar(dir, BULLET_SPEED),
            draw_order: DrawOrder::Front,
            force: force,
            collision_group: CollisionGroup::Bullet,
            health: 1_000,
            variety: EntityType::Bullet,
            source: source,
            melee_damage: 1_000,
            look_direction: Vec2::new(UNIT, 0),
            gun: Gun::new_pistol(),
            speed: 600_000,
        }
    }
}

} // verus!
