use vstd::prelude::*;
use crate::geometry::{normalize, normalize_spec, rotate, rotate_spec, mul_scalar, scale_spec};
use crate::entity::{Entity, EntityForce, EntityType};
use crate::collision::{CollisionEvent, CollisionObject};
use crate::side_effect::SideEffect;
use crate::simulation_state::{SimulationState, lookup, ids_unique};
use crate::chance::random_in;

verus! {

/// Weapon state.
///
/// `damage` is per pellet, in thousandths of a hit point; `spread` is the
/// largest angle (in units of `TURN` per turn) by which a pellet leaves the
/// look direction; `speed` is the pellet speed in length units per second.
/// Times (`last_fired`, `cooldown`, `burst_cooldown`) are in microseconds.
/// `burst_count` shots remain in the current burst: none means the weapon is
/// idle and must recharge for `burst_cooldown` before the next burst.
#[derive(Clone, Copy, Debug)]
pub struct Gun {
    pub damage: u32,
    pub spread: i32,
    pub speed: i32,
    pub last_fired: i64,
    pub num_bullets: u32,
    pub automatic: bool,
    pub cooldown: i64,
    pub ammo: i32,
    pub burst: i32,
    pub burst_count: i32,
    pub burst_cooldown: i64,
    pub keep_shooting: bool,
}

impl Gun {
    pub open spec fn wf(&self) -> bool {
        &&& self.burst >= 1
        &&& 0 <= self.burst_count <= self.burst
        &&& self.spread >= 0
    }

    pub open spec fn pistol_spec() -> Gun {
        Gun {
            damage: 1_000,
            spread: 1_043,
            speed: 2_000_000,
            last_fired: 0,
            num_bullets: 1,
            automatic: false,
            cooldown: 500_000,
            ammo: 24,
            burst: 1,
            burst_count: 0,
            burst_cooldown: 0,
            keep_shooting: false,
        }
    }

    pub open spec fn npc_gun_spec() -> Gun {
        Gun {
            damage: 1_000,
            spread: 1_043,
            speed: 800_000,
            last_fired: 0,
            num_bullets: 1,
            automatic: false,
            cooldown: 500_000,
            ammo: 24,
            burst: 1,
            burst_count: 0,
            burst_cooldown: 0,
            keep_shooting: false,
        }
    }

    pub open spec fn sprayer_gun_spec() -> Gun {
        Gun {
            damage: 500,
            spread: 2_086,
            speed: 700_000,
            last_fired: 0,
            num_bullets: 1,
            automatic: true,
            cooldown: 100_000,
            ammo: 48,
            burst: 7,
            burst_count: 0,
            burst_cooldown: 2_000_000,
            keep_shooting: false,
        }
    }

    pub open spec fn makina_spec() -> Gun {
        Gun {
            damage: 700,
            spread: 1_565,
            speed: 1_800_000,
            last_fired: 0,
            num_bullets: 1,
            automatic: true,
            cooldown: 50_000,
            ammo: 200,
            burst: 1,
            burst_count: 0,
            burst_cooldown: 0,
            keep_shooting: false,
        }
    }

    pub open spec fn burst_rifle_spec() -> Gun {
        Gun {
            damage: 1_000,
            spread: 209,
            speed: 1_800_000,
            last_fired: 0,
            num_bullets: 1,
            automatic: true,
            cooldown: 40_000,
            ammo: 100,
            burst: 3,
            burst_count: 0,
            burst_cooldown: 330_000,
            keep_shooting: true,
        }
    }

    pub open spec fn shotgun_spec() -> Gun {
        Gun {
            damage: 1_000,
            spread: 3_129,
            speed: 2_000_000,
            last_fired: 0,
            num_bullets: 6,
            automatic: true,
            cooldown: 500_000,
            ammo: 24,
            burst: 1,
            burst_count: 0,
            burst_cooldown: 1_000_000,
            keep_shooting: false,
        }
    }

    pub open spec fn scattergun_spec() -> Gun {
        Gun {
            damage: 1_000,
            spread: 3_129,
            speed: 2_000_000,
            last_fired: 0,
            num_bullets: 4,
            automatic: true,
            cooldown: 200_000,
            ammo: 36,
            burst: 2,
            burst_count: 0,
            burst_cooldown: 1_000_000,
            keep_shooting: false,
        }
    }

    pub open spec fn bigdog_gun_spec() -> Gun {
        Gun {
            damage: 500,
            spread: 5_215,
            speed: 600_000,
            last_fired: 0,
            num_bullets: 5,
            automatic: true,
            cooldown: 400_000,
            ammo: 36,
            burst: 2,
            burst_count: 0,
            burst_cooldown: 4_000_000,
            keep_shooting: false,
        }
    }

    pub fn new_pistol() -> (g: Gun)
        ensures
            g == Gun::pistol_spec(),
            g.wf(),
    {
        Gun {
            damage: 1_000,
            spread: 1_043,
            speed: 2_000_000,
            last_fired: 0,
            num_bullets: 1,
            automatic: false,
            cooldown: 500_000,
            ammo: 24,
            burst: 1,
            burst_count: 0,
            burst_cooldown: 0,
            keep_shooting: false,
        }
    }

    pub fn new_npc_gun() -> (g: Gun)
        ensures
            g == Gun::npc_gun_spec(),
            g.wf(),
    {
        Gun {
            damage: 1_000,
            spread: 1_043,
            speed: 800_000,
            last_fired: 0,
            num_bullets: 1,
            automatic: false,
            cooldown: 500_000,
            ammo: 24,
            burst: 1,
            burst_count: 0,
            burst_cooldown: 0,
            keep_shooting: false,
        }
    }

    pub fn new_sprayer_gun() -> (g: Gun)
        ensures
            g == Gun::sprayer_gun_spec(),
            g.wf(),
    {
        Gun {
            damage: 500,
            spread: 2_086,
            speed: 700_000,
            last_fired: 0,
            num_bullets: 1,
            automatic: true,
            cooldown: 100_000,
            ammo: 48,
            burst: 7,
            burst_count: 0,
            burst_cooldown: 2_000_000,
            keep_shooting: false,
        }
    }

    pub fn new_makina() -> (g: Gun)
        ensures
            g == Gun::makina_spec(),
            g.wf(),
    {
        Gun {
            damage: 700,
            spread: 1_565,
            speed: 1_800_000,
            last_fired: 0,
            num_bullets: 1,
            automatic: true,
            cooldown: 50_000,
            ammo: 200,
            burst: 1,
            burst_count: 0,
            burst_cooldown: 0,
            keep_shooting: false,
        }
    }

    pub fn new_burst_rifle() -> (g: Gun)
        ensures
            g == Gun::burst_rifle_spec(),
            g.wf(),
    {
        Gun {
            damage: 1_000,
            spread: 209,
            speed: 1_800_000,
            last_fired: 0,
            num_bullets: 1,
            automatic: true,
            cooldown: 40_000,
            ammo: 100,
            burst: 3,
            burst_count: 0,
            burst_cooldown: 330_000,
            keep_shooting: true,
        }
    }

    pub fn new_shotgun() -> (g: Gun)
        ensures
            g == Gun::shotgun_spec(),
            g.wf(),
    {
        Gun {
            damage: 1_000,
            spread: 3_129,
            speed: 2_000_000,
            last_fired: 0,
            num_bullets: 6,
            automatic: true,
            cooldown: 500_000,
            ammo: 24,
            burst: 1,
            burst_count: 0,
            burst_cooldown: 1_000_000,
            keep_shooting: false,
        }
    }

    pub fn new_scattergun() -> (g: Gun)
        ensures
            g == Gun::scattergun_spec(),
            g.wf(),
    {
        Gun {
            damage: 1_000,
            spread: 3_129,
            speed: 2_000_000,
            last_fired: 0,
            num_bullets: 4,
            automatic: true,
            cooldown: 200_000,
            ammo: 36,
            burst: 2,
            burst_count: 0,
            burst_cooldown: 1_000_000,
            keep_shooting: false,
        }
    }

    pub fn new_bigdog_gun() -> (g: Gun)
        ensures
            g == Gun::bigdog_gun_spec(),
            g.wf(),
    {
        Gun {
            damage: 500,
            spread: 5_215,
            speed: 600_000,
            last_fired: 0,
            num_bullets: 5,
            automatic: true,
            cooldown: 400_000,
            ammo: 36,
            burst: 2,
            burst_count: 0,
            burst_cooldown: 4_000_000,
            keep_shooting: false,
        }
    }

    /// The weapon after a fire attempt at `time`, and whether the attempt fired.
    pub open spec fn fire_spec(self, time: int) -> (Gun, bool) {
        let elapsed = time - self.last_fired;
        if self.ammo <= 0 || elapsed < self.cooldown {
            (self, false)
        } else if self.burst_count == 0 && !(elapsed > self.burst_cooldown) {
            (Gun { keep_shooting: false, ..self }, false)
        } else {
            let count = if self.burst_count == 0 {
                self.burst
            } else {
                self.burst_count
            };
            (
                Gun {
                    ammo: (self.ammo - 1) as i32,
                    last_fired: time as i64,
                    burst_count: (count - 1) as i32,
                    keep_shooting: count - 1 > 0,
                    ..self
                },
                true,
            )
        }
    }

    /// One fire attempt at `time`: rejected when out of ammo, still cooling
    /// down, or idle with the burst not yet recharged (which also clears
    /// `keep_shooting`); otherwise spends one round of ammo and of the burst.
    pub fn fire(&mut self, time: i64) -> (fired: bool)
        requires
            old(self).wf(),
        ensures
            (*final(self), fired) == old(self).fire_spec(time as int),
            final(self).wf(),
    {
        let elapsed: i128 = time as i128 - self.last_fired as i128;
        if self.ammo <= 0 || elapsed < self.cooldown as i128 {
            return false;
        }
        if self.burst_count == 0 {
            if elapsed > self.burst_cooldown as i128 {
                self.burst_count = self.burst;
            } else {
                self.keep_shooting = false;
                return false;
            }
        }
        self.ammo = self.ammo - 1;
        self.last_fired = time;
        self.burst_count = self.burst_count - 1;
        self.keep_shooting = self.burst_count > 0;
        true
    }
}

/// A weapon without ammo never fires and is left as it was, whatever the time.
pub proof fn lemma_no_ammo_no_fire(g: Gun, time: int)
    requires
        g.ammo <= 0,
    ensures
        !g.fire_spec(time).1,
        g.fire_spec(time).0 == g,
{
}

/// Of two fire attempts less than `cooldown` apart, at most the first fires.
pub proof fn lemma_cooldown_respected(g: Gun, t1: int, t2: int)
    requires
        i64::MIN <= t1 <= i64::MAX,
        t2 - t1 < g.cooldown,
    ensures
        g.fire_spec(t1).1 ==> !g.fire_spec(t1).0.fire_spec(t2).1,
{
}

/// A pellet fired by `shooter` (entity `id`), turned `offset` from its look direction.
pub open spec fn pellet_spec(shooter: Entity, id: u64, offset: int) -> Entity {
    Entity {
        melee_damage: shooter.gun.damage,
        velocity: scale_spec(
            rotate_spec(normalize_spec(shooter.look_direction), offset),
            shooter.gun.speed as int,
        ),
        ..Entity::bullet_spec(
            shooter.aabb.center_spec(),
            shooter.look_direction,
            shooter.force,
            id,
        )
    }
}

/// The pellet that `shooter` (entity `id`) fires turned `offset` from its look
/// direction.
pub fn pellet(shooter: &Entity, id: u64, offset: i32) -> (b: Entity)
    ensures
        b == pellet_spec(*shooter, id, offset as int),
{
    let mut bullet = Entity::new_bullet(shooter.aabb.center(), shooter.look_direction, shooter.force, id);
    bullet.melee_damage = shooter.gun.damage;
    bullet.velocity = mul_scalar(rotate(normalize(shooter.look_direction), offset), shooter.gun.speed);
    bullet
}

/// Whether `b` is a pellet of `shooter` (entity `id`), turned within its weapon's spread.
pub open spec fn is_pellet(shooter: Entity, id: u64, b: Entity) -> bool {
    exists|offset: int|
        -shooter.gun.spread <= offset <= shooter.gun.spread && b == #[trigger] pellet_spec(
            shooter,
            id,
            offset,
        )
}

/// Entity `entity_id` tries to fire at `time`. On success, `num_bullets`
/// pellets leave its centre, each turned from the look direction by its own
/// angle, drawn uniformly from `-spread..=spread`.
pub fn shoot_gun(entity: &mut Entity, entity_id: u64, time: i64) -> (bullets: Vec<Entity>)
    requires
        old(entity).wf(),
    ensures
        final(entity).wf(),
        *final(entity) == (Entity { gun: old(entity).gun.fire_spec(time as int).0, ..*old(entity) }),
        bullets@.len() == if old(entity).gun.fire_spec(time as int).1 {
            old(entity).gun.num_bullets as int
        } else {
            0
        },
        forall|i: int|
            0 <= i < bullets@.len() ==> is_pellet(*old(entity), entity_id, #[trigger] bullets@[i]),
        old(entity).gun.ammo <= 0 ==> bullets@.len() == 0,
{
    let mut new_entities: Vec<Entity> = Vec::new();
    let fired = entity.gun.fire(time);
    if !fired {
        return new_entities;
    }
    let shooter = *entity;
    let n = shooter.gun.num_bullets;
    let spread = shooter.gun.spread;
    let mut k: u32 = 0;
    while k < n
        invariant
            k <= n,
            n == old(entity).gun.num_bullets,
            spread == old(entity).gun.spread,
            spread >= 0,
            shooter == *entity,
            *entity == (Entity { gun: old(entity).gun.fire_spec(time as int).0, ..*old(entity) }),
            new_entities@.len() == k,
            forall|i: int|
                0 <= i < k ==> is_pellet(*old(entity), entity_id, #[trigger] new_entities@[i]),
        decreases n - k,
    {
        let offset = random_in(-spread, spread);
        let bullet = pellet(&shooter, entity_id, offset);
        assert(bullet == pellet_spec(*old(entity), entity_id, offset as int));
        new_entities.push(bullet);
        k = k + 1;
    }
    new_entities
}

/// Damage a bullet deals itself on any impact: enough to remove it.
pub const BULLET_SELF_DAMAGE: u64 = 999_000;

/// Bullets in the ring a struck retaliator sends out.
pub const RETALIATION_COUNT: u32 = 8;

/// Damage of each bullet of that ring.
pub const RETALIATION_DAMAGE: u32 = 1_000;

/// The effects of contact `e` if its subject is a bullet: the struck entity
/// takes the bullet's damage, the bullet destroys itself on whatever it hit,
/// and a struck retaliator answers with a ring of bullets from its centre.
pub open spec fn bullet_effects_of(es: Seq<(u64, Entity)>, e: CollisionEvent) -> Seq<SideEffect> {
    match lookup(es, e.subject) {
        Some(s) => if s.variety == EntityType::Bullet {
            match e.object {
                CollisionObject::Entity(id) => match lookup(es, id) {
                    Some(o) => seq![
                        SideEffect::Damage(s.melee_damage as u64, id),
                        SideEffect::Damage(BULLET_SELF_DAMAGE, e.subject),
                    ] + if o.variety == EntityType::Retaliator {
                        seq![
                            SideEffect::SpawnCircBullets(
                                RETALIATION_COUNT,
                                RETALIATION_DAMAGE,
                                EntityForce::Neutral,
                                o.aabb.center_spec(),
                                e.subject,
                            ),
                        ]
                    } else {
                        Seq::empty()
                    },
                    None => Seq::empty(),
                },
                CollisionObject::Terrain(_, _) => seq![SideEffect::Damage(BULLET_SELF_DAMAGE, e.subject)],
            }
        } else {
            Seq::empty()
        },
        None => Seq::empty(),
    }
}

/// The bullet effects of the first `k` contacts, in order.
pub open spec fn bullet_effects(es: Seq<(u64, Entity)>, evs: Seq<CollisionEvent>, k: int) -> Seq<SideEffect>
    decreases k,
{
    if k <= 0 {
        Seq::empty()
    } else {
        bullet_effects(es, evs, k - 1) + bullet_effects_of(es, evs[k - 1])
    }
}

/// Queues the effects of this tick's bullet impacts.
pub fn handle_bullet_impacts(
    state: &SimulationState,
    collisions: &Vec<CollisionEvent>,
    effects: &mut Vec<SideEffect>,
)
    requires
        ids_unique(state.entities@),
    ensures
        final(effects)@ == old(effects)@ + bullet_effects(
            state.entities@,
            collisions@,
            collisions@.len() as int,
        ),
{
    let n = collisions.len();
    let mut k: usize = 0;
    while k < n
        invariant
            n == collisions@.len(),
            k <= n,
            ids_unique(state.entities@),
            effects@ == old(effects)@ + bullet_effects(state.entities@, collisions@, k as int),
        decreases n - k,
    {
        let col = collisions[k];
        if let Some(subject) = state.get_entity(col.subject) {
            if subject.variety == EntityType::Bullet {
                match col.object {
                    CollisionObject::Entity(id) => {
                        if let Some(object) = state.get_entity(id) {
                            effects.push(SideEffect::Damage(subject.melee_damage as u64, id));
                            effects.push(SideEffect::Damage(BULLET_SELF_DAMAGE, col.subject));
                            if object.variety == EntityType::Retaliator {
                                effects.push(
                                    SideEffect::SpawnCircBullets(
                                        RETALIATION_COUNT,
                                        RETALIATION_DAMAGE,
                                        EntityForce::Neutral,
                                        object.aabb.center(),
                                        col.subject,
                                    ),
                                );
                            }
                        }
                    },
                    CollisionObject::Terrain(_x, _y) => {
                        effects.push(SideEffect::Damage(BULLET_SELF_DAMAGE, col.subject));
                    },
                }
            }
        }
        proof {
            assert(effects@ =~= old(effects)@ + bullet_effects(state.entities@, collisions@, k + 1));
        }
        k = k + 1;
    }
}

} // verus!
