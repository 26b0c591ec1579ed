use vstd::prelude::*;
use vstd::arithmetic::div_mod::{lemma_fundamental_div_mod, lemma_fundamental_div_mod_converse, lemma_div_is_ordered, lemma_div_multiples_vanish};
use crate::geometry::{Vec2, TURN, UNIT, heading, heading_spec, sin_spec, cos_spec, bhaskara};
use crate::geometry::scale_spec;
use crate::entity::{Entity, EntityForce, EntityType, BULLET_SPEED};
use crate::projectiles::BULLET_SELF_DAMAGE;
use crate::simulation_state::{SimulationState, has_id};

verus! {

/// A change to the world requested during a tick and applied after it.
///
/// `Damage(amount, target)`: `amount` is in thousandths of a hit point.
/// `SpawnCircBullets(count, damage, force, origin, source)`: a ring of `count`
/// bullets, each dealing `damage`, leaving `origin` on behalf of `source`.
#[derive(Clone, Copy, Debug)]
pub enum SideEffect {
    NoEffect,
    Damage(u64, u64),
    SpawnCircBullets(u32, u32, EntityForce, Vec2, u64),
}

/// Why an effect could not be applied.
#[derive(Clone, Copy, Debug, PartialEq, Eq, Structural)]
pub enum EffectError {
    /// The effect names an entity that is not alive.
    MissingTarget(u64),
    /// No fresh ids are left for the entities it would create.
    IdsExhausted,
}

/// Whether, if `e` is a damage, its target is alive in `es`.
pub open spec fn damage_target_alive(es: Seq<(u64, Entity)>, e: SideEffect) -> bool {
    match e {
        SideEffect::Damage(_, target) => has_id(es, target),
        _ => true,
    }
}

/// `e` after losing `amount` health, which bottoms out at `i64::MIN`.
pub open spec fn damaged(e: Entity, amount: int) -> Entity {
    Entity {
        health: (if e.health - amount < i64::MIN {
            i64::MIN as int
        } else {
            e.health - amount
        }) as i64,
        ..e
    }
}

/// `es` with entity `target`, if present, damaged by `amount`.
pub open spec fn apply_damage(es: Seq<(u64, Entity)>, target: u64, amount: int) -> Seq<(u64, Entity)> {
    es.map_values(
        |p: (u64, Entity)|
            if p.0 == target {
                (p.0, damaged(p.1, amount))
            } else {
                p
            },
    )
}

/// The angle of bullet `i` of a ring of `count`.
pub open spec fn radial_angle(i: int, count: int) -> int {
    (i * TURN) / count
}

/// Bullet `i` of a ring of `count`, aimed outward from `origin`.
pub open spec fn radial_bullet(
    origin: Vec2,
    force: EntityForce,
    source: u64,
    damage: u32,
    i: int,
    count: int,
) -> Entity {
    Entity {
        melee_damage: damage,
        ..Entity::bullet_spec(origin, heading_spec(radial_angle(i, count)), force, source)
    }
}

/// The first `len` entries of a ring of `count` bullets, given ids from `first_id` on.
pub open spec fn radial_entries(
    first_id: int,
    origin: Vec2,
    force: EntityForce,
    source: u64,
    damage: u32,
    count: int,
    len: int,
) -> Seq<(u64, Entity)> {
    Seq::new(
        len as nat,
        |i: int| ((first_id + i) as u64, radial_bullet(origin, force, source, damage, i, count)),
    )
}

/// The registry and next free id after applying effect `e` to registry `es`
/// with next free id `next`; `None` when it cannot be applied (a damage to an
/// entity that is not alive, or a ring for which ids run out).
pub open spec fn effect_step(es: Seq<(u64, Entity)>, next: u64, e: SideEffect) -> Option<
    (Seq<(u64, Entity)>, u64),
> {
    match e {
        SideEffect::NoEffect => Some((es, next)),
        SideEffect::Damage(amount, target) => if has_id(es, target) {
            Some((apply_damage(es, target, amount as int), next))
        } else {
            None
        },
        SideEffect::SpawnCircBullets(count, damage, force, origin, source) => if next + count
            <= u64::MAX {
            Some(
                (
                    es + radial_entries(
                        next as int,
                        origin,
                        force,
                        source,
                        damage,
                        count as int,
                        count as int,
                    ),
                    (next + count) as u64,
                ),
            )
        } else {
            None
        },
    }
}

/// The first `k` effects of `effs` applied in order; `None` once one of them
/// cannot be applied.
pub open spec fn effects_applied(
    es: Seq<(u64, Entity)>,
    next: u64,
    effs: Seq<SideEffect>,
    k: int,
) -> Option<(Seq<(u64, Entity)>, u64)>
    decreases k,
{
    if k <= 0 {
        Some((es, next))
    } else {
        match effects_applied(es, next, effs, k - 1) {
            Some(p) => effect_step(p.0, p.1, effs[k - 1]),
            None => None,
        }
    }
}

/// How many bullets the rings among the first `k` effects of `effs` spawn.
pub open spec fn spawn_total(effs: Seq<SideEffect>, k: int) -> int
    decreases k,
{
    if k <= 0 {
        0
    } else {
        spawn_total(effs, k - 1) + match effs[k - 1] {
            SideEffect::SpawnCircBullets(count, _, _, _, _) => count as int,
            _ => 0,
        }
    }
}

/// Once an effect cannot be applied, neither can the list.
pub proof fn lemma_effects_stuck(es: Seq<(u64, Entity)>, next: u64, effs: Seq<SideEffect>, k: int, m: int)
    requires
        0 <= k <= m,
        effects_applied(es, next, effs, k) is None,
    ensures
        effects_applied(es, next, effs, m) is None,
    decreases m - k,
{
    if k < m {
        lemma_effects_stuck(es, next, effs, k, m - 1);
    }
}

impl SimulationState {
    /// Applies one effect. Damage lowers the target's health (no death check
    /// here: the sweep at the end of the tick removes the dead). A ring spawns
    /// `count` bullets evenly spaced around the origin, under fresh ids.
    pub fn resolve_side_effect(&mut self, effect: SideEffect) -> (r: Result<(), EffectError>)
        requires
            old(self).wf(),
        ensures
            final(self).wf(),
            final(self).terrain == old(self).terrain,
            final(self).time == old(self).time,
            final(self).dt == old(self).dt,
            r is Ok ==> forall|t: u64| #[trigger] has_id(old(self).entities@, t) ==> has_id(final(self).entities@, t),
            match effect_step(old(self).entities@, old(self).next_id, effect) {
                Some(p) => r is Ok && final(self).entities@ == p.0 && final(self).next_id == p.1,
                None => r is Err && *final(self) == *old(self),
            },
            match effect {
                SideEffect::NoEffect => r is Ok && *final(self) == *old(self),
                SideEffect::Damage(amount, target) => if has_id(old(self).entities@, target) {
                    &&& r is Ok
                    &&& final(self).entities@ == apply_damage(old(self).entities@, target, amount as int)
                    &&& final(self).next_id == old(self).next_id
                } else {
                    r == Err::<(), EffectError>(EffectError::MissingTarget(target)) && *final(self) == *old(self)
                },
                SideEffect::SpawnCircBullets(count, damage, force, origin, source) => if old(self).next_id
                    + count <= u64::MAX {
                    &&& r is Ok
                    &&& final(self).entities@ == old(self).entities@ + radial_entries(
                        old(self).next_id as int,
                        origin,
                        force,
                        source,
                        damage,
                        count as int,
                        count as int,
                    )
                    &&& final(self).next_id == old(self).next_id + count
                } else {
                    r == Err::<(), EffectError>(EffectError::IdsExhausted) && *final(self) == *old(self)
                },
            },
    {
        match effect {
            SideEffect::NoEffect => Ok(()),
            SideEffect::Damage(amount, target) => {
                match self.find_entity(target) {
                    Some(i) => {
                        let (key, e) = self.entities[i];
                        let mut hurt = e;
                        let h: i128 = e.health as i128 - amount as i128;
                        hurt.health = if h < i64::MIN as i128 {
                            i64::MIN
                        } else {
                            h as i64
                        };
                        let ghost before = self.entities@;
                        self.entities.set(i, (key, hurt));
                        proof {
                            assert(self.entities@ =~= apply_damage(before, target, amount as int));
                            assert forall|t: u64| #[trigger] has_id(before, t) implies has_id(self.entities@, t) by {
                                let w = choose|w: int| 0 <= w < before.len() && #[trigger] before[w].0 == t;
                                assert(self.entities@[w].0 == t);
                            }
                            assert forall|j: int| 0 <= j < self.entities@.len() implies (
                            #[trigger] self.entities@[j]).0 == before[j].0 && self.entities@[j].1.wf() by {}
                        }
                        Ok(())
                    },
                    None => Err(EffectError::MissingTarget(target)),
                }
            },
            SideEffect::SpawnCircBullets(count, damage, force, origin, source) => {
                if self.next_id as u128 + count as u128 > u64::MAX as u128 {
                    return Err(EffectError::IdsExhausted);
                }
                let ghost first = self.next_id as int;
                let ghost start = self.entities@;
                let mut i: u32 = 0;
                while i < count
                    invariant
                        i <= count,
                        self.wf(),
                        first + count <= u64::MAX,
                        self.next_id == first + i,
                        self.entities@ == start + radial_entries(first, origin, force, source, damage, count as int, i as int),
                        self.terrain == old(self).terrain,
                        self.time == old(self).time,
                        self.dt == old(self).dt,
                    decreases count - i,
                {
                    proof {
                        lemma_radial_angle_in_turn(i as int, count as int);
                    }
                    let angle = ((i as u64 * TURN as u64) / count as u64) as i32;
                    let mut bullet = Entity::new_bullet(origin, heading(angle), force, source);
                    bullet.melee_damage = damage;
                    let id = self.add_entity(bullet);
                    proof {
                        assert(self.entities@ =~= start + radial_entries(first, origin, force, source, damage, count as int, i + 1));
                    }
                    i = i + 1;
                }
                proof {
                    assert forall|t: u64| #[trigger] has_id(start, t) implies has_id(self.entities@, t) by {
                        let w = choose|w: int| 0 <= w < start.len() && #[trigger] start[w].0 == t;
                        assert(self.entities@[w] == start[w]);
                    }
                }
                Ok(())
            },
        }
    }
}

proof fn lemma_radial_angle_in_turn(i: int, count: int)
    requires
        0 <= i < count <= 0xffff_ffff,
    ensures
        0 <= radial_angle(i, count) < TURN,
        i * TURN <= 0xffff_ffff * 0x1_0000,
{
    assert(i * TURN <= count * TURN) by (nonlinear_arith)
        requires
            0 <= i < count,
    ;
    assert(i * TURN <= 0xffff_ffff * 0x1_0000) by (nonlinear_arith)
        requires
            0 <= i < count <= 0xffff_ffff,
    ;
    lemma_div_is_ordered(i * TURN, (count - 1) * TURN + (TURN - 1), count);
    lemma_fundamental_div_mod(i * TURN, count);
    assert(0 <= radial_angle(i, count) < TURN) by (nonlinear_arith)
        requires
            0 <= i < count,
            i * TURN == count * ((i * TURN) / count) + (i * TURN) % count,
            0 <= (i * TURN) % count < count,
            radial_angle(i, count) == (i * TURN) / count,
    ;
}

/// `v` turned a quarter turn: `(y, -x)`.
pub open spec fn quarter_turn(v: Vec2) -> Vec2 {
    Vec2 { x: v.y, y: (-v.x) as i32 }
}

proof fn lemma_bhaskara_bounds(x: int)
    requires
        0 <= x <= TURN / 2,
    ensures
        0 <= bhaskara(x) <= UNIT,
{
    let half = TURN / 2;
    let p = x * (half - x);
    assert(0 <= p && 4 * p <= half * half) by (nonlinear_arith)
        requires
            p == x * (half - x),
            0 <= x <= half,
    {
        assert((half - 2 * x) * (half - 2 * x) >= 0);
    }
    let num = 16 * x * (half - x) * UNIT;
    let den = 5 * half * half - 4 * x * (half - x);
    assert(num == 16 * p * UNIT && den == 5 * half * half - 4 * p) by (nonlinear_arith)
        requires
            p == x * (half - x),
            num == 16 * x * (half - x) * UNIT,
            den == 5 * half * half - 4 * x * (half - x),
    ;
    assert(0 <= num <= den * UNIT && den > 0) by (nonlinear_arith)
        requires
            num == 16 * p * 1_000_000,
            den == 5 * half * half - 4 * p,
            0 <= p,
            4 * p <= half * half,
            half == 32768,
    ;
    lemma_div_is_ordered(num, den * UNIT, den);
    lemma_div_multiples_vanish(UNIT as int, den);
    lemma_div_is_ordered(0, num, den);
}

proof fn lemma_sin_bounds(a: int)
    ensures
        -UNIT <= sin_spec(a) <= UNIT,
{
    let r = a % (TURN as int);
    lemma_fundamental_div_mod(a, TURN as int);
    if r < TURN / 2 {
        lemma_bhaskara_bounds(r);
    } else {
        lemma_bhaskara_bounds(r - TURN / 2);
    }
}

proof fn lemma_sin_half_turn(a: int)
    ensures
        sin_spec(a + TURN / 2) == -sin_spec(a),
{
    let t = TURN as int;
    let h = TURN / 2;
    let q = a / t;
    let r = a % t;
    lemma_fundamental_div_mod(a, t);
    if r < h {
        lemma_fundamental_div_mod_converse(a + h, t, q, r + h);
    } else {
        lemma_fundamental_div_mod_converse(a + h, t, q + 1, r - h);
    }
}

/// Turning an angle by a quarter turn turns its direction by exactly a quarter turn.
pub proof fn lemma_heading_quarter_turn(a: int)
    ensures
        heading_spec(a + TURN / 4) == quarter_turn(heading_spec(a)),
{
    lemma_sin_half_turn(a);
    lemma_sin_bounds(a);
    lemma_sin_bounds(a + TURN / 4);
    assert(cos_spec(a + TURN / 4) == sin_spec(a + TURN / 2));
}

/// A ring of eight bullets leaves in eight evenly spaced directions: their
/// angles are an eighth of a turn apart, each direction is the one two places
/// before it turned exactly a quarter turn, the first points along +y and the
/// second lies on the diagonal; every bullet has its direction scaled by the
/// same speed.
pub proof fn lemma_ring_of_eight(origin: Vec2, force: EntityForce, source: u64, damage: u32)
    ensures
        forall|i: int| 0 <= i < 7 ==> radial_angle(i + 1, 8) - #[trigger] radial_angle(i, 8) == TURN / 8,
        forall|i: int|
            0 <= i < 6 ==> heading_spec(radial_angle(i + 2, 8)) == quarter_turn(
                heading_spec(#[trigger] radial_angle(i, 8)),
            ),
        heading_spec(radial_angle(0, 8)) == (Vec2 { x: 0, y: UNIT }),
        heading_spec(radial_angle(1, 8)).x == heading_spec(radial_angle(1, 8)).y,
        forall|i: int|
            0 <= i < 8 ==> (#[trigger] radial_bullet(origin, force, source, damage, i, 8)).velocity
                == scale_spec(heading_spec(radial_angle(i, 8)), BULLET_SPEED as int),
{
    assert forall|i: int| 0 <= i < 8 implies #[trigger] radial_angle(i, 8) == i * (TURN / 8) by {
        lemma_div_multiples_vanish(i * (TURN / 8), 8);
        assert(i * TURN == 8 * (i * (TURN / 8)));
    }
    assert forall|i: int|
        0 <= i < 6 implies heading_spec(radial_angle(i + 2, 8)) == quarter_turn(
        heading_spec(#[trigger] radial_angle(i, 8)),
    ) by {
        assert(radial_angle(i + 2, 8) == radial_angle(i, 8) + TURN / 4);
        lemma_heading_quarter_turn(radial_angle(i, 8));
    }
    assert(radial_angle(0, 8) == 0);
    assert(radial_angle(1, 8) == 8192);
    lemma_fundamental_div_mod_converse(0, TURN as int, 0, 0);
    lemma_fundamental_div_mod_converse(8192, TURN as int, 0, 8192);
    lemma_fundamental_div_mod_converse(16384, TURN as int, 0, 16384);
    lemma_fundamental_div_mod_converse(24576, TURN as int, 0, 24576);
    assert(TURN / 2 == 32768 && UNIT == 1_000_000);
    assert(16 * 0 * (32768 - 0) * 1_000_000 == 0 && 5 * 32768 * 32768 - 4 * 0 * (32768 - 0)
        == 5_368_709_120) by (nonlinear_arith);
    lemma_fundamental_div_mod_converse(0, 5_368_709_120, 0, 0);
    assert(bhaskara(0) == 0);
    assert(16 * 16384 * (32768 - 16384) * 1_000_000 == 4_294_967_296_000_000 && 5 * 32768 * 32768
        - 4 * 16384 * (32768 - 16384) == 4_294_967_296) by (nonlinear_arith);
    lemma_fundamental_div_mod_converse(4_294_967_296_000_000, 4_294_967_296, 1_000_000, 0);
    assert(sin_spec(0) == 0);
    assert(cos_spec(0) == bhaskara(16384));
    assert(bhaskara(16384) == UNIT);
    assert(sin_spec(8192) == bhaskara(8192));
    assert(cos_spec(8192) == bhaskara(24576));
    assert(bhaskara(8192) == bhaskara(24576));
}

/// Two damages against one entity in the same tick compose: it ends the tick
/// with health left exactly when their sum stays below its health.
pub proof fn lemma_damages_compose(e: Entity, a: u64, b: u64)
    ensures
        damaged(damaged(e, a as int), b as int).health > 0 <==> a + b < e.health,
        e.health - a - b >= i64::MIN ==> damaged(damaged(e, a as int), b as int).health == e.health
            - a - b,
{
}

/// A bullet's own impact damage takes all its health, so the sweep removes it.
pub proof fn lemma_impact_removes_bullet(e: Entity)
    requires
        e.wf(),
        e.variety == EntityType::Bullet,
    ensures
        damaged(e, BULLET_SELF_DAMAGE as int).health <= 0,
{
}

/// Each bullet of a ring of eight flies at the bullet speed to within 0.2%:
/// its squared speed lies between 99.6% and 100% of the squared bullet speed
/// (exact equality is out of reach for the diagonals on an integer lattice).
pub proof fn lemma_ring_of_eight_speeds(origin: Vec2, force: EntityForce, source: u64, damage: u32)
    ensures
        forall|i: int|
            0 <= i < 8 ==> {
                let v = (#[trigger] radial_bullet(origin, force, source, damage, i, 8)).velocity;
                &&& 996 * (BULLET_SPEED * BULLET_SPEED) <= 1000 * (v.x * v.x + v.y * v.y)
                &&& 1000 * (v.x * v.x + v.y * v.y) <= 1000 * (BULLET_SPEED * BULLET_SPEED)
            },
{
    lemma_ring_of_eight(origin, force, source, damage);
    let sp = BULLET_SPEED as int;
    let u = UNIT as int;
    assert(16 * 8192 * (32768 - 8192) * 1_000_000 == 3_221_225_472_000_000int && 5 * 32768 * 32768
        - 4 * 8192 * (32768 - 8192) == 4_563_402_752int) by (nonlinear_arith);
    lemma_fundamental_div_mod_converse(3_221_225_472_000_000, 4_563_402_752, 705_882, 1_610_612_736);
    assert(bhaskara(8192) == 705_882);
    lemma_fundamental_div_mod_converse(8192, TURN as int, 0, 8192);
    assert(sin_spec(8192) == 705_882);
    lemma_fundamental_div_mod_converse(494_117_400_000int, 1_000_000, 494_117, 400_000);
    lemma_fundamental_div_mod_converse(-494_117_400_000int, 1_000_000, -494_118, 600_000);
    lemma_fundamental_div_mod_converse(700_000_000_000int, 1_000_000, 700_000, 0);
    lemma_fundamental_div_mod_converse(-700_000_000_000int, 1_000_000, -700_000, 0);
    lemma_fundamental_div_mod_converse(0, 1_000_000, 0, 0);
    let h0 = heading_spec(radial_angle(0, 8));
    let h1 = heading_spec(radial_angle(1, 8));
    assert(h0 == (Vec2 { x: 0, y: UNIT }));
    assert(h1 == (Vec2 { x: 705_882, y: 705_882 }));
    let h2 = heading_spec(radial_angle(2, 8));
    let h3 = heading_spec(radial_angle(3, 8));
    let h4 = heading_spec(radial_angle(4, 8));
    let h5 = heading_spec(radial_angle(5, 8));
    let h6 = heading_spec(radial_angle(6, 8));
    let h7 = heading_spec(radial_angle(7, 8));
    assert(h2 == quarter_turn(h0));
    assert(h3 == quarter_turn(h1));
    assert(h4 == quarter_turn(h2));
    assert(h5 == quarter_turn(h3));
    assert(h6 == quarter_turn(h4));
    assert(h7 == quarter_turn(h5));
    assert forall|i: int|
        0 <= i < 8 implies {
        let v = (#[trigger] radial_bullet(origin, force, source, damage, i, 8)).velocity;
        &&& 996 * (BULLET_SPEED * BULLET_SPEED) <= 1000 * (v.x * v.x + v.y * v.y)
        &&& 1000 * (v.x * v.x + v.y * v.y) <= 1000 * (BULLET_SPEED * BULLET_SPEED)
    } by {
        let v = radial_bullet(origin, force, source, damage, i, 8).velocity;
        assert(v == scale_spec(heading_spec(radial_angle(i, 8)), BULLET_SPEED as int));
        if i == 0 {
            assert(v.x == 0 && v.y == 700_000);
        } else if i == 1 {
            assert(v.x == 494_117 && v.y == 494_117);
        } else if i == 2 {
            assert(v.x == 700_000 && v.y == 0);
        } else if i == 3 {
            assert(v.x == 494_117 && v.y == -494_118);
        } else if i == 4 {
            assert(v.x == 0 && v.y == -700_000);
        } else if i == 5 {
            assert(v.x == -494_118 && v.y == -494_118);
        } else if i == 6 {
            assert(v.x == -700_000 && v.y == 0);
        } else {
            assert(v.x == -494_118 && v.y == 494_117);
        }
    }
}

} // verus!
