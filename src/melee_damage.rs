use vstd::prelude::*;
use crate::geometry::MICROS_PER_SECOND;
use crate::collision::{CollisionEvent, CollisionObject};
use crate::side_effect::SideEffect;
use crate::entity::Entity;
use crate::simulation_state::{SimulationState, lookup, ids_unique};

verus! {

/// Contact damage of `melee_damage` per second over `dt` microseconds.
pub open spec fn melee_amount(melee_damage: int, dt: int) -> int {
    (melee_damage * dt) / (MICROS_PER_SECOND as int)
}

/// The effect, if any, of contact `e`: a subject with melee damage hurts the
/// entity it touches.
pub open spec fn melee_effects_of(es: Seq<(u64, Entity)>, e: CollisionEvent, dt: int) -> Seq<SideEffect> {
    match lookup(es, e.subject) {
        Some(s) => if s.melee_damage != 0 {
            match e.object {
                CollisionObject::Entity(id) => if lookup(es, id) is Some {
                    seq![SideEffect::Damage(melee_amount(s.melee_damage as int, dt) as u64, id)]
                } else {
                    Seq::empty()
                },
                CollisionObject::Terrain(_, _) => Seq::empty(),
            }
        } else {
            Seq::empty()
        },
        None => Seq::empty(),
    }
}

/// The melee effects of the first `k` contacts, in order.
pub open spec fn melee_effects(es: Seq<(u64, Entity)>, evs: Seq<CollisionEvent>, dt: int, k: int) -> Seq<
    SideEffect,
>
    decreases k,
{
    if k <= 0 {
        Seq::empty()
    } else {
        melee_effects(es, evs, dt, k - 1) + melee_effects_of(es, evs[k - 1], dt)
    }
}

/// Queues contact damage for this tick's contacts.
pub fn handle_melee_damage(
    state: &SimulationState,
    collisions: &Vec<CollisionEvent>,
    effects: &mut Vec<SideEffect>,
)
    requires
        ids_unique(state.entities@),
    ensures
        final(effects)@ == old(effects)@ + melee_effects(
            state.entities@,
            collisions@,
            state.dt as int,
            collisions@.len() as int,
        ),
{
    let n = collisions.len();
    let mut k: usize = 0;
    while k < n
        invariant
            n == collisions@.len(),
            k <= n,
            ids_unique(state.entities@),
            effects@ == old(effects)@ + melee_effects(state.entities@, collisions@, state.dt as int, k as int),
        decreases n - k,
    {
        let col = collisions[k];
        let ghost before = effects@;
        if let Some(subject) = state.get_entity(col.subject) {
            if subject.melee_damage != 0 {
                match col.object {
                    CollisionObject::Entity(id) => {
                        if let Some(_object) = state.get_entity(id) {
                            let m = subject.melee_damage as u64;
                            let t = state.dt as u64;
                            assert(m * t <= 0xffff_ffff * 0xffff_ffff) by (nonlinear_arith)
                                requires
                                    m <= 0xffff_ffff,
                                    t <= 0xffff_ffff,
                            ;
                            let amount = (m * t) / MICROS_PER_SECOND as u64;
                            effects.push(SideEffect::Damage(amount, id));
                        }
                    },
                    _ => {},
                }
            }
        }
        proof {
            assert(effects@ =~= old(effects)@ + melee_effects(state.entities@, collisions@, state.dt as int, k + 1));
        }
        k = k + 1;
    }
}

} // verus!
