use vstd::prelude::*;
use crate::geometry::{Vec2, mul_scalar, scale_spec};
use crate::entity::Entity;
use crate::projectiles::{shoot_gun, is_pellet, Gun};
use crate::simulation_state::{SimulationState, lookup};

verus! {

/// An intent for one entity: walk along a direction (the zero vector stops
/// it), look along a direction, or fire.
#[derive(Clone, Copy, Debug, PartialEq, Eq, Structural)]
pub enum Command {
    Walk(u64, Vec2),
    Look(u64, Vec2),
    Shoot(u64),
}

/// `es` with entity `id`, if present, walking along `dir` at its own speed.
pub open spec fn with_walk(es: Seq<(u64, Entity)>, id: u64, dir: Vec2) -> Seq<(u64, Entity)> {
    es.map_values(
        |p: (u64, Entity)|
            if p.0 == id {
                (p.0, Entity { velocity: scale_spec(dir, p.1.speed as int), ..p.1 })
            } else {
                p
            },
    )
}

/// `es` with entity `id`, if present, looking along `dir`.
pub open spec fn with_look(es: Seq<(u64, Entity)>, id: u64, dir: Vec2) -> Seq<(u64, Entity)> {
    es.map_values(
        |p: (u64, Entity)|
            if p.0 == id {
                (p.0, Entity { look_direction: dir, ..p.1 })
            } else {
                p
            },
    )
}

/// `es` with the weapon of entity `id`, if present, replaced by `gun`.
pub open spec fn with_gun(es: Seq<(u64, Entity)>, id: u64, gun: Gun) -> Seq<(u64, Entity)> {
    es.map_values(
        |p: (u64, Entity)|
            if p.0 == id {
                (p.0, Entity { gun, ..p.1 })
            } else {
                p
            },
    )
}

/// How one command changes the registry `es` (with next free id `next`) at
/// time `time` into `es2` (with next free id `next2`). A walk sets the
/// walker's velocity to the direction times its speed; a look with a non-zero
/// direction sets the look direction (a zero one is ignored); a shot runs the
/// shooter's weapon and appends the pellets it fires under fresh ids (none if
/// the ids would run out). A command for an entity that is not alive does
/// nothing.
pub open spec fn command_step(
    es: Seq<(u64, Entity)>,
    next: u64,
    time: int,
    command: Command,
    es2: Seq<(u64, Entity)>,
    next2: u64,
) -> bool {
    match command {
        Command::Walk(id, dir) => es2 == with_walk(es, id, dir) && next2 == next,
        Command::Look(id, dir) => next2 == next && if dir.x == 0 && dir.y == 0 {
            es2 == es
        } else {
            es2 == with_look(es, id, dir)
        },
        Command::Shoot(id) => match lookup(es, id) {
            Some(e) => {
                let outcome = e.gun.fire_spec(time);
                let n0 = es.len();
                let added = es2.len() - n0;
                &&& es2.len() >= n0
                &&& es2.take(n0 as int) == with_gun(es, id, outcome.0)
                &&& next2 == next + added
                &&& added == if outcome.1 && next + e.gun.num_bullets <= u64::MAX {
                    e.gun.num_bullets as int
                } else {
                    0
                }
                &&& forall|j: int|
                    n0 <= j < es2.len() ==> (#[trigger] es2[j]).0 == next + (j - n0) && is_pellet(
                        e,
                        id,
                        es2[j].1,
                    )
            },
            None => es2 == es && next2 == next,
        },
    }
}

/// Whether `trace` lists the states (registry and next free id) that applying
/// `cmds` in order at time `time` passes through: `trace[0]` is the start, and
/// each command turns `trace[j]` into `trace[j + 1]`.
pub open spec fn command_trace(
    time: int,
    cmds: Seq<Command>,
    trace: Seq<(Seq<(u64, Entity)>, u64)>,
) -> bool {
    forall|j: int|
        0 <= j < trace.len() - 1 ==> #[trigger] command_step(
            trace[j].0,
            trace[j].1,
            time,
            cmds[j],
            trace[j + 1].0,
            trace[j + 1].1,
        )
}

/// Whether applying the first `k` commands of `cmds` in order, at time
/// `time`, can turn registry `es0` (next free id `next0`) into `es` (next free
/// id `next`). Shots draw their spread at random, so this relates states
/// rather than computing one.
pub open spec fn commands_applied(
    es0: Seq<(u64, Entity)>,
    next0: u64,
    time: int,
    cmds: Seq<Command>,
    k: int,
    es: Seq<(u64, Entity)>,
    next: u64,
) -> bool {
    exists|trace: Seq<(Seq<(u64, Entity)>, u64)>|
        #[trigger] command_trace(time, cmds, trace) && trace.len() == k + 1 && trace[0] == (es0, next0)
            && trace[k] == (es, next)
}

/// Applies one command, as `command_step` says.
pub fn apply_command(state: &mut SimulationState, command: Command)
    requires
        old(state).wf(),
    ensures
        final(state).wf(),
        final(state).terrain == old(state).terrain,
        final(state).time == old(state).time,
        final(state).dt == old(state).dt,
        final(state).entities@.len() >= old(state).entities@.len(),
        command_step(
            old(state).entities@,
            old(state).next_id,
            old(state).time as int,
            command,
            final(state).entities@,
            final(state).next_id,
        ),
{
    match command {
        Command::Walk(walker_id, direction) => {
            if let Some(i) = state.find_entity(walker_id) {
                let (key, walker) = state.entities[i];
                let mut w = walker;
                w.velocity = mul_scalar(direction, walker.speed);
                let ghost before = state.entities@;
                state.entities.set(i, (key, w));
                proof {
                    assert(state.entities@ =~= with_walk(before, walker_id, direction));
                    assert forall|j: int| 0 <= j < state.entities@.len() implies (
                    #[trigger] state.entities@[j]).0 == before[j].0 && state.entities@[j].1.wf() by {}
                }
            } else {
                proof {
                    assert(state.entities@ =~= with_walk(state.entities@, walker_id, direction));
                }
            }
        },
        Command::Look(id, dir) => {
            if dir.x == 0 && dir.y == 0 {
                return;
            }
            if let Some(i) = state.find_entity(id) {
                let (key, looker) = state.entities[i];
                let mut l = looker;
                l.look_direction = dir;
                let ghost before = state.entities@;
                state.entities.set(i, (key, l));
                proof {
                    assert(state.entities@ =~= with_look(before, id, dir));
                    assert forall|j: int| 0 <= j < state.entities@.len() implies (
                    #[trigger] state.entities@[j]).0 == before[j].0 && state.entities@[j].1.wf() by {}
                }
            } else {
                proof {
                    assert(state.entities@ =~= with_look(state.entities@, id, dir));
                }
            }
        },
        Command::Shoot(shooter_id) => {
            let found = state.find_entity(shooter_id);
            if found.is_none() {
                proof {
                    assert(lookup(state.entities@, shooter_id) is None);
                }
                return;
            }
            let i = found.unwrap();
            let ghost before = state.entities@;
            let ghost e0 = before[i as int].1;
            proof {
                let j = choose|j: int| 0 <= j < before.len() && #[trigger] before[j].0 == shooter_id;
                assert(before[i as int].0 == shooter_id);
                assert(i == j);
                assert(lookup(before, shooter_id) == Some(e0));
            }
            let (key, shooter) = state.entities[i];
            let mut s = shooter;
            let bullets = shoot_gun(&mut s, shooter_id, state.time);
            state.entities.set(i, (key, s));
            proof {
                assert(state.entities@ =~= with_gun(before, shooter_id, e0.gun.fire_spec(state.time as int).0));
                assert forall|j: int| 0 <= j < state.entities@.len() implies (
                #[trigger] state.entities@[j]).0 == before[j].0 && state.entities@[j].1.wf() by {}
            }
            let ghost mid = state.entities@;
            let ghost first = state.next_id as int;
            let n = bullets.len();
            if state.next_id as u128 + n as u128 > u64::MAX as u128 {
                proof {
                    assert(state.entities@.take(before.len() as int) =~= state.entities@);
                }
                return;
            }
            let mut k: usize = 0;
            while k < n
                invariant
                    n == bullets@.len(),
                    k <= n,
                    first + n <= u64::MAX,
                    state.wf(),
                    state.next_id == first + k,
                    state.entities@.len() == mid.len() + k,
                    state.entities@.take(mid.len() as int) == mid,
                    mid.len() == before.len(),
                    forall|b: int| 0 <= b < n ==> is_pellet(e0, shooter_id, #[trigger] bullets@[b]),
                    forall|j: int|
                        mid.len() <= j < state.entities@.len() ==> (#[trigger] state.entities@[j]).0
                            == first + (j - mid.len()) && is_pellet(e0, shooter_id, state.entities@[j].1),
                    state.terrain == old(state).terrain,
                    state.time == old(state).time,
                    state.dt == old(state).dt,
                decreases n - k,
            {
                proof {
                    assert(bullets@[k as int].wf());
                }
                let ghost prev = state.entities@;
                let _ = state.add_entity(bullets[k]);
                proof {
                    assert(state.entities@.take(mid.len() as int) =~= prev.take(mid.len() as int));
                    assert forall|j: int|
                        mid.len() <= j < state.entities@.len() implies (#[trigger] state.entities@[j]).0
                            == first + (j - mid.len()) && is_pellet(e0, shooter_id, state.entities@[j].1) by {
                        if j < prev.len() {
                            assert(state.entities@[j] == prev[j]);
                        }
                    }
                }
                k = k + 1;
            }
        },
    }
}

} // verus!
