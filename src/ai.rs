use vstd::prelude::*;
use crate::geometry::{Vec2, clamp32, clamp_to_i32, normalize, normalize_spec};
use crate::entity::{Entity, EntityType};
use crate::grid::Grid;
use crate::command::Command;
use crate::simulation_state::SimulationState;

verus! {

/// How close a player must be for a shooting enemy to open fire.
pub const AGGRO_RADIUS: i64 = 500_000;

/// How close a player must be for a swarmer to give chase.
pub const CHASE_RADIUS: i64 = 1_000_000;

/// The vector from `from` to `to`, each component kept in range.
pub open spec fn offset_spec(from: Vec2, to: Vec2) -> Vec2 {
    Vec2 { x: clamp32(to.x - from.x) as i32, y: clamp32(to.y - from.y) as i32 }
}

/// The squared distance between two points.
pub open spec fn dist_sq(a: Vec2, b: Vec2) -> int {
    (a.x - b.x) * (a.x - b.x) + (a.y - b.y) * (a.y - b.y)
}

/// What entity `es[i]` decides about entity `es[j]`: an enemy looks at and
/// shoots a player within its aggro radius and in clear sight; a swarmer walks
/// toward a player within its chase radius and in clear sight.
pub open spec fn ai_pair(g: Grid, es: Seq<(u64, Entity)>, i: int, j: int) -> Seq<Command> {
    let (eid, e) = es[i];
    let t = es[j].1;
    let ec = e.aabb.center_spec();
    let tc = t.aabb.center_spec();
    let dir = normalize_spec(offset_spec(ec, tc));
    if t.variety != EntityType::Player {
        Seq::empty()
    } else if e.variety == EntityType::Enemy && dist_sq(ec, tc) < AGGRO_RADIUS * AGGRO_RADIUS
        && g.ray_spec(ec, tc) is None {
        seq![Command::Look(eid, dir), Command::Shoot(eid)]
    } else if e.variety == EntityType::Swarmer && dist_sq(ec, tc) < CHASE_RADIUS * CHASE_RADIUS
        && g.ray_spec(ec, tc) is None {
        seq![Command::Walk(eid, dir)]
    } else {
        Seq::empty()
    }
}

pub open spec fn ai_row(g: Grid, es: Seq<(u64, Entity)>, i: int, n: int) -> Seq<Command>
    decreases n,
{
    if n <= 0 {
        Seq::empty()
    } else {
        ai_row(g, es, i, n - 1) + ai_pair(g, es, i, n - 1)
    }
}

/// The commands of the first `m` entities, in registry order.
pub open spec fn ai_commands(g: Grid, es: Seq<(u64, Entity)>, m: int) -> Seq<Command>
    decreases m,
{
    if m <= 0 {
        Seq::empty()
    } else {
        ai_commands(g, es, m - 1) + ai_row(g, es, m - 1, es.len() as int)
    }
}

pub(crate) fn offset_exec(from: Vec2, to: Vec2) -> (r: Vec2)
    ensures
        r == offset_spec(from, to),
{
    Vec2 {
        x: clamp_to_i32(to.x as i128 - from.x as i128),
        y: clamp_to_i32(to.y as i128 - from.y as i128),
    }
}

fn dist_sq_exec(a: Vec2, b: Vec2) -> (r: i128)
    ensures
        r == dist_sq(a, b),
{
    let dx = a.x as i128 - b.x as i128;
    let dy = a.y as i128 - b.y as i128;
    assert(0 <= dx * dx <= 0x1_0000_0000_0000_0000 && 0 <= dy * dy <= 0x1_0000_0000_0000_0000)
        by (nonlinear_arith)
        requires
            -0x1_0000_0000 <= dx <= 0x1_0000_0000,
            -0x1_0000_0000 <= dy <= 0x1_0000_0000,
    ;
    dx * dx + dy * dy
}

/// The commands the non-player entities issue this tick.
pub fn compute_ai_commands(state: &SimulationState, commands: &mut Vec<Command>)
    requires
        state.terrain.wf(),
    ensures
        final(commands)@ == old(commands)@ + ai_commands(
            state.terrain,
            state.entities@,
            state.entities@.len() as int,
        ),
{
    let n = state.entities.len();
    let mut i: usize = 0;
    while i < n
        invariant
            n == state.entities@.len(),
            i <= n,
            state.terrain.wf(),
            commands@ == old(commands)@ + ai_commands(state.terrain, state.entities@, i as int),
        decreases n - i,
    {
        let (enemy_id, enemy) = state.entities[i];
        let ec = enemy.aabb.center();
        let ghost before = commands@;
        let mut j: usize = 0;
        while j < n
            invariant
                n == state.entities@.len(),
                i < n,
                j <= n,
                state.terrain.wf(),
                (enemy_id, enemy) == state.entities@[i as int],
                ec == enemy.aabb.center_spec(),
                commands@ == before + ai_row(state.terrain, state.entities@, i as int, j as int),
            decreases n - j,
        {
            let target = state.entities[j].1;
            if target.variety == EntityType::Player {
                let tc = target.aabb.center();
                let d2 = dist_sq_exec(ec, tc);
                let dir = normalize(offset_exec(ec, tc));
                if enemy.variety == EntityType::Enemy && d2 < (AGGRO_RADIUS * AGGRO_RADIUS) as i128
                    && state.terrain.raycast(ec, tc).is_none() {
                    commands.push(Command::Look(enemy_id, dir));
                    commands.push(Command::Shoot(enemy_id));
                } else if enemy.variety == EntityType::Swarmer && d2 < (CHASE_RADIUS
                    * CHASE_RADIUS) as i128 && state.terrain.raycast(ec, tc).is_none() {
                    commands.push(Command::Walk(enemy_id, dir));
                }
            }
            proof {
                assert(commands@ =~= before + ai_row(state.terrain, state.entities@, i as int, j + 1));
            }
            j = j + 1;
        }
        proof {
            assert(commands@ =~= old(commands)@ + ai_commands(state.terrain, state.entities@, i + 1));
        }
        i = i + 1;
    }
}

} // verus!
