use vstd::prelude::*;
use vstd::slice::slice_subrange;
use crate::geometry::{Vec2, UNIT, clamp32, clamp_to_i32, div_floor, normalize, normalize_spec};
use crate::entity::{Entity, EntityType};
use crate::projectiles::{Gun, handle_bullet_impacts, bullet_effects, bullet_effects_of};
use crate::collision::{
    CollisionEvent, simulate_entity_entity_collisions, simulate_entity_terrain_collisions,
    compute_movement, entity_events, terrain_events, movements_spec,
};
use crate::command::{Command, apply_command, with_look, with_gun, commands_applied, command_step, command_trace};
use crate::ai::{compute_ai_commands, ai_commands, offset_spec};
use crate::melee_damage::{handle_melee_damage, melee_effects, melee_effects_of};
use crate::side_effect::{SideEffect, EffectError, damage_target_alive, effects_applied, spawn_total, lemma_effects_stuck};
use crate::screen_transform::ScreenTransform;
use crate::simulation_state::{
    SimulationState, generate_level_drunk, lookup, walled_border, has_id, apply_moves, apply_move,
    survivors, stands_on_ground,
};

verus! {

/// The game: the world, the camera, the player's id, a pause switch, and the
/// per-tick buffers (cleared at the start of each frame by `clear_arenas`).
pub struct Game {
    pub pause: bool,
    pub frame_commands: Vec<Command>,
    pub frame_collisions: Vec<CollisionEvent>,
    pub frame_movements: Vec<(u64, i64, i64)>,
    pub frame_side_effects: Vec<SideEffect>,
    pub player_id: u64,
    pub transform: ScreenTransform,
    pub state: SimulationState,
}

/// The id of the last player in `es`, or `default` when there is none.
pub open spec fn last_player(es: Seq<(u64, Entity)>, default: u64) -> u64
    decreases es.len(),
{
    if es.len() == 0 {
        default
    } else if es.last().1.variety == EntityType::Player {
        es.last().0
    } else {
        last_player(es.drop_last(), default)
    }
}

/// When only the first entry is a player, it is the last player.
proof fn lemma_only_first_player(es: Seq<(u64, Entity)>, default: u64)
    requires
        es.len() >= 1,
        es[0].1.variety == EntityType::Player,
        forall|q: int| 1 <= q < es.len() ==> (#[trigger] es[q]).1.variety != EntityType::Player,
    ensures
        last_player(es, default) == es[0].0,
    decreases es.len(),
{
    if es.len() > 1 {
        assert(es.last() == es[es.len() - 1]);
        let rest = es.drop_last();
        assert forall|q: int| 1 <= q < rest.len() implies (#[trigger] rest[q]).1.variety != EntityType::Player by {
            assert(rest[q] == es[q]);
        }
        lemma_only_first_player(rest, default);
    }
}

/// Whether every damage in `effs` targets an entity alive in `es`.
pub open spec fn targets_alive(es: Seq<(u64, Entity)>, effs: Seq<SideEffect>) -> bool {
    forall|j: int| 0 <= j < effs.len() ==> damage_target_alive(es, #[trigger] effs[j])
}

proof fn lemma_targets_concat(es: Seq<(u64, Entity)>, a: Seq<SideEffect>, b: Seq<SideEffect>)
    requires
        targets_alive(es, a),
        targets_alive(es, b),
    ensures
        targets_alive(es, a + b),
{
    assert forall|j: int| 0 <= j < (a + b).len() implies damage_target_alive(es, #[trigger] (a + b)[j]) by {
        if j < a.len() {
            assert((a + b)[j] == a[j]);
        } else {
            assert((a + b)[j] == b[j - a.len()]);
        }
    }
}

/// The effects that the producers queue only name live entities.
proof fn lemma_produced_targets_alive(es: Seq<(u64, Entity)>, evs: Seq<CollisionEvent>, dt: int, k: int)
    ensures
        targets_alive(es, melee_effects(es, evs, dt, k)),
        targets_alive(es, bullet_effects(es, evs, k)),
    decreases k,
{
    if k > 0 {
        lemma_produced_targets_alive(es, evs, dt, k - 1);
        lemma_targets_concat(es, melee_effects(es, evs, dt, k - 1), melee_effects_of(es, evs[k - 1], dt));
        lemma_targets_concat(es, bullet_effects(es, evs, k - 1), bullet_effects_of(es, evs[k - 1]));
    }
}

proof fn lemma_spawn_total_grows(effs: Seq<SideEffect>, a: int, b: int)
    requires
        0 <= a <= b,
    ensures
        spawn_total(effs, a) <= spawn_total(effs, b),
    decreases b - a,
{
    if a < b {
        lemma_spawn_total_grows(effs, a, b - 1);
    }
}

/// Every movement computed over the first `m` entries of `es` moves one of them.
proof fn lemma_movement_ids(es: Seq<(u64, Entity)>, evs: Seq<CollisionEvent>, dt: int, m: int)
    requires
        0 <= m <= es.len(),
    ensures
        forall|q: int|
            0 <= q < movements_spec(es, evs, dt, m).len() ==> exists|i: int|
                0 <= i < m && es[i].0 == (#[trigger] movements_spec(es, evs, dt, m)[q]).0,
    decreases m,
{
    if m > 0 {
        lemma_movement_ids(es, evs, dt, m - 1);
        let rest = movements_spec(es, evs, dt, m - 1);
        let all = movements_spec(es, evs, dt, m);
        assert forall|q: int| 0 <= q < all.len() implies exists|i: int|
            0 <= i < m && es[i].0 == (#[trigger] all[q]).0 by {
            if q < rest.len() {
                assert(all[q] == rest[q]);
                let i = choose|i: int| 0 <= i < m - 1 && es[i].0 == (#[trigger] rest[q]).0;
                assert(es[i].0 == all[q].0);
            } else {
                assert(es[m - 1].0 == all[q].0);
            }
        }
    }
}

/// Moves that name none of entry `j`'s id leave it as it is.
proof fn lemma_unmoved_entry(es: Seq<(u64, Entity)>, mv: Seq<(u64, i64, i64)>, k: int, j: int)
    requires
        0 <= j < es.len(),
        0 <= k <= mv.len(),
        forall|q: int| 0 <= q < k ==> (#[trigger] mv[q]).0 != es[j].0,
    ensures
        apply_moves(es, mv, k).len() == es.len(),
        apply_moves(es, mv, k)[j] == es[j],
    decreases k,
{
    if k > 0 {
        lemma_unmoved_entry(es, mv, k - 1, j);
        assert(mv[k - 1].0 != es[j].0);
    }
}

/// Entities added to the registry after the first `n` (such as the bullets a
/// tick's shots fire) are not moved in that tick: the movements computed over
/// the first `n` entries leave every later entry where it was spawned.
pub proof fn lemma_late_entries_stay(
    es: Seq<(u64, Entity)>,
    evs: Seq<CollisionEvent>,
    dt: int,
    n: int,
    j: int,
)
    requires
        0 <= n <= j < es.len(),
        forall|i: int| 0 <= i < n ==> (#[trigger] es[i]).0 != es[j].0,
    ensures
        apply_moves(es, movements_spec(es.take(n), evs, dt, n), movements_spec(es.take(n), evs, dt, n).len() as int)[j]
            == es[j],
{
    let mv = movements_spec(es.take(n), evs, dt, n);
    lemma_movement_ids(es.take(n), evs, dt, n);
    assert forall|q: int| 0 <= q < mv.len() implies (#[trigger] mv[q]).0 != es[j].0 by {
        let i = choose|i: int| 0 <= i < n && es.take(n)[i].0 == (#[trigger] mv[q]).0;
        assert(es.take(n)[i] == es[i]);
    }
    lemma_unmoved_entry(es, mv, mv.len() as int, j);
}

/// Moving entities keeps exactly the same ids alive.
proof fn lemma_moves_keep_ids(es: Seq<(u64, Entity)>, mv: Seq<(u64, i64, i64)>, k: int)
    ensures
        forall|t: u64| #[trigger] has_id(apply_moves(es, mv, k), t) == has_id(es, t),
    decreases k,
{
    if k > 0 {
        lemma_moves_keep_ids(es, mv, k - 1);
        let prev = apply_moves(es, mv, k - 1);
        let m = mv[k - 1];
        let next = apply_move(prev, m.0, m.1 as int, m.2 as int);
        assert forall|t: u64| #[trigger] has_id(next, t) == has_id(prev, t) by {
            if has_id(prev, t) {
                let w = choose|w: int| 0 <= w < prev.len() && #[trigger] prev[w].0 == t;
                assert(next[w].0 == t);
            }
            if has_id(next, t) {
                let w = choose|w: int| 0 <= w < next.len() && #[trigger] next[w].0 == t;
                assert(prev[w].0 == t);
            }
        }
    }
}

impl Game {
    pub open spec fn wf(&self) -> bool {
        self.state.wf() && self.transform.wf()
    }

    /// A game on a freshly generated level.
    pub fn new(transform: ScreenTransform) -> (game: Game)
        requires
            transform.wf(),
        ensures
            game.wf(),
            !game.pause,
            game.player_id == 1,
            game.state.entities@.len() == 40,
            game.state.entities@[0].0 == 1,
            game.state.entities@[0].1.variety == EntityType::Player,
            walled_border(game.state.terrain, 20),
            game.state.time == 0,
            game.transform == transform,
            game.frame_commands@.len() == 0,
            game.frame_collisions@.len() == 0,
            game.frame_movements@.len() == 0,
            game.frame_side_effects@.len() == 0,
    {
        let mut game = Game {
            pause: false,
            frame_commands: Vec::new(),
            frame_collisions: Vec::new(),
            frame_movements: Vec::new(),
            frame_side_effects: Vec::new(),
            player_id: 0,
            transform: transform,
            state: generate_level_drunk(),
        };
        game.initialize();
        proof {
            lemma_only_first_player(game.state.entities@, 0);
        }
        game
    }

    /// Takes the player's id from the world.
    pub fn initialize(&mut self)
        ensures
            final(self).player_id == last_player(old(self).state.entities@, old(self).player_id),
            final(self).pause == old(self).pause,
            final(self).state == old(self).state,
            final(self).transform == old(self).transform,
            final(self).frame_commands == old(self).frame_commands,
            final(self).frame_collisions == old(self).frame_collisions,
            final(self).frame_movements == old(self).frame_movements,
            final(self).frame_side_effects == old(self).frame_side_effects,
    {
        let n = self.state.entities.len();
        let mut i: usize = 0;
        let ghost start = self.player_id;
        while i < n
            invariant
                n == self.state.entities@.len(),
                i <= n,
                self.player_id == last_player(self.state.entities@.take(i as int), start),
                self.state == old(self).state,
                self.pause == old(self).pause,
                self.transform == old(self).transform,
                self.frame_commands == old(self).frame_commands,
                self.frame_collisions == old(self).frame_collisions,
                self.frame_movements == old(self).frame_movements,
                self.frame_side_effects == old(self).frame_side_effects,
            decreases n - i,
        {
            proof {
                assert(self.state.entities@.take(i + 1).drop_last() =~= self.state.entities@.take(i as int));
            }
            if self.state.entities[i].1.variety == EntityType::Player {
                self.player_id = self.state.entities[i].0;
            }
            i = i + 1;
        }
        proof {
            assert(self.state.entities@.take(n as int) =~= self.state.entities@);
        }
    }

    /// Empties the per-tick buffers.
    pub fn clear_arenas(&mut self)
        ensures
            final(self).frame_commands@.len() == 0,
            final(self).frame_collisions@.len() == 0,
            final(self).frame_movements@.len() == 0,
            final(self).frame_side_effects@.len() == 0,
            final(self).pause == old(self).pause,
            final(self).player_id == old(self).player_id,
            final(self).transform == old(self).transform,
            final(self).state == old(self).state,
    {
        self.frame_commands.clear();
        self.frame_collisions.clear();
        self.frame_movements.clear();
        self.frame_side_effects.clear();
    }

    /// One tick of `dt` microseconds, unless paused: AI commands, then all
    /// queued commands, then the clock; contacts against entities and
    /// terrain; melee and bullet effects; movement; the effects in order; and
    /// last the sweep of the dead. Entities that the commands spawn take part
    /// in contacts and movement from the next tick on. An effect that cannot
    /// be applied stops the tick with its error.
    pub fn update(&mut self, dt: u32) -> (r: Result<(), EffectError>)
        requires
            old(self).wf(),
            old(self).state.time + dt <= i64::MAX,
        ensures
            final(self).wf(),
            final(self).pause == old(self).pause,
            final(self).player_id == old(self).player_id,
            final(self).transform == old(self).transform,
            old(self).pause ==> r is Ok && *final(self) == *old(self),
            !old(self).pause ==> {
                let fc = final(self).frame_collisions@;
                &&& final(self).state.time == old(self).state.time + dt
                &&& final(self).state.dt == dt
                &&& final(self).state.terrain == old(self).state.terrain
                &&& final(self).frame_commands@ == old(self).frame_commands@ + ai_commands(
                    old(self).state.terrain,
                    old(self).state.entities@,
                    old(self).state.entities@.len() as int,
                )
                &&& exists|es: Seq<(u64, Entity)>, nx: u64|
                    {
                        let fe = final(self).frame_side_effects@;
                        let fm = final(self).frame_movements@;
                        let resolved = effects_applied(
                            apply_moves(es, fm, fm.len() as int),
                            nx,
                            fe,
                            fe.len() as int,
                        );
                        &&& #[trigger] commands_applied(
                            old(self).state.entities@,
                            old(self).state.next_id,
                            old(self).state.time as int,
                            final(self).frame_commands@,
                            final(self).frame_commands@.len() as int,
                            es,
                            nx,
                        )
                        &&& old(self).state.entities@.len() <= es.len()
                        &&& fc == old(self).frame_collisions@ + entity_events(
                            es.take(old(self).state.entities@.len() as int),
                            dt as int,
                            old(self).state.entities@.len() as int,
                        ) + terrain_events(
                            old(self).state.terrain,
                            es.take(old(self).state.entities@.len() as int),
                            dt as int,
                            old(self).state.entities@.len() as int,
                        )
                        &&& fe == old(self).frame_side_effects@ + melee_effects(
                            es,
                            fc,
                            dt as int,
                            fc.len() as int,
                        ) + bullet_effects(es, fc, fc.len() as int)
                        &&& fm == old(self).frame_movements@ + movements_spec(
                            es.take(old(self).state.entities@.len() as int),
                            fc,
                            dt as int,
                            old(self).state.entities@.len() as int,
                        )
                        &&& (r is Ok <==> resolved is Some)
                        &&& r is Ok ==> final(self).state.entities@ == survivors(resolved.unwrap().0)
                            && final(self).state.next_id == resolved.unwrap().1
                        &&& old(self).frame_side_effects@.len() == 0 && nx + spawn_total(
                            fe,
                            fe.len() as int,
                        ) <= u64::MAX ==> r is Ok
                    }
                &&& old(self).frame_side_effects@.len() == 0 ==> (r is Err ==> r == Err::<(), EffectError>(
                    EffectError::IdsExhausted,
                ))
                &&& r is Ok ==> forall|k: int|
                    0 <= k < final(self).state.entities@.len()
                        ==> (#[trigger] final(self).state.entities@[k]).1.health > 0
            },
    {
        if self.pause {
            return Ok(());
        }
        self.state.dt = dt;
        let n0 = self.state.entities.len();

        compute_ai_commands(&self.state, &mut self.frame_commands);

        let n = self.frame_commands.len();
        let mut i: usize = 0;
        let ghost mut trace: Seq<(Seq<(u64, Entity)>, u64)> = seq![(self.state.entities@, self.state.next_id)];
        while i < n
            invariant
                n == self.frame_commands@.len(),
                i <= n,
                !self.pause,
                n0 == old(self).state.entities@.len(),
                n0 <= self.state.entities@.len(),
                self.wf(),
                self.state.dt == dt,
                self.state.time == old(self).state.time,
                self.state.terrain == old(self).state.terrain,
                self.pause == old(self).pause,
                self.player_id == old(self).player_id,
                self.transform == old(self).transform,
                self.frame_collisions == old(self).frame_collisions,
                self.frame_movements == old(self).frame_movements,
                self.frame_side_effects == old(self).frame_side_effects,
                self.frame_commands@ == old(self).frame_commands@ + ai_commands(
                    old(self).state.terrain,
                    old(self).state.entities@,
                    old(self).state.entities@.len() as int,
                ),
                command_trace(old(self).state.time as int, self.frame_commands@, trace),
                trace.len() == i + 1,
                trace[0] == (old(self).state.entities@, old(self).state.next_id),
                trace[i as int] == (self.state.entities@, self.state.next_id),
            decreases n - i,
        {
            let command = self.frame_commands[i];
            apply_command(&mut self.state, command);
            proof {
                let ghost t2 = trace.push((self.state.entities@, self.state.next_id));
                assert forall|j: int| 0 <= j < t2.len() - 1 implies #[trigger] command_step(
                    t2[j].0,
                    t2[j].1,
                    old(self).state.time as int,
                    self.frame_commands@[j],
                    t2[j + 1].0,
                    t2[j + 1].1,
                ) by {
                    if j < i {
                        assert(t2[j] == trace[j] && t2[j + 1] == trace[j + 1]);
                    }
                }
                trace = t2;
            }
            i = i + 1;
        }

        self.state.time = self.state.time + dt as i64;
        let ghost es = self.state.entities@;
        let ghost nx = self.state.next_id;
        proof {
            assert(command_trace(old(self).state.time as int, self.frame_commands@, trace));
        }

        // entities spawned by the commands above join in from the next tick
        let live = slice_subrange(self.state.entities.as_slice(), 0, n0);
        proof {
            assert(live@ =~= es.take(n0 as int));
        }
        simulate_entity_entity_collisions(live, &mut self.frame_collisions, dt);
        simulate_entity_terrain_collisions(live, &self.state.terrain, &mut self.frame_collisions, dt);

        handle_melee_damage(&self.state, &self.frame_collisions, &mut self.frame_side_effects);
        handle_bullet_impacts(&self.state, &self.frame_collisions, &mut self.frame_side_effects);
        compute_movement(live, &self.frame_collisions, &mut self.frame_movements, dt);
        self.state.apply_movements(&self.frame_movements);
        let ghost fc = self.frame_collisions@;
        let ghost fe = self.frame_side_effects@;
        let ghost fm = self.frame_movements@;
        let ghost fcmd = self.frame_commands@;
        let ghost moved = self.state.entities@;

        let m = self.frame_side_effects.len();
        proof {
            if old(self).frame_side_effects@.len() == 0 {
                lemma_produced_targets_alive(es, fc, dt as int, fc.len() as int);
                lemma_targets_concat(es, melee_effects(es, fc, dt as int, fc.len() as int), bullet_effects(es, fc, fc.len() as int));
                lemma_moves_keep_ids(es, fm, fm.len() as int);
                assert(fe =~= melee_effects(es, fc, dt as int, fc.len() as int) + bullet_effects(es, fc, fc.len() as int));
                assert forall|j: int| 0 <= j < m implies damage_target_alive(self.state.entities@, #[trigger] fe[j]) by {
                    assert(damage_target_alive(es, fe[j]));
                }
            }
        }
        let mut k: usize = 0;
        while k < m
            invariant
                m == self.frame_side_effects@.len(),
                k <= m,
                !self.pause,
                self.frame_collisions@ == fc,
                self.frame_side_effects@ == fe,
                self.frame_movements@ == fm,
                self.frame_commands@ == fcmd,
                n0 == old(self).state.entities@.len(),
                n0 <= es.len(),
                fc == old(self).frame_collisions@ + entity_events(es.take(n0 as int), dt as int, n0 as int)
                    + terrain_events(old(self).state.terrain, es.take(n0 as int), dt as int, n0 as int),
                fe == old(self).frame_side_effects@ + melee_effects(es, fc, dt as int, fc.len() as int)
                    + bullet_effects(es, fc, fc.len() as int),
                fm == old(self).frame_movements@ + movements_spec(es.take(n0 as int), fc, dt as int, n0 as int),
                fcmd == old(self).frame_commands@ + ai_commands(
                    old(self).state.terrain,
                    old(self).state.entities@,
                    old(self).state.entities@.len() as int,
                ),
                old(self).frame_side_effects@.len() == 0 ==> forall|j: int|
                    k <= j < m ==> damage_target_alive(self.state.entities@, #[trigger] fe[j]),
                commands_applied(
                    old(self).state.entities@,
                    old(self).state.next_id,
                    old(self).state.time as int,
                    fcmd,
                    fcmd.len() as int,
                    es,
                    nx,
                ),
                moved == apply_moves(es, fm, fm.len() as int),
                effects_applied(moved, nx, fe, k as int) == Some((self.state.entities@, self.state.next_id)),
                old(self).frame_side_effects@.len() == 0 && nx + spawn_total(fe, m as int) <= u64::MAX
                    ==> self.state.next_id + spawn_total(fe, m as int) - spawn_total(fe, k as int)
                    <= u64::MAX,
                self.wf(),
                self.state.dt == dt,
                self.state.time == old(self).state.time + dt,
                self.state.terrain == old(self).state.terrain,
                self.pause == old(self).pause,
                self.player_id == old(self).player_id,
                self.transform == old(self).transform,
            decreases m - k,
        {
            let effect = self.frame_side_effects[k];
            let ghost alive_before = self.state.entities@;
            let ghost next_before = self.state.next_id;
            proof {
                lemma_spawn_total_grows(fe, k + 1, m as int);
                assert(effects_applied(moved, nx, fe, (k + 1) - 1) == Some((alive_before, next_before)));
            }
            match self.state.resolve_side_effect(effect) {
                Ok(()) => {
                    proof {
                        if old(self).frame_side_effects@.len() == 0 {
                            assert forall|j: int| k + 1 <= j < m implies damage_target_alive(
                                self.state.entities@,
                                #[trigger] fe[j],
                            ) by {
                                assert(damage_target_alive(alive_before, fe[j]));
                                if let SideEffect::Damage(_, t) = fe[j] {
                                    assert(has_id(alive_before, t));
                                }
                            }
                        }
                    }
                },
                Err(e) => {
                    proof {
                        if old(self).frame_side_effects@.len() == 0 {
                            assert(damage_target_alive(alive_before, fe[k as int]));
                        }
                        lemma_effects_stuck(moved, nx, fe, k + 1, m as int);
                    }
                    return Err(e);
                },
            }
            k = k + 1;
        }

        let ghost pre_sweep = self.state.entities@;
        self.state.sweep_dead();
        proof {
            assert(effects_applied(moved, nx, fe, fe.len() as int) == Some((pre_sweep, self.state.next_id)));
            assert(commands_applied(
                old(self).state.entities@,
                old(self).state.next_id,
                old(self).state.time as int,
                self.frame_commands@,
                self.frame_commands@.len() as int,
                es,
                nx,
            ));
        }
        Ok(())
    }
}

/// The walking direction that the four direction keys ask for (left wins over
/// right, up over down), before normalising.
pub open spec fn walk_vector(left: bool, right: bool, up: bool, down: bool) -> Vec2 {
    Vec2 {
        x: if left {
            (-UNIT) as i32
        } else if right {
            UNIT
        } else {
            0
        },
        y: if up {
            (-UNIT) as i32
        } else if down {
            UNIT
        } else {
            0
        },
    }
}

/// The point three tenths of the way from `a` to `b`.
pub open spec fn camera_focus(a: Vec2, b: Vec2) -> Vec2 {
    Vec2 {
        x: clamp32(a.x + ((b.x - a.x) * 3) / 10) as i32,
        y: clamp32(a.y + ((b.y - a.y) * 3) / 10) as i32,
    }
}

fn camera_focus_exec(a: Vec2, b: Vec2) -> (r: Vec2)
    ensures
        r == camera_focus(a, b),
{
    let dx = div_floor((b.x as i128 - a.x as i128) * 3, 10);
    let dy = div_floor((b.y as i128 - a.y as i128) * 3, 10);
    Vec2 { x: clamp_to_i32(a.x as i128 + dx), y: clamp_to_i32(a.y as i128 + dy) }
}

impl Game {
    /// Queues a command for this tick.
    pub fn push_command(&mut self, command: Command)
        ensures
            final(self).frame_commands@ == old(self).frame_commands@.push(command),
            final(self).state == old(self).state,
            final(self).player_id == old(self).player_id,
            final(self).pause == old(self).pause,
            final(self).transform == old(self).transform,
    {
        self.frame_commands.push(command);
    }

    /// Freezes or resumes the whole tick.
    pub fn toggle_pause(&mut self)
        ensures
            final(self).pause == !old(self).pause,
            final(self).state == old(self).state,
            final(self).player_id == old(self).player_id,
            final(self).transform == old(self).transform,
            final(self).frame_commands == old(self).frame_commands,
    {
        self.pause = !self.pause;
    }

    /// Queues the player's walk from the state of the four direction keys; no
    /// key held stops the player.
    pub fn walk_input(&mut self, left: bool, right: bool, up: bool, down: bool)
        ensures
            final(self).frame_commands@ == old(self).frame_commands@.push(
                Command::Walk(old(self).player_id, normalize_spec(walk_vector(left, right, up, down))),
            ),
            final(self).state == old(self).state,
            final(self).player_id == old(self).player_id,
            final(self).pause == old(self).pause,
            final(self).transform == old(self).transform,
    {
        let x: i32 = if left {
            -UNIT
        } else if right {
            UNIT
        } else {
            0
        };
        let y: i32 = if up {
            -UNIT
        } else if down {
            UNIT
        } else {
            0
        };
        let dir = normalize(Vec2 { x, y });
        self.frame_commands.push(Command::Walk(self.player_id, dir));
    }

    /// Points the player at the world point under pixel `(mouse_x, mouse_y)`
    /// (a point at its very centre leaves the look direction as it was), moves
    /// the camera three tenths of the way from the player toward that point,
    /// and, with the button held and an automatic weapon, queues a shot.
    pub fn aim_input(&mut self, mouse_x: u32, mouse_y: u32, held: bool)
        requires
            old(self).wf(),
        ensures
            final(self).wf(),
            final(self).player_id == old(self).player_id,
            final(self).pause == old(self).pause,
            final(self).state.terrain == old(self).state.terrain,
            final(self).state.next_id == old(self).state.next_id,
            final(self).state.time == old(self).state.time,
            final(self).state.dt == old(self).state.dt,
            final(self).transform.px == old(self).transform.px,
            match lookup(old(self).state.entities@, old(self).player_id) {
                Some(p) => {
                    let aim = old(self).transform.pick_world_spec(mouse_x as int, mouse_y as int);
                    let c = p.aabb.center_spec();
                    let dir = normalize_spec(offset_spec(c, aim));
                    &&& final(self).transform.offset == old(self).transform.centered_on(camera_focus(c, aim)).offset
                    &&& final(self).state.entities@ == if dir.x == 0 && dir.y == 0 {
                        old(self).state.entities@
                    } else {
                        with_look(old(self).state.entities@, old(self).player_id, dir)
                    }
                    &&& final(self).frame_commands@ == if held && p.gun.automatic {
                        old(self).frame_commands@.push(Command::Shoot(old(self).player_id))
                    } else {
                        old(self).frame_commands@
                    }
                },
                None => {
                    &&& final(self).transform == old(self).transform
                    &&& final(self).state.entities@ == old(self).state.entities@
                    &&& final(self).frame_commands@ == old(self).frame_commands@
                },
            },
    {
        let aim_pos = self.transform.pick_world(mouse_x, mouse_y);
        let found = self.state.find_entity(self.player_id);
        if found.is_none() {
            return;
        }
        let i = found.unwrap();
        let ghost before = self.state.entities@;
        proof {
            let j = choose|j: int| 0 <= j < before.len() && #[trigger] before[j].0 == self.player_id;
            assert(before[i as int].0 == self.player_id);
            assert(i == j);
        }
        let (key, player) = self.state.entities[i];
        let c = player.aabb.center();
        self.transform.translate_center(camera_focus_exec(c, aim_pos));
        let dir = normalize(crate::ai::offset_exec(c, aim_pos));
        if dir.x != 0 || dir.y != 0 {
            let mut p = player;
            p.look_direction = dir;
            self.state.entities.set(i, (key, p));
            proof {
                assert(self.state.entities@ =~= with_look(before, self.player_id, dir));
                assert forall|j: int| 0 <= j < self.state.entities@.len() implies (
                #[trigger] self.state.entities@[j]).0 == before[j].0 && self.state.entities@[j].1.wf() by {}
            }
        }
        if held && player.gun.automatic {
            self.frame_commands.push(Command::Shoot(self.player_id));
        }
    }

    /// Gives the player a new weapon.
    pub fn equip(&mut self, gun: Gun)
        requires
            old(self).wf(),
            gun.wf(),
        ensures
            final(self).wf(),
            final(self).state.entities@ == with_gun(old(self).state.entities@, old(self).player_id, gun),
            final(self).state.terrain == old(self).state.terrain,
            final(self).state.next_id == old(self).state.next_id,
            final(self).state.time == old(self).state.time,
            final(self).state.dt == old(self).state.dt,
            final(self).player_id == old(self).player_id,
            final(self).pause == old(self).pause,
            final(self).transform == old(self).transform,
            final(self).frame_commands == old(self).frame_commands,
    {
        let ghost before = self.state.entities@;
        match self.state.find_entity(self.player_id) {
            Some(i) => {
                let (key, player) = self.state.entities[i];
                let mut p = player;
                p.gun = gun;
                self.state.entities.set(i, (key, p));
                proof {
                    assert(self.state.entities@ =~= with_gun(before, self.player_id, gun));
                    assert forall|j: int| 0 <= j < self.state.entities@.len() implies (
                    #[trigger] self.state.entities@[j]).0 == before[j].0 && self.state.entities@[j].1.wf() by {}
                }
            },
            None => {
                proof {
                    assert(self.state.entities@ =~= with_gun(before, self.player_id, gun));
                }
            },
        }
    }

    /// Starts over on a freshly generated level.
    pub fn reset(&mut self)
        requires
            old(self).wf(),
        ensures
            final(self).wf(),
            final(self).player_id == 1,
            final(self).pause == old(self).pause,
            final(self).transform == old(self).transform,
            final(self).state.time == 0,
            final(self).state.terrain.w == 20,
            final(self).state.terrain.h == 20,
            walled_border(final(self).state.terrain, 20),
            final(self).state.entities@.len() == 40,
            final(self).state.next_id == 41,
            final(self).state.entities@[0] == (1u64, final(self).state.entities@[0].1),
            final(self).state.entities@[0].1.variety == EntityType::Player,
            forall|k: int|
                1 <= k < 40 ==> {
                    let v = (#[trigger] final(self).state.entities@[k]).1.variety;
                    v == EntityType::Enemy || v == EntityType::Crate || v == EntityType::Retaliator
                },
            forall|k: int|
                0 <= k < 40 ==> stands_on_ground(final(self).state.terrain, (#[trigger] final(self).state.entities@[k]).1),
    {
        self.state = generate_level_drunk();
        proof {
            lemma_only_first_player(self.state.entities@, self.player_id);
        }
        self.initialize();
    }
}

} // verus!
