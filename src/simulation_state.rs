use vstd::prelude::*;

use crate::grid::{Grid, Tile, lemma_cell_index};
use crate::geometry::Rect;
use crate::entity::{Entity, EntityType};
use vstd::arithmetic::div_mod::lemma_fundamental_div_mod_converse;
use crate::collision::moved_rect;
use crate::chance::random_in;

verus! {

/// The world: terrain, the live entities keyed by id, and the clock.
///
/// Ids are handed out by a counter that starts at 1 and only grows, so an id
/// is never reused; 0 names no entity (a `source` of 0 means "fired by
/// nobody"). `time` and `dt` are in microseconds.
pub struct SimulationState {
    pub time: i64,
    pub dt: u32,
    pub terrain: Grid,
    pub entities: Vec<(u64, Entity)>,
    pub next_id: u64,
}

/// Whether no two entries of `es` share an id.
pub open spec fn ids_unique(es: Seq<(u64, Entity)>) -> bool {
    forall|i: int, j: int| 0 <= i < es.len() && 0 <= j < es.len() && i != j ==> #[trigger] es[i].0 != #[trigger] es[j].0
}

/// Whether some entry of `es` has id `id`.
pub open spec fn has_id(es: Seq<(u64, Entity)>, id: u64) -> bool {
    exists|i: int| 0 <= i < es.len() && #[trigger] es[i].0 == id
}

/// The entity with id `id`, if it is alive.
pub open spec fn lookup(es: Seq<(u64, Entity)>, id: u64) -> Option<Entity> {
    if has_id(es, id) {
        Some(es[choose|i: int| 0 <= i < es.len() && #[trigger] es[i].0 == id].1)
    } else {
        None
    }
}

/// `es` with entity `id`, if present, moved by `(dx, dy)`.
pub open spec fn apply_move(es: Seq<(u64, Entity)>, id: u64, dx: int, dy: int) -> Seq<(u64, Entity)> {
    es.map_values(
        |p: (u64, Entity)|
            if p.0 == id {
                (p.0, Entity { aabb: moved_rect(p.1.aabb, dx, dy), ..p.1 })
            } else {
                p
            },
    )
}

/// `es` after the first `k` moves of `mv`, in order.
pub open spec fn apply_moves(es: Seq<(u64, Entity)>, mv: Seq<(u64, i64, i64)>, k: int) -> Seq<
    (u64, Entity),
>
    decreases k,
{
    if k <= 0 {
        es
    } else {
        let m = mv[k - 1];
        apply_move(apply_moves(es, mv, k - 1), m.0, m.1 as int, m.2 as int)
    }
}

/// The entries of `es` still alive.
pub open spec fn survivors(es: Seq<(u64, Entity)>) -> Seq<(u64, Entity)> {
    es.filter(|p: (u64, Entity)| p.1.health > 0)
}

impl SimulationState {
    pub open spec fn wf(&self) -> bool {
        &&& self.terrain.wf()
        &&& self.next_id >= 1
        &&& ids_unique(self.entities@)
        &&& forall|i: int|
            0 <= i < self.entities@.len() ==> 0 < (#[trigger] self.entities@[i]).0 < self.next_id
                && self.entities@[i].1.wf()
    }

    /// The index of entity `id`, if it is alive.
    pub fn find_entity(&self, id: u64) -> (r: Option<usize>)
        ensures
            r matches Some(i) ==> i < self.entities@.len() && self.entities@[i as int].0 == id,
            r is None ==> !has_id(self.entities@, id),
    {
        let n = self.entities.len();
        let mut i: usize = 0;
        while i < n
            invariant
                n == self.entities@.len(),
                i <= n,
                forall|j: int| 0 <= j < i ==> (#[trigger] self.entities@[j]).0 != id,
            decreases n - i,
        {
            if self.entities[i].0 == id {
                return Some(i);
            }
            i = i + 1;
        }
        None
    }

    /// The entity with id `id`, if it is alive.
    pub fn get_entity(&self, id: u64) -> (r: Option<Entity>)
        requires
            ids_unique(self.entities@),
        ensures
            r == lookup(self.entities@, id),
    {
        match self.find_entity(id) {
            Some(i) => {
                proof {
                    let es = self.entities@;
                    let j = choose|j: int| 0 <= j < es.len() && #[trigger] es[j].0 == id;
                    assert(es[i as int].0 == id);
                    assert(i == j);
                }
                Some(self.entities[i].1)
            },
            None => None,
        }
    }

    /// Adds `e` under a fresh id; `None`, with nothing changed, once ids run out.
    pub fn add_entity(&mut self, e: Entity) -> (r: Option<u64>)
        requires
            old(self).wf(),
            e.wf(),
        ensures
            final(self).wf(),
            final(self).terrain == old(self).terrain,
            final(self).time == old(self).time,
            final(self).dt == old(self).dt,
            old(self).next_id < u64::MAX ==> {
                &&& r == Some(old(self).next_id)
                &&& final(self).entities@ == old(self).entities@.push((old(self).next_id, e))
                &&& final(self).next_id == old(self).next_id + 1
            },
            old(self).next_id == u64::MAX ==> r is None && *final(self) == *old(self),
    {
        if self.next_id == u64::MAX {
            return None;
        }
        let id = self.next_id;
        self.entities.push((id, e));
        self.next_id = id + 1;
        proof {
            let es = self.entities@;
            assert forall|i: int| 0 <= i < es.len() - 1 implies es[i] == old(self).entities@[i] by {}
        }
        Some(id)
    }

    /// Moves each listed entity, in order, by its displacement.
    pub fn apply_movements(&mut self, movements: &Vec<(u64, i64, i64)>)
        requires
            old(self).wf(),
        ensures
            final(self).wf(),
            final(self).entities@ == apply_moves(old(self).entities@, movements@, movements@.len() as int),
            final(self).terrain == old(self).terrain,
            final(self).next_id == old(self).next_id,
            final(self).time == old(self).time,
            final(self).dt == old(self).dt,
    {
        let n = movements.len();
        let mut k: usize = 0;
        while k < n
            invariant
                n == movements@.len(),
                k <= n,
                self.wf(),
                self.entities@ == apply_moves(old(self).entities@, movements@, k as int),
                self.terrain == old(self).terrain,
                self.next_id == old(self).next_id,
                self.time == old(self).time,
                self.dt == old(self).dt,
            decreases n - k,
        {
            let (id, dx, dy) = movements[k];
            let ghost before = self.entities@;
            match self.find_entity(id) {
                Some(i) => {
                    let (key, e) = self.entities[i];
                    let mut moved = e;
                    moved.aabb.x = crate::geometry::clamp_to_i32(e.aabb.x as i128 + dx as i128);
                    moved.aabb.y = crate::geometry::clamp_to_i32(e.aabb.y as i128 + dy as i128);
                    self.entities.set(i, (key, moved));
                    proof {
                        assert(self.entities@ =~= apply_move(before, id, dx as int, dy as int));
                    }
                },
                None => {
                    proof {
                        assert(self.entities@ =~= apply_move(before, id, dx as int, dy as int));
                    }
                },
            }
            k = k + 1;
        }
    }

    /// Removes every entity whose health has run out.
    pub fn sweep_dead(&mut self)
        requires
            old(self).wf(),
        ensures
            final(self).wf(),
            final(self).entities@ == survivors(old(self).entities@),
            forall|k: int|
                0 <= k < final(self).entities@.len() ==> (#[trigger] final(self).entities@[k]).1.health > 0,
            final(self).terrain == old(self).terrain,
            final(self).next_id == old(self).next_id,
            final(self).time == old(self).time,
            final(self).dt == old(self).dt,
    {
        let mut kept: Vec<(u64, Entity)> = Vec::new();
        let n = self.entities.len();
        let mut i: usize = 0;
        while i < n
            invariant
                n == self.entities@.len(),
                i <= n,
                self.wf(),
                kept@ == survivors(self.entities@.take(i as int)),
                forall|j: int| 0 <= j < kept@.len() ==> (#[trigger] kept@[j]).1.health > 0,
                forall|j: int|
                    0 <= j < kept@.len() ==> self.entities@.take(i as int).contains(#[trigger] kept@[j]),
            decreases n - i,
        {
            let p = self.entities[i];
            proof {
                reveal(Seq::filter);
                assert(self.entities@.take(i + 1).drop_last() =~= self.entities@.take(i as int));
            }
            if p.1.health > 0 {
                kept.push(p);
            }
            proof {
                assert forall|j: int| 0 <= j < kept@.len() implies self.entities@.take(i + 1).contains(
                    #[trigger] kept@[j],
                ) by {
                    if j < kept@.len() - 1 || p.1.health <= 0 {
                        let w = choose|w: int| 0 <= w < i && self.entities@.take(i as int)[w] == kept@[j];
                        assert(self.entities@.take(i + 1)[w] == kept@[j]);
                    } else {
                        assert(self.entities@.take(i + 1)[i as int] == kept@[j]);
                    }
                }
            }
            i = i + 1;
        }
        proof {
            assert(self.entities@.take(n as int) =~= self.entities@);
            let es = self.entities@;
            assert forall|a: int, b: int|
                0 <= a < kept@.len() && 0 <= b < kept@.len() && a != b implies #[trigger] kept@[a].0
                != #[trigger] kept@[b].0 by {
                es.lemma_filter_len(|p: (u64, Entity)| p.1.health > 0);
                kept_distinct(es, a, b);
            }
        }
        self.entities = kept;
    }
}

/// Distinct entries of the survivors of an id-unique registry have distinct ids.
proof fn kept_distinct(es: Seq<(u64, Entity)>, a: int, b: int)
    requires
        ids_unique(es),
        0 <= a < survivors(es).len(),
        0 <= b < survivors(es).len(),
        a != b,
    ensures
        survivors(es)[a].0 != survivors(es)[b].0,
    decreases es.len(),
{
    reveal(Seq::filter);
    let rest = es.drop_last();
    let s = survivors(rest);
    assert(ids_unique(rest)) by {
        assert forall|i: int, j: int|
            0 <= i < rest.len() && 0 <= j < rest.len() && i != j implies #[trigger] rest[i].0
            != #[trigger] rest[j].0 by {
            assert(rest[i] == es[i] && rest[j] == es[j]);
        }
    }
    if es.last().1.health > 0 && (a == s.len() || b == s.len()) {
        let other = if a == s.len() { b } else { a };
        assert(survivors(es)[other] == s[other]);
        rest.lemma_filter_contains_rev(|p: (u64, Entity)| p.1.health > 0, s[other]);
        assert(s.contains(s[other]));
        let w = choose|w: int| 0 <= w < rest.len() && rest[w] == s[other];
        assert(es[w] == s[other]);
        assert(es[es.len() - 1] == es.last());
    } else {
        if es.last().1.health > 0 {
            assert(survivors(es)[a] == s[a] && survivors(es)[b] == s[b]);
        }
        kept_distinct(rest, a, b);
    }
}

/// Side of a cell of the generated levels.
pub const CELL_SIZE: i32 = 200_000;

/// Whether every cell on the edge of the `side` by `side` grid `g` is a wall.
pub open spec fn walled_border(g: Grid, side: int) -> bool {
    forall|x: int, y: int|
        0 <= x < side && 0 <= y < side && (x == 0 || y == 0 || x == side - 1 || y == side - 1)
            ==> #[trigger] g.tile_at(x, y) == Some(Tile::Wall)
}

proof fn lemma_index_injective(x: int, y: int, a: int, b: int, w: int)
    requires
        0 <= x < w,
        0 <= a < w,
        0 <= y,
        0 <= b,
        x + y * w == a + b * w,
    ensures
        x == a,
        y == b,
{
    lemma_fundamental_div_mod_converse(x + y * w, w, y, x);
    lemma_fundamental_div_mod_converse(a + b * w, w, b, a);
}

/// Turns an inner cell of a walled square grid to ground; the border stays walled.
fn dig(g: &mut Grid, x: i32, y: i32, side: i32)
    requires
        old(g).wf(),
        old(g).w == side,
        old(g).h == side,
        1 <= x < side - 1,
        1 <= y < side - 1,
        walled_border(*old(g), side as int),
    ensures
        final(g).wf(),
        final(g).w == side,
        final(g).h == side,
        final(g).elem_w == old(g).elem_w,
        final(g).elem_h == old(g).elem_h,
        walled_border(*final(g), side as int),
        final(g).tile_at(x as int, y as int) == Some(Tile::Ground),
        forall|a: int, b: int|
            old(g).tile_at(a, b) == Some(Tile::Ground) ==> #[trigger] final(g).tile_at(a, b) == Some(
                Tile::Ground,
            ),
{
    g.set_2d(x, y, Tile::Ground);
    proof {
        lemma_cell_index(x as int, y as int, side as int, side as int);
        assert forall|a: int, b: int|
            old(g).tile_at(a, b) == Some(Tile::Ground) implies #[trigger] g.tile_at(a, b) == Some(
            Tile::Ground,
        ) by {
            lemma_cell_index(a, b, side as int, side as int);
        }
        assert forall|bx: int, by: int|
            0 <= bx < side && 0 <= by < side && (bx == 0 || by == 0 || bx == side - 1 || by == side
                - 1) implies #[trigger] g.tile_at(bx, by) == Some(Tile::Wall) by {
            assert(old(g).tile_at(bx, by) == Some(Tile::Wall));
            lemma_cell_index(bx, by, side as int, side as int);
            if bx + by * side == x + y * side {
                lemma_index_injective(bx, by, x as int, y as int, side as int);
            }
        }
    }
}

/// A 10 by 10 arena of walls.
fn generate_level() -> (g: Grid)
    ensures
        g.wf(),
        g.w == 10,
        g.h == 10,
        g.elem_w == CELL_SIZE,
        g.elem_h == CELL_SIZE,
        forall|i: int| 0 <= i < g.tiles@.len() ==> g.tiles@[i] == Tile::Wall,
{
    let w: i32 = 10;
    let h: i32 = 10;
    let mut g = Grid::new(w, h, CELL_SIZE, CELL_SIZE);
    let mut i: i32 = 0;
    while i < h
        invariant
            0 <= i <= h,
            w == 10,
            h == 10,
            g.wf(),
            g.w == w,
            g.h == h,
            g.elem_w == CELL_SIZE,
            g.elem_h == CELL_SIZE,
            forall|k: int| 0 <= k < g.tiles@.len() ==> g.tiles@[k] == Tile::Wall,
        decreases h - i,
    {
        g.set_2d(i, 0, Tile::Wall);
        g.set_2d(0, i, Tile::Wall);
        g.set_2d(i, h - 1, Tile::Wall);
        g.set_2d(w - 1, i, Tile::Wall);
        i = i + 1;
    }
    g
}

/// A random walker that digs ground out of the rock.
struct Walker {
    pos: (i32, i32),
    dir: i32,
    alive: bool,
}

/// The cell step of heading `dir`: right, left, up, down.
fn dir_step(dir: i32) -> (r: (i32, i32))
    ensures
        -1 <= r.0 <= 1,
        -1 <= r.1 <= 1,
{
    if dir == 0 {
        (1, 0)
    } else if dir == 1 {
        (-1, 0)
    } else if dir == 2 {
        (0, -1)
    } else {
        (0, 1)
    }
}

/// A random level: forty walkers dig tunnels through a 20 by 20 block of rock;
/// the first walker's last cell holds the player and every other walker's an
/// enemy, a crate or a retaliator. The border is never dug.
pub fn generate_level_drunk() -> (state: SimulationState)
    ensures
        state.wf(),
        state.time == 0,
        state.dt == 0,
        state.terrain.w == 20,
        state.terrain.h == 20,
        state.terrain.elem_w == CELL_SIZE,
        state.terrain.elem_h == CELL_SIZE,
        walled_border(state.terrain, 20),
        forall|k: int| 0 <= k < state.entities@.len() ==> stands_on_ground(state.terrain, (#[trigger] state.entities@[k]).1),
        state.entities@.len() == 40,
        state.next_id == 41,
        forall|k: int| 0 <= k < 40 ==> (#[trigger] state.entities@[k]).0 == k + 1,
        state.entities@[0].1.variety == EntityType::Player,
        forall|k: int|
            1 <= k < 40 ==> {
                let v = (#[trigger] state.entities@[k]).1.variety;
                v == EntityType::Enemy || v == EntityType::Crate || v == EntityType::Retaliator
            },
{
    let side_length: i32 = 20;
    let num_walkers: usize = 40;
    let walk_iters: u32 = 10;

    let mut g = Grid::new(side_length, side_length, CELL_SIZE, CELL_SIZE);
    proof {
        assert forall|x: int, y: int|
            0 <= x < 20 && 0 <= y < 20 && (x == 0 || y == 0 || x == 19 || y == 19) implies #[trigger] g.tile_at(x, y)
            == Some(Tile::Wall) by {
            assert(0 <= x + y * 20 < 400) by (nonlinear_arith)
                requires
                    0 <= x < 20,
                    0 <= y < 20,
            ;
        }
    }
    let mut walkers: Vec<Walker> = Vec::new();
    let mut i: usize = 0;
    while i < num_walkers
        invariant
            i <= num_walkers,
            side_length == 20,
            walkers@.len() == i,
            forall|k: int|
                0 <= k < walkers@.len() ==> 1 <= (#[trigger] walkers@[k]).pos.0 <= 18 && 1
                    <= walkers@[k].pos.1 <= 18 && 0 <= walkers@[k].dir <= 3,
        decreases num_walkers - i,
    {
        let px = random_in(1, side_length - 2);
        let py = random_in(1, side_length - 2);
        let dir = random_in(0, 3);
        walkers.push(Walker { pos: (px, py), dir, alive: true });
        i = i + 1;
    }

    let mut it: u32 = 1;
    while it < walk_iters
        invariant
            1 <= it <= walk_iters,
            side_length == 20,
            num_walkers == 40,
            g.wf(),
            g.w == 20,
            g.h == 20,
            g.elem_w == CELL_SIZE,
            g.elem_h == CELL_SIZE,
            walled_border(g, 20),
            walkers@.len() == num_walkers,
            forall|k: int|
                0 <= k < walkers@.len() ==> 1 <= (#[trigger] walkers@[k]).pos.0 <= 18 && 1
                    <= walkers@[k].pos.1 <= 18 && 0 <= walkers@[k].dir <= 3,
        decreases walk_iters - it,
    {
        let mut k: usize = 0;
        while k < num_walkers
            invariant
                k <= num_walkers,
                side_length == 20,
                num_walkers == 40,
                g.wf(),
                g.w == 20,
                g.h == 20,
                g.elem_w == CELL_SIZE,
                g.elem_h == CELL_SIZE,
                walled_border(g, 20),
                walkers@.len() == num_walkers,
                forall|q: int|
                    0 <= q < walkers@.len() ==> 1 <= (#[trigger] walkers@[q]).pos.0 <= 18 && 1
                        <= walkers@[q].pos.1 <= 18 && 0 <= walkers@[q].dir <= 3,
            decreases num_walkers - k,
        {
            let pos = walkers[k].pos;
            let mut dir = walkers[k].dir;
            let mut alive = walkers[k].alive;
            dig(&mut g, pos.0, pos.1, side_length);
            let mut new_pos = pos;
            if alive {
                if random_in(0, 9) < 3 {
                    let mut idx = random_in(0, 2);
                    if idx >= dir {
                        idx = idx + 1;
                    }
                    dir = idx;
                }
                let step = dir_step(dir);
                let candidate = (pos.0 + step.0, pos.1 + step.1);
                if candidate.0 <= 0 || candidate.1 <= 0 || candidate.0 >= g.w - 1 || candidate.1
                    >= g.h - 1 {
                    alive = false;
                } else {
                    new_pos = candidate;
                }
            }
            walkers.set(k, Walker { pos: new_pos, dir, alive });
            k = k + 1;
        }
        it = it + 1;
    }

    let mut k: usize = 0;
    while k < num_walkers
        invariant
            k <= num_walkers,
            side_length == 20,
            num_walkers == 40,
            g.wf(),
            g.w == 20,
            g.h == 20,
            g.elem_w == CELL_SIZE,
            g.elem_h == CELL_SIZE,
            walled_border(g, 20),
            walkers@.len() == num_walkers,
            forall|q: int|
                0 <= q < walkers@.len() ==> 1 <= (#[trigger] walkers@[q]).pos.0 <= 18 && 1
                    <= walkers@[q].pos.1 <= 18 && 0 <= walkers@[q].dir <= 3,
            forall|q: int|
                0 <= q < k ==> g.tile_at((#[trigger] walkers@[q]).pos.0 as int, walkers@[q].pos.1 as int)
                    == Some(Tile::Ground),
        decreases num_walkers - k,
    {
        let ghost before = g;
        dig(&mut g, walkers[k].pos.0, walkers[k].pos.1, side_length);
        proof {
            assert forall|q: int| 0 <= q < k + 1 implies g.tile_at(
                (#[trigger] walkers@[q]).pos.0 as int,
                walkers@[q].pos.1 as int,
            ) == Some(Tile::Ground) by {
                if q < k {
                    assert(before.tile_at(walkers@[q].pos.0 as int, walkers@[q].pos.1 as int) == Some(
                        Tile::Ground,
                    ));
                }
            }
        }
        k = k + 1;
    }

    let mut state = SimulationState { time: 0, dt: 0, terrain: g, entities: Vec::new(), next_id: 1 };
    let player_pos = state.terrain.get_rect_2d(walkers[0].pos.0, walkers[0].pos.1).center();
    let player = Entity::new_player(player_pos.x, player_pos.y);
    proof {
        lemma_on_cell_centre(state.terrain, player, walkers@[0].pos.0 as int, walkers@[0].pos.1 as int, 50_000);
    }
    let _ = state.add_entity(player);
    let mut k: usize = 1;
    while k < num_walkers
        invariant
            1 <= k <= num_walkers,
            num_walkers == 40,
            walkers@.len() == num_walkers,
            state.wf(),
            state.time == 0,
            state.dt == 0,
            state.terrain.w == 20,
            state.terrain.h == 20,
            state.terrain.elem_w == CELL_SIZE,
            state.terrain.elem_h == CELL_SIZE,
            walled_border(state.terrain, 20),
            state.entities@.len() == k,
            state.next_id == k + 1,
            forall|q: int| 0 <= q < k ==> (#[trigger] state.entities@[q]).0 == q + 1,
            state.entities@[0].1.variety == EntityType::Player,
            forall|q: int|
                0 <= q < walkers@.len() ==> 1 <= (#[trigger] walkers@[q]).pos.0 <= 18 && 1
                    <= walkers@[q].pos.1 <= 18,
            forall|q: int|
                0 <= q < walkers@.len() ==> state.terrain.tile_at(
                    (#[trigger] walkers@[q]).pos.0 as int,
                    walkers@[q].pos.1 as int,
                ) == Some(Tile::Ground),
            forall|q: int| 0 <= q < k ==> stands_on_ground(state.terrain, (#[trigger] state.entities@[q]).1),
            forall|q: int|
                1 <= q < k ==> {
                    let v = (#[trigger] state.entities@[q]).1.variety;
                    v == EntityType::Enemy || v == EntityType::Crate || v == EntityType::Retaliator
                },
        decreases num_walkers - k,
    {
        let walker_pos = state.terrain.get_rect_2d(walkers[k].pos.0, walkers[k].pos.1).center();
        let choice = random_in(0, 2);
        let e = if choice == 0 {
            Entity::new_enemy(walker_pos.x, walker_pos.y)
        } else if choice == 1 {
            Entity::new_crate(walker_pos.x, walker_pos.y)
        } else {
            Entity::new_retalliator(walker_pos.x, walker_pos.y)
        };
        proof {
            let wx = walkers@[k as int].pos.0 as int;
            let wy = walkers@[k as int].pos.1 as int;
            if choice == 0 {
                lemma_on_cell_centre(state.terrain, e, wx, wy, 80_000);
            } else if choice == 1 {
                lemma_on_cell_centre(state.terrain, e, wx, wy, 100_000);
            } else {
                lemma_on_cell_centre(state.terrain, e, wx, wy, 150_000);
            }
        }
        let _ = state.add_entity(e);
        k = k + 1;
    }
    state
}

/// Whether the centre of `e` lies in a ground cell of `g`.
pub open spec fn stands_on_ground(g: Grid, e: Entity) -> bool {
    g.tile_at(g.cell_x(e.aabb.center_spec().x as int), g.cell_y(e.aabb.center_spec().y as int)) == Some(
        Tile::Ground,
    )
}

/// An entity of even size `s` centred on the centre of ground cell `(x, y)`
/// stands on ground.
proof fn lemma_on_cell_centre(g: Grid, e: Entity, x: int, y: int, s: int)
    requires
        g.elem_w == CELL_SIZE,
        g.elem_h == CELL_SIZE,
        1 <= x <= 18,
        1 <= y <= 18,
        0 <= s <= CELL_SIZE,
        s % 2 == 0,
        g.tile_at(x, y) == Some(Tile::Ground),
        e.aabb == Rect::centered_spec(
            g.cell_rect(x, y).center_spec().x,
            g.cell_rect(x, y).center_spec().y,
            s as i32,
            s as i32,
        ),
    ensures
        stands_on_ground(g, e),
{
    let cx = CELL_SIZE * x + CELL_SIZE / 2;
    let cy = CELL_SIZE * y + CELL_SIZE / 2;
    assert(g.cell_rect(x, y).center_spec().x == cx);
    assert(g.cell_rect(x, y).center_spec().y == cy);
    assert(e.aabb.center_spec().x == cx);
    assert(e.aabb.center_spec().y == cy);
    lemma_fundamental_div_mod_converse(cx, CELL_SIZE as int, x, CELL_SIZE / 2);
    lemma_fundamental_div_mod_converse(cy, CELL_SIZE as int, y, CELL_SIZE / 2);
}

impl SimulationState {
    /// A fixed small level: a player, two enemies, nine crates and three
    /// retaliators in a 10 by 10 arena.
    pub fn new() -> (state: SimulationState)
        ensures
            state.wf(),
            state.time == 0,
            state.dt == 0,
            state.terrain.w == 10,
            state.terrain.h == 10,
            state.terrain.elem_w == CELL_SIZE,
            state.terrain.elem_h == CELL_SIZE,
            forall|i: int| 0 <= i < state.terrain.tiles@.len() ==> state.terrain.tiles@[i] == Tile::Wall,
            state.next_id == 16,
            state.entities@ == seq![
                (1u64, Entity::player_spec(400_000, 400_000)),
                (2u64, Entity::enemy_spec(800_000, 1_100_000)),
                (3u64, Entity::enemy_spec(1_500_000, 500_000)),
                (4u64, Entity::crate_spec(800_000, 400_000)),
                (5u64, Entity::crate_spec(800_000, 900_000)),
                (6u64, Entity::crate_spec(1_000_000, 200_000)),
                (7u64, Entity::crate_spec(1_000_000, 400_000)),
                (8u64, Entity::crate_spec(1_000_000, 900_000)),
                (9u64, Entity::crate_spec(1_200_000, 600_000)),
                (10u64, Entity::crate_spec(1_200_000, 700_000)),
                (11u64, Entity::crate_spec(1_600_000, 1_000_000)),
                (12u64, Entity::crate_spec(1_600_000, 1_600_000)),
                (13u64, Entity::retalliator_spec(300_000, 1_600_000)),
                (14u64, Entity::retalliator_spec(1_000_000, 1_000_000)),
                (15u64, Entity::retalliator_spec(900_000, 1_500_000)),
            ],
    {
        let mut state = SimulationState {
            time: 0,
            dt: 0,
            terrain: generate_level(),
            entities: Vec::new(),
            next_id: 1,
        };
        let _ = state.add_entity(Entity::new_player(400_000, 400_000));
        let _ = state.add_entity(Entity::new_enemy(800_000, 1_100_000));
        let _ = state.add_entity(Entity::new_enemy(1_500_000, 500_000));

        let _ = state.add_entity(Entity::new_crate(800_000, 400_000));
        let _ = state.add_entity(Entity::new_crate(800_000, 900_000));
        let _ = state.add_entity(Entity::new_crate(1_000_000, 200_000));
        let _ = state.add_entity(Entity::new_crate(1_000_000, 400_000));
        let _ = state.add_entity(Entity::new_crate(1_000_000, 900_000));
        let _ = state.add_entity(Entity::new_crate(1_200_000, 600_000));
        let _ = state.add_entity(Entity::new_crate(1_200_000, 700_000));
        let _ = state.add_entity(Entity::new_crate(1_600_000, 1_000_000));
        let _ = state.add_entity(Entity::new_crate(1_600_000, 1_600_000));

        let _ = state.add_entity(Entity::new_retalliator(300_000, 1_600_000));
        let _ = state.add_entity(Entity::new_retalliator(1_000_000, 1_000_000));
        let _ = state.add_entity(Entity::new_retalliator(900_000, 1_500_000));
        proof {
            assert(state.entities@ =~= seq![
                (1u64, Entity::player_spec(400_000, 400_000)),
                (2u64, Entity::enemy_spec(800_000, 1_100_000)),
                (3u64, Entity::enemy_spec(1_500_000, 500_000)),
                (4u64, Entity::crate_spec(800_000, 400_000)),
                (5u64, Entity::crate_spec(800_000, 900_000)),
                (6u64, Entity::crate_spec(1_000_000, 200_000)),
                (7u64, Entity::crate_spec(1_000_000, 400_000)),
                (8u64, Entity::crate_spec(1_000_000, 900_000)),
                (9u64, Entity::crate_spec(1_200_000, 600_000)),
                (10u64, Entity::crate_spec(1_200_000, 700_000)),
                (11u64, Entity::crate_spec(1_600_000, 1_000_000)),
                (12u64, Entity::crate_spec(1_600_000, 1_600_000)),
                (13u64, Entity::retalliator_spec(300_000, 1_600_000)),
                (14u64, Entity::retalliator_spec(1_000_000, 1_000_000)),
                (15u64, Entity::retalliator_spec(900_000, 1_500_000)),
            ]);
        }
        state
    }
}

} // verus!
