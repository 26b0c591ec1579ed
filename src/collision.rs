use vstd::prelude::*;
use crate::geometry::{Rect, MICROS_PER_SECOND, clamp32, clamp_to_i32, div_floor, overlaps, rect_intersection};
use crate::entity::{Entity, EntityForce, CollisionGroup};
use crate::grid::{Grid, Tile};

verus! {

#[derive(Debug, Clone, Copy, PartialEq, Eq, Structural)]
pub enum CollisionDirection {
    Above,
    Left,
    Right,
    Below,
    Bad,
}

#[derive(Debug, Clone, Copy, PartialEq, Eq, Structural)]
pub enum CollisionObject {
    Entity(u64),
    Terrain(i32, i32),
}

/// A contact found for this tick: `subject` would overlap `object` after moving,
/// approaching it from `dir`; the rectangles are as they were when it was found.
#[derive(Debug, Clone, Copy)]
pub struct CollisionEvent {
    pub subject: u64,
    pub object: CollisionObject,
    pub dir: CollisionDirection,
    pub subject_rect: Rect,
    pub object_rect: Rect,
}

/// Whether two entities should interact: bullets pass through each other and
/// through their own side.
pub fn should_collide(f1: EntityForce, g1: CollisionGroup, f2: EntityForce, g2: CollisionGroup) -> (r: bool)
    ensures
        r == (!(g1 == CollisionGroup::Bullet && g2 == CollisionGroup::Bullet) && !(g1
            == CollisionGroup::Bullet && f1 == f2)),
{
    if g1 == CollisionGroup::Bullet && g2 == CollisionGroup::Bullet {
        return false;
    }
    if g1 == CollisionGroup::Bullet && f1 == f2 {
        return false;
    }
    true
}

/// The side from which a subject moving from `old` to `desired` meets `object`,
/// checked in the order above, left, right, below; `Bad` when none fits.
pub open spec fn direction_spec(old: Rect, desired: Rect, object: Rect) -> CollisionDirection {
    if old.bot() <= object.top() && desired.bot() >= object.top() {
        CollisionDirection::Above
    } else if old.right() <= object.left() && desired.right() >= object.left() {
        CollisionDirection::Left
    } else if old.left() >= object.right() && desired.left() <= object.right() {
        CollisionDirection::Right
    } else if old.top() >= object.bot() && desired.top() <= object.bot() {
        CollisionDirection::Below
    } else {
        CollisionDirection::Bad
    }
}

pub fn rect_collision_direction(subject_old: Rect, subject_desired: Rect, object: Rect) -> (r:
    CollisionDirection)
    ensures
        r == direction_spec(subject_old, subject_desired, object),
{
    if subject_old.bot_edge() <= object.top_edge() && subject_desired.bot_edge()
        >= object.top_edge() {
        CollisionDirection::Above
    } else if subject_old.right_edge() <= object.left_edge() && subject_desired.right_edge()
        >= object.left_edge() {
        CollisionDirection::Left
    } else if subject_old.left_edge() >= object.right_edge() && subject_desired.left_edge()
        <= object.right_edge() {
        CollisionDirection::Right
    } else if subject_old.top_edge() >= object.bot_edge() && subject_desired.top_edge()
        <= object.bot_edge() {
        CollisionDirection::Below
    } else {
        CollisionDirection::Bad
    }
}

/// How far velocity component `v` carries in `dt` microseconds (rounded down).
pub open spec fn travel(v: int, dt: int) -> int {
    (v * dt) / (MICROS_PER_SECOND as int)
}

pub fn travel_exec(v: i32, dt: u32) -> (r: i64)
    ensures
        r == travel(v as int, dt as int),
        -0x8000_0000_0000 <= r <= 0x8000_0000_0000,
{
    assert(-0x8000_0000_0000_0000 <= v * dt <= 0x8000_0000_0000_0000) by (nonlinear_arith)
        requires
            -0x8000_0000 <= v <= 0x7fff_ffff,
            0 <= dt <= 0xffff_ffff,
    ;
    let r = div_floor(v as i128 * dt as i128, MICROS_PER_SECOND as i128);
    assert(-0x8000_0000_0000 <= r <= 0x8000_0000_0000) by (nonlinear_arith)
        requires
            -0x8000_0000_0000_0000 <= v * dt <= 0x8000_0000_0000_0000,
            r == (v * dt) / 1_000_000,
    ;
    r as i64
}

/// Where an entity's rectangle would be after a full tick at its velocity.
pub open spec fn desired_rect(e: Entity, dt: int) -> Rect {
    Rect {
        x: clamp32(e.aabb.x + travel(e.velocity.x as int, dt)) as i32,
        y: clamp32(e.aabb.y + travel(e.velocity.y as int, dt)) as i32,
        ..e.aabb
    }
}

pub fn desired_rect_exec(e: &Entity, dt: u32) -> (r: Rect)
    ensures
        r == desired_rect(*e, dt as int),
{
    let dx = travel_exec(e.velocity.x, dt);
    let dy = travel_exec(e.velocity.y, dt);
    Rect {
        x: clamp_to_i32(e.aabb.x as i128 + dx as i128),
        y: clamp_to_i32(e.aabb.y as i128 + dy as i128),
        w: e.aabb.w,
        h: e.aabb.h,
    }
}

/// The event, if any, of subject `es[i]` against object `es[j]`. A contact
/// whose side cannot be told (`Bad`, such as a pair that already overlaps) is
/// dropped.
pub open spec fn pair_events(es: Seq<(u64, Entity)>, dt: int, i: int, j: int) -> Seq<
    CollisionEvent,
> {
    let (sk, s) = es[i];
    let (ok, o) = es[j];
    let desired = desired_rect(s, dt);
    let dir = direction_spec(s.aabb, desired, o.aabb);
    if s.collision_group == CollisionGroup::Static || sk == ok || ok == s.source || !overlaps(
        desired,
        o.aabb,
    ) || dir == CollisionDirection::Bad {
        Seq::empty()
    } else {
        seq![
            CollisionEvent {
                subject: sk,
                object: CollisionObject::Entity(ok),
                dir,
                subject_rect: s.aabb,
                object_rect: o.aabb,
            },
        ]
    }
}

/// The events of subject `es[i]` against the first `n` entities.
pub open spec fn subject_events(es: Seq<(u64, Entity)>, dt: int, i: int, n: int) -> Seq<
    CollisionEvent,
>
    decreases n,
{
    if n <= 0 {
        Seq::empty()
    } else {
        subject_events(es, dt, i, n - 1) + pair_events(es, dt, i, n - 1)
    }
}

/// The entity-entity events of the first `m` subjects, in registry order.
pub open spec fn entity_events(es: Seq<(u64, Entity)>, dt: int, m: int) -> Seq<CollisionEvent>
    decreases m,
{
    if m <= 0 {
        Seq::empty()
    } else {
        entity_events(es, dt, m - 1) + subject_events(es, dt, m - 1, es.len() as int)
    }
}

/// Every non-static entity against every other entity, but the one that fired
/// it, each pair whose subject would overlap the object after a full tick; a
/// contact whose side cannot be told is dropped.
pub fn simulate_entity_entity_collisions(
    entities: &[(u64, Entity)],
    collisions: &mut Vec<CollisionEvent>,
    dt: u32,
)
    ensures
        final(collisions)@ == old(collisions)@ + entity_events(
            entities@,
            dt as int,
            entities@.len() as int,
        ),
        forall|k: int|
            old(collisions)@.len() <= k < final(collisions)@.len() ==> (#[trigger] final(collisions)@[k]).dir
                != CollisionDirection::Bad,
{
    let n = entities.len();
    let mut i: usize = 0;
    while i < n
        invariant
            n == entities@.len(),
            i <= n,
            collisions@ == old(collisions)@ + entity_events(entities@, dt as int, i as int),
            forall|k: int|
                old(collisions)@.len() <= k < collisions@.len() ==> (#[trigger] collisions@[k]).dir
                    != CollisionDirection::Bad,
        decreases n - i,
    {
        let (sk, s) = entities[i];
        let desired = desired_rect_exec(&s, dt);
        let ghost before = collisions@;
        let mut j: usize = 0;
        while j < n
            invariant
                n == entities@.len(),
                i < n,
                j <= n,
                (sk, s) == entities@[i as int],
                desired == desired_rect(s, dt as int),
                collisions@ == before + subject_events(entities@, dt as int, i as int, j as int),
                old(collisions)@.len() <= before.len(),
                    forall|k: int|
                    old(collisions)@.len() <= k < collisions@.len() ==> (#[trigger] collisions@[k]).dir
                        != CollisionDirection::Bad,
            decreases n - j,
        {
            let (ok, o) = entities[j];
            if s.collision_group != CollisionGroup::Static && sk != ok && ok != s.source
                && rect_intersection(desired, o.aabb) {
                let dir = rect_collision_direction(s.aabb, desired, o.aabb);
                if dir != CollisionDirection::Bad {
                    collisions.push(
                        CollisionEvent {
                            subject: sk,
                            object: CollisionObject::Entity(ok),
                            dir,
                            subject_rect: s.aabb,
                            object_rect: o.aabb,
                        },
                    );
                }
            }
            proof {
                assert(collisions@ =~= before + subject_events(
                    entities@,
                    dt as int,
                    i as int,
                    j + 1,
                ));
            }
            j = j + 1;
        }
        proof {
            assert(collisions@ =~= old(collisions)@ + entity_events(entities@, dt as int, i + 1));
        }
        i = i + 1;
    }
}

/// The event, if any, of subject `es[i]` against neighbourhood cell `k` (of the
/// 3 by 3 cells around the cell of its centre, column by column). Only walls
/// count, and a contact whose side cannot be told is dropped.
pub open spec fn terrain_cell_events(g: Grid, es: Seq<(u64, Entity)>, dt: int, i: int, k: int) -> Seq<
    CollisionEvent,
> {
    let (sk, s) = es[i];
    let c = s.aabb.center_spec();
    let x = g.cell_x(c.x as int) + k / 3 - 1;
    let y = g.cell_y(c.y as int) + k % 3 - 1;
    let desired = desired_rect(s, dt);
    let rect = g.cell_rect(x, y);
    let dir = direction_spec(s.aabb, desired, rect);
    if s.collision_group == CollisionGroup::Static || g.tile_at(x, y) != Some(Tile::Wall)
        || !overlaps(desired, rect) || dir == CollisionDirection::Bad {
        Seq::empty()
    } else {
        seq![
            CollisionEvent {
                subject: sk,
                object: CollisionObject::Terrain(x as i32, y as i32),
                dir,
                subject_rect: s.aabb,
                object_rect: rect,
            },
        ]
    }
}

pub open spec fn terrain_subject_events(g: Grid, es: Seq<(u64, Entity)>, dt: int, i: int, n: int) -> Seq<
    CollisionEvent,
>
    decreases n,
{
    if n <= 0 {
        Seq::empty()
    } else {
        terrain_subject_events(g, es, dt, i, n - 1) + terrain_cell_events(g, es, dt, i, n - 1)
    }
}

/// The entity-terrain events of the first `m` subjects, in registry order.
pub open spec fn terrain_events(g: Grid, es: Seq<(u64, Entity)>, dt: int, m: int) -> Seq<
    CollisionEvent,
>
    decreases m,
{
    if m <= 0 {
        Seq::empty()
    } else {
        terrain_events(g, es, dt, m - 1) + terrain_subject_events(g, es, dt, m - 1, 9)
    }
}

/// Every non-static entity against the walls among the 3 by 3 cells around the
/// cell of its centre; a wall contact whose side cannot be told is dropped.
pub fn simulate_entity_terrain_collisions(
    entities: &[(u64, Entity)],
    terrain: &Grid,
    collisions: &mut Vec<CollisionEvent>,
    dt: u32,
)
    requires
        terrain.wf(),
    ensures
        final(collisions)@ == old(collisions)@ + terrain_events(
            *terrain,
            entities@,
            dt as int,
            entities@.len() as int,
        ),
{
    let n = entities.len();
    let mut i: usize = 0;
    while i < n
        invariant
            n == entities@.len(),
            i <= n,
            terrain.wf(),
            collisions@ == old(collisions)@ + terrain_events(*terrain, entities@, dt as int, i as int),
        decreases n - i,
    {
        let (sk, s) = entities[i];
        let desired = desired_rect_exec(&s, dt);
        let (sx, sy) = terrain.get_xy_of_position(s.aabb.center());
        let ghost before = collisions@;
        let mut k: u32 = 0;
        while k < 9
            invariant
                n == entities@.len(),
                i < n,
                k <= 9,
                terrain.wf(),
                (sk, s) == entities@[i as int],
                desired == desired_rect(s, dt as int),
                sx == terrain.cell_x(s.aabb.center_spec().x as int),
                sy == terrain.cell_y(s.aabb.center_spec().y as int),
                collisions@ == before + terrain_subject_events(
                    *terrain,
                    entities@,
                    dt as int,
                    i as int,
                    k as int,
                ),
            decreases 9 - k,
        {
            let x: i64 = sx as i64 + (k / 3) as i64 - 1;
            let y: i64 = sy as i64 + (k % 3) as i64 - 1;
            let t: Option<Tile> = if x < 0 || y < 0 || x >= terrain.w as i64 || y >= terrain.h as i64 {
                None
            } else {
                terrain.get_2d(x as i32, y as i32)
            };
            if s.collision_group != CollisionGroup::Static && t == Some(Tile::Wall) {
                let rect = terrain.get_rect_2d(x as i32, y as i32);
                if rect_intersection(desired, rect) {
                    let dir = rect_collision_direction(s.aabb, desired, rect);
                    if dir != CollisionDirection::Bad {
                        collisions.push(
                            CollisionEvent {
                                subject: sk,
                                object: CollisionObject::Terrain(x as i32, y as i32),
                                dir,
                                subject_rect: s.aabb,
                                object_rect: rect,
                            },
                        );
                    }
                }
            }
            proof {
                assert(collisions@ =~= before + terrain_subject_events(
                    *terrain,
                    entities@,
                    dt as int,
                    i as int,
                    k + 1,
                ));
            }
            k = k + 1;
        }
        proof {
            assert(collisions@ =~= old(collisions)@ + terrain_events(
                *terrain,
                entities@,
                dt as int,
                i + 1,
            ));
        }
        i = i + 1;
    }
}

/// How far the subject of `e` may move toward its object before touching it:
/// a limit from above for `Left` and `Above` contacts, from below for `Right`
/// and `Below` ones.
pub open spec fn gap(e: CollisionEvent) -> int {
    match e.dir {
        CollisionDirection::Left => e.object_rect.left() - e.subject_rect.right(),
        CollisionDirection::Right => e.object_rect.right() - e.subject_rect.left(),
        CollisionDirection::Above => e.object_rect.top() - e.subject_rect.bot(),
        CollisionDirection::Below => e.object_rect.bot() - e.subject_rect.top(),
        CollisionDirection::Bad => 0,
    }
}

/// The least gap of the events of subject `id` from side `dir`; `i64::MAX` (no
/// limit) when there are none.
pub open spec fn upper_bound(evs: Seq<CollisionEvent>, id: u64, dir: CollisionDirection) -> int
    decreases evs.len(),
{
    if evs.len() == 0 {
        i64::MAX as int
    } else {
        let rest = upper_bound(evs.drop_last(), id, dir);
        let e = evs.last();
        if e.subject == id && e.dir == dir && gap(e) < rest {
            gap(e)
        } else {
            rest
        }
    }
}

/// The greatest gap of the events of subject `id` from side `dir`; `i64::MIN`
/// (no limit) when there are none.
pub open spec fn lower_bound(evs: Seq<CollisionEvent>, id: u64, dir: CollisionDirection) -> int
    decreases evs.len(),
{
    if evs.len() == 0 {
        i64::MIN as int
    } else {
        let rest = lower_bound(evs.drop_last(), id, dir);
        let e = evs.last();
        if e.subject == id && e.dir == dir && gap(e) > rest {
            gap(e)
        } else {
            rest
        }
    }
}

fn event_gap(e: &CollisionEvent) -> (r: i64)
    ensures
        r == gap(*e),
{
    match e.dir {
        CollisionDirection::Left => e.object_rect.left_edge() - e.subject_rect.right_edge(),
        CollisionDirection::Right => e.object_rect.right_edge() - e.subject_rect.left_edge(),
        CollisionDirection::Above => e.object_rect.top_edge() - e.subject_rect.bot_edge(),
        CollisionDirection::Below => e.object_rect.bot_edge() - e.subject_rect.top_edge(),
        CollisionDirection::Bad => 0,
    }
}

/// The limits on the displacement of entity `subject_key`: `(min_dx, max_dx,
/// min_dy, max_dy)`.
fn movement_bounds(subject_key: u64, collisions: &Vec<CollisionEvent>) -> (r: (i64, i64, i64, i64))
    ensures
        r.0 == lower_bound(collisions@, subject_key, CollisionDirection::Right),
        r.1 == upper_bound(collisions@, subject_key, CollisionDirection::Left),
        r.2 == lower_bound(collisions@, subject_key, CollisionDirection::Below),
        r.3 == upper_bound(collisions@, subject_key, CollisionDirection::Above),
{
    let mut min_dx: i64 = i64::MIN;
    let mut max_dx: i64 = i64::MAX;
    let mut min_dy: i64 = i64::MIN;
    let mut max_dy: i64 = i64::MAX;
    let n = collisions.len();
    let mut i: usize = 0;
    while i < n
        invariant
            n == collisions@.len(),
            i <= n,
            min_dx == lower_bound(collisions@.take(i as int), subject_key, CollisionDirection::Right),
            max_dx == upper_bound(collisions@.take(i as int), subject_key, CollisionDirection::Left),
            min_dy == lower_bound(collisions@.take(i as int), subject_key, CollisionDirection::Below),
            max_dy == upper_bound(collisions@.take(i as int), subject_key, CollisionDirection::Above),
        decreases n - i,
    {
        let e = &collisions[i];
        let g = event_gap(e);
        proof {
            assert(collisions@.take(i + 1).drop_last() =~= collisions@.take(i as int));
        }
        if e.subject == subject_key {
            match e.dir {
                CollisionDirection::Left => {
                    if g < max_dx {
                        max_dx = g;
                    }
                },
                CollisionDirection::Right => {
                    if g > min_dx {
                        min_dx = g;
                    }
                },
                CollisionDirection::Above => {
                    if g < max_dy {
                        max_dy = g;
                    }
                },
                CollisionDirection::Below => {
                    if g > min_dy {
                        min_dy = g;
                    }
                },
                CollisionDirection::Bad => {},
            }
        }
        i = i + 1;
    }
    proof {
        assert(collisions@.take(n as int) =~= collisions@);
    }
    (min_dx, max_dx, min_dy, max_dy)
}

/// `val` held to `min` from below, then to `max` from above.
pub open spec fn clamp_spec(val: int, min: int, max: int) -> int {
    if val <= min {
        min
    } else if val >= max {
        max
    } else {
        val
    }
}

fn clamp(val: i64, min: i64, max: i64) -> (r: i64)
    ensures
        r == clamp_spec(val as int, min as int, max as int),
{
    if val <= min {
        min
    } else if val >= max {
        max
    } else {
        val
    }
}

/// The displacement of entity `e` (key `id`) this tick: its velocity over `dt`,
/// each axis held within the limits of its contacts.
pub open spec fn displacement_spec(e: Entity, id: u64, evs: Seq<CollisionEvent>, dt: int) -> (
    int,
    int,
) {
    (
        clamp_spec(
            travel(e.velocity.x as int, dt),
            lower_bound(evs, id, CollisionDirection::Right),
            upper_bound(evs, id, CollisionDirection::Left),
        ),
        clamp_spec(
            travel(e.velocity.y as int, dt),
            lower_bound(evs, id, CollisionDirection::Below),
            upper_bound(evs, id, CollisionDirection::Above),
        ),
    )
}

/// The non-zero displacements of the first `m` entities, in registry order.
pub open spec fn movements_spec(es: Seq<(u64, Entity)>, evs: Seq<CollisionEvent>, dt: int, m: int) -> Seq<
    (u64, i64, i64),
>
    decreases m,
{
    if m <= 0 {
        Seq::empty()
    } else {
        let rest = movements_spec(es, evs, dt, m - 1);
        let (id, e) = es[m - 1];
        let d = displacement_spec(e, id, evs, dt);
        if d.0 != 0 || d.1 != 0 {
            rest.push((id, d.0 as i64, d.1 as i64))
        } else {
            rest
        }
    }
}

/// The displacement of every entity that moves this tick.
pub fn compute_movement(
    entities: &[(u64, Entity)],
    collisions: &Vec<CollisionEvent>,
    movements: &mut Vec<(u64, i64, i64)>,
    dt: u32,
)
    ensures
        final(movements)@ == old(movements)@ + movements_spec(
            entities@,
            collisions@,
            dt as int,
            entities@.len() as int,
        ),
{
    let n = entities.len();
    let mut i: usize = 0;
    while i < n
        invariant
            n == entities@.len(),
            i <= n,
            movements@ == old(movements)@ + movements_spec(entities@, collisions@, dt as int, i as int),
        decreases n - i,
    {
        let (entity_key, entity) = entities[i];
        let (min_x, max_x, min_y, max_y) = movement_bounds(entity_key, collisions);
        let x_movt = clamp(travel_exec(entity.velocity.x, dt), min_x, max_x);
        let y_movt = clamp(travel_exec(entity.velocity.y, dt), min_y, max_y);
        if x_movt != 0 || y_movt != 0 {
            movements.push((entity_key, x_movt, y_movt));
        }
        proof {
            assert(movements@ =~= old(movements)@ + movements_spec(
                entities@,
                collisions@,
                dt as int,
                i + 1,
            ));
        }
        i = i + 1;
    }
}

/// The rectangle `r` moved by `(dx, dy)`, its corner kept in range.
pub open spec fn moved_rect(r: Rect, dx: int, dy: int) -> Rect {
    Rect { x: clamp32(r.x + dx) as i32, y: clamp32(r.y + dy) as i32, ..r }
}

/// Whether the gap of `e` lies on the side its direction says: the subject had
/// not yet passed the edge it approaches.
pub open spec fn event_consistent(e: CollisionEvent) -> bool {
    match e.dir {
        CollisionDirection::Left => gap(e) >= 0,
        CollisionDirection::Above => gap(e) >= 0,
        CollisionDirection::Right => gap(e) <= 0,
        CollisionDirection::Below => gap(e) <= 0,
        CollisionDirection::Bad => true,
    }
}

pub open spec fn all_consistent(evs: Seq<CollisionEvent>) -> bool {
    forall|k: int| 0 <= k < evs.len() ==> event_consistent(#[trigger] evs[k])
}

proof fn lemma_concat_consistent(a: Seq<CollisionEvent>, b: Seq<CollisionEvent>)
    requires
        all_consistent(a),
        all_consistent(b),
    ensures
        all_consistent(a + b),
{
    assert forall|k: int| 0 <= k < (a + b).len() implies event_consistent(#[trigger] (a + b)[k]) by {
        if k < a.len() {
            assert((a + b)[k] == a[k]);
        } else {
            assert((a + b)[k] == b[k - a.len()]);
        }
    }
}

proof fn lemma_subject_events_consistent(es: Seq<(u64, Entity)>, dt: int, i: int, n: int)
    ensures
        all_consistent(subject_events(es, dt, i, n)),
    decreases n,
{
    if n > 0 {
        lemma_subject_events_consistent(es, dt, i, n - 1);
        lemma_concat_consistent(subject_events(es, dt, i, n - 1), pair_events(es, dt, i, n - 1));
    }
}

proof fn lemma_terrain_subject_consistent(g: Grid, es: Seq<(u64, Entity)>, dt: int, i: int, n: int)
    ensures
        all_consistent(terrain_subject_events(g, es, dt, i, n)),
    decreases n,
{
    if n > 0 {
        lemma_terrain_subject_consistent(g, es, dt, i, n - 1);
        lemma_concat_consistent(
            terrain_subject_events(g, es, dt, i, n - 1),
            terrain_cell_events(g, es, dt, i, n - 1),
        );
    }
}

/// Every contact found by either scan lies on the side its direction says.
pub proof fn lemma_detected_events_consistent(g: Grid, es: Seq<(u64, Entity)>, dt: int, m: int)
    ensures
        all_consistent(entity_events(es, dt, m)),
        all_consistent(terrain_events(g, es, dt, m)),
    decreases m,
{
    if m > 0 {
        lemma_detected_events_consistent(g, es, dt, m - 1);
        lemma_subject_events_consistent(es, dt, m - 1, es.len() as int);
        lemma_terrain_subject_consistent(g, es, dt, m - 1, 9);
        lemma_concat_consistent(
            entity_events(es, dt, m - 1),
            subject_events(es, dt, m - 1, es.len() as int),
        );
        lemma_concat_consistent(
            terrain_events(g, es, dt, m - 1),
            terrain_subject_events(g, es, dt, m - 1, 9),
        );
    }
}

proof fn lemma_bounds_straddle_zero(evs: Seq<CollisionEvent>, id: u64)
    requires
        all_consistent(evs),
    ensures
        upper_bound(evs, id, CollisionDirection::Left) >= 0,
        upper_bound(evs, id, CollisionDirection::Above) >= 0,
        lower_bound(evs, id, CollisionDirection::Right) <= 0,
        lower_bound(evs, id, CollisionDirection::Below) <= 0,
    decreases evs.len(),
{
    if evs.len() > 0 {
        assert(all_consistent(evs.drop_last())) by {
            assert forall|k: int| 0 <= k < evs.drop_last().len() implies event_consistent(
                #[trigger] evs.drop_last()[k],
            ) by {
                assert(evs.drop_last()[k] == evs[k]);
            }
        }
        assert(event_consistent(evs[evs.len() - 1]));
        lemma_bounds_straddle_zero(evs.drop_last(), id);
    }
}

/// Resolved movement never carries an entity past an edge it was about to
/// touch: on each axis its new position lies within the limits that its
/// contacts of this tick set.
pub proof fn lemma_movement_within_bounds(e: Entity, id: u64, evs: Seq<CollisionEvent>, dt: int)
    requires
        all_consistent(evs),
    ensures
        ({
            let d = displacement_spec(e, id, evs, dt);
            let r = moved_rect(e.aabb, d.0, d.1);
            &&& lower_bound(evs, id, CollisionDirection::Right) <= r.x - e.aabb.x <= upper_bound(
                evs,
                id,
                CollisionDirection::Left,
            )
            &&& lower_bound(evs, id, CollisionDirection::Below) <= r.y - e.aabb.y <= upper_bound(
                evs,
                id,
                CollisionDirection::Above,
            )
        }),
{
    lemma_bounds_straddle_zero(evs, id);
}

} // verus!
