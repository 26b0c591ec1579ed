use vstd::prelude::*;
use vstd::arithmetic::div_mod::{lemma_fundamental_div_mod, lemma_div_is_ordered};
use crate::geometry::{Vec2, Rect, clamp32, clamp_to_i32, div_floor, abs, between};

verus! {

#[derive(Clone, Copy, PartialEq, Eq, Debug, Structural)]
pub enum Tile {
    Ground,
    Wall,
}

/// Terrain: `w` by `h` cells of size `elem_w` by `elem_h`, stored row by row
/// (`index = x + y * w`).
pub struct Grid {
    pub w: i32,
    pub h: i32,
    pub elem_w: i32,
    pub elem_h: i32,
    pub tiles: Vec<Tile>,
}

impl Grid {
    pub open spec fn wf(&self) -> bool {
        &&& self.w >= 0
        &&& self.h >= 0
        &&& self.elem_w > 0
        &&& self.elem_h > 0
        &&& self.tiles@.len() == self.w * self.h
    }

    /// The tile at cell `(x, y)`, or `None` outside the grid.
    pub open spec fn tile_at(&self, x: int, y: int) -> Option<Tile> {
        if 0 <= x < self.w && 0 <= y < self.h {
            Some(self.tiles@[x + y * self.w])
        } else {
            None
        }
    }

    /// The column holding world coordinate `px`.
    pub open spec fn cell_x(&self, px: int) -> int {
        px / (self.elem_w as int)
    }

    /// The row holding world coordinate `py`.
    pub open spec fn cell_y(&self, py: int) -> int {
        py / (self.elem_h as int)
    }

    pub open spec fn cell_rect(&self, x: int, y: int) -> Rect {
        Rect {
            x: clamp32(self.elem_w * x) as i32,
            y: clamp32(self.elem_h * y) as i32,
            w: self.elem_w,
            h: self.elem_h,
        }
    }

    /// A grid of `w` by `h` cells, all of them walls.
    pub fn new(w: i32, h: i32, elem_w: i32, elem_h: i32) -> (g: Grid)
        requires
            w >= 0,
            h >= 0,
            elem_w > 0,
            elem_h > 0,
            w * h <= usize::MAX,
        ensures
            g.wf(),
            g.w == w,
            g.h == h,
            g.elem_w == elem_w,
            g.elem_h == elem_h,
            forall|i: int| 0 <= i < g.tiles@.len() ==> g.tiles@[i] == Tile::Wall,
    {
        let n: usize = (w as usize) * (h as usize);
        let mut tiles: Vec<Tile> = Vec::new();
        let mut i: usize = 0;
        while i < n
            invariant
                i <= n,
                tiles@.len() == i,
                forall|k: int| 0 <= k < i ==> tiles@[k] == Tile::Wall,
            decreases n - i,
        {
            tiles.push(Tile::Wall);
            i = i + 1;
        }
        Grid { w, h, elem_w, elem_h, tiles }
    }

    pub fn set_2d(&mut self, x: i32, y: i32, t: Tile)
        requires
            old(self).wf(),
            0 <= x < old(self).w,
            0 <= y < old(self).h,
        ensures
            final(self).wf(),
            final(self).w == old(self).w,
            final(self).h == old(self).h,
            final(self).elem_w == old(self).elem_w,
            final(self).elem_h == old(self).elem_h,
            final(self).tiles@ == old(self).tiles@.update(x + y * old(self).w, t),
    {
        let n = self.tiles.len();
        proof {
            lemma_cell_index(x as int, y as int, self.w as int, self.h as int);
            assert(y * self.w <= x + y * self.w < n);
        }
        let idx: usize = (x as usize) + (y as usize) * (self.w as usize);
        self.tiles.set(idx, t);
    }

    pub fn get_2d(&self, x: i32, y: i32) -> (r: Option<Tile>)
        requires
            self.wf(),
        ensures
            r == self.tile_at(x as int, y as int),
    {
        if x >= self.w || y >= self.h || x < 0 || y < 0 {
            None
        } else {
            let n = self.tiles.len();
            proof {
                lemma_cell_index(x as int, y as int, self.w as int, self.h as int);
                assert(y * self.w <= x + y * self.w < n);
            }
            let idx: usize = (x as usize) + (y as usize) * (self.w as usize);
            Some(self.tiles[idx])
        }
    }

    /// The world rectangle covered by cell `(x, y)`.
    pub fn get_rect_2d(&self, x: i32, y: i32) -> (r: Rect)
        ensures
            r == self.cell_rect(x as int, y as int),
    {
        proof {
            lemma_product_fits(self.elem_w as int, x as int);
            lemma_product_fits(self.elem_h as int, y as int);
        }
        Rect {
            x: clamp_to_i32(self.elem_w as i128 * x as i128),
            y: clamp_to_i32(self.elem_h as i128 * y as i128),
            w: self.elem_w,
            h: self.elem_h,
        }
    }

    /// The world rectangle of the cell stored at index `i`.
    pub fn get_rect_1d(&self, i: i32) -> (r: Rect)
        requires
            self.w > 0,
            i >= 0,
        ensures
            r == self.cell_rect(i as int % self.w as int, i as int / self.w as int),
    {
        let x = i % self.w;
        let y = i / self.w;
        self.get_rect_2d(x, y)
    }

    /// The cell holding point `v`.
    pub fn get_xy_of_position(&self, v: Vec2) -> (r: (i32, i32))
        requires
            self.wf(),
        ensures
            r.0 == self.cell_x(v.x as int),
            r.1 == self.cell_y(v.y as int),
    {
        proof {
            lemma_cell_coord_fits(v.x as int, self.elem_w as int);
            lemma_cell_coord_fits(v.y as int, self.elem_h as int);
        }
        let ix = div_floor(v.x as i128, self.elem_w as i128) as i32;
        let iy = div_floor(v.y as i128, self.elem_h as i128) as i32;
        (ix, iy)
    }

    /// The tile under point `v`, or `None` outside the grid.
    pub fn get_position(&self, v: Vec2) -> (r: Option<Tile>)
        requires
            self.wf(),
        ensures
            r == self.tile_at(self.cell_x(v.x as int), self.cell_y(v.y as int)),
    {
        let (ix, iy) = self.get_xy_of_position(v);
        self.get_2d(ix, iy)
    }
}


/// Distance from a ray's origin coordinate `oc`, along one axis, to where the ray
/// leaves cell `c` of size `e` while heading toward `dc`.
pub open spec fn axis_entry(oc: int, dc: int, c: int, e: int) -> int {
    if dc > oc {
        (c + 1) * e - oc
    } else {
        oc - c * e
    }
}

/// The coordinate of the cell boundary through which a ray heading toward `dc` leaves cell `c`.
pub open spec fn axis_boundary(oc: int, dc: int, c: int, e: int) -> int {
    if dc > oc {
        (c + 1) * e
    } else {
        c * e
    }
}

/// The cell step of a ray heading from `oc` toward `dc`.
pub open spec fn axis_sign(oc: int, dc: int) -> int {
    if dc > oc {
        1
    } else {
        -1
    }
}

/// Whether an axis with exit distance `n` and extent `u` moves on before, or together
/// with, an axis with exit distance `m` and extent `v`. Exit times `n / |u|` are
/// compared exactly; a ray going down an axis is still inside the cell at the
/// boundary and leaves just after it, so on equal times such an axis comes
/// second, and two axes with equal times and equal sense move together.
pub open spec fn advances(n: int, u: int, m: int, v: int) -> bool {
    let lhs = n * abs(v);
    let rhs = m * abs(u);
    u != 0 && (v == 0 || lhs < rhs || (lhs == rhs && (u > 0 || v <= 0)))
}

impl Grid {
    pub open spec fn steps_x(&self, o: Vec2, d: Vec2, cx: int, cy: int) -> bool {
        advances(
            axis_entry(o.x as int, d.x as int, cx, self.elem_w as int),
            d.x - o.x,
            axis_entry(o.y as int, d.y as int, cy, self.elem_h as int),
            d.y - o.y,
        )
    }

    pub open spec fn steps_y(&self, o: Vec2, d: Vec2, cx: int, cy: int) -> bool {
        advances(
            axis_entry(o.y as int, d.y as int, cy, self.elem_h as int),
            d.y - o.y,
            axis_entry(o.x as int, d.x as int, cx, self.elem_w as int),
            d.x - o.x,
        )
    }

    /// The point, on the segment from `o` to `d`, where the ray leaves cell `(cx, cy)`.
    pub open spec fn exit_point(&self, o: Vec2, d: Vec2, cx: int, cy: int) -> Vec2 {
        let nx = axis_entry(o.x as int, d.x as int, cx, self.elem_w as int);
        let ny = axis_entry(o.y as int, d.y as int, cy, self.elem_h as int);
        let px = if self.steps_x(o, d, cx, cy) {
            axis_boundary(o.x as int, d.x as int, cx, self.elem_w as int)
        } else {
            o.x + (ny * (d.x - o.x)) / abs(d.y - o.y)
        };
        let py = if self.steps_y(o, d, cx, cy) {
            axis_boundary(o.y as int, d.y as int, cy, self.elem_h as int)
        } else {
            o.y + (nx * (d.y - o.y)) / abs(d.x - o.x)
        };
        Vec2 { x: clamp32(px) as i32, y: clamp32(py) as i32 }
    }

    pub open spec fn next_cx(&self, o: Vec2, d: Vec2, cx: int, cy: int) -> int {
        if self.steps_x(o, d, cx, cy) {
            cx + axis_sign(o.x as int, d.x as int)
        } else {
            cx
        }
    }

    pub open spec fn next_cy(&self, o: Vec2, d: Vec2, cx: int, cy: int) -> int {
        if self.steps_y(o, d, cx, cy) {
            cy + axis_sign(o.y as int, d.y as int)
        } else {
            cy
        }
    }

    /// How many cell steps separate cell `(cx, cy)` from the cell of `d`.
    pub open spec fn march_dist(&self, d: Vec2, cx: int, cy: int) -> int {
        abs(cx - self.cell_x(d.x as int)) + abs(cy - self.cell_y(d.y as int))
    }

    /// Grid march from cell `(cx, cy)`, reached at point `p`, toward the cell of `d`:
    /// the point where the first cell that is not ground was entered, or `None`
    /// once the cell of `d` is reached over ground.
    pub open spec fn march(&self, o: Vec2, d: Vec2, cx: int, cy: int, p: Vec2) -> Option<Vec2>
        decreases self.march_dist(d, cx, cy),
    {
        if self.tile_at(cx, cy) != Some(Tile::Ground) {
            Some(p)
        } else if cx == self.cell_x(d.x as int) && cy == self.cell_y(d.y as int) {
            None
        } else {
            let ncx = self.next_cx(o, d, cx, cy);
            let ncy = self.next_cy(o, d, cx, cy);
            if 0 <= self.march_dist(d, ncx, ncy) < self.march_dist(d, cx, cy) {
                self.march(o, d, ncx, ncy, self.exit_point(o, d, cx, cy))
            } else {
                Some(p)
            }
        }
    }

    /// First obstruction on the segment from `o` to `d`.
    pub open spec fn ray_spec(&self, o: Vec2, d: Vec2) -> Option<Vec2> {
        self.march(o, d, self.cell_x(o.x as int), self.cell_y(o.y as int), o)
    }

    /// Whether cell `(cx, cy)` lies in the box spanned by the cells of `o` and `d`.
    pub open spec fn in_ray_box(&self, o: Vec2, d: Vec2, cx: int, cy: int) -> bool {
        &&& between(cx, self.cell_x(o.x as int), self.cell_x(d.x as int))
        &&& between(cy, self.cell_y(o.y as int), self.cell_y(d.y as int))
    }
}

impl Grid {
    /// The point where the segment from `ray_origin` to `ray_destination` first
    /// enters a cell that is not ground (the origin itself when its own cell is
    /// not), or `None` when the march reaches the destination's cell over ground.
    /// Cells outside the grid obstruct.
    pub fn raycast(&self, ray_origin: Vec2, ray_destination: Vec2) -> (r: Option<Vec2>)
        requires
            self.wf(),
        ensures
            r == self.ray_spec(ray_origin, ray_destination),
    {
        let o = ray_origin;
        let d = ray_destination;
        let (mut cx, mut cy) = self.get_xy_of_position(o);
        let (dcx, dcy) = self.get_xy_of_position(d);
        let mut p = o;
        let ew = self.elem_w as i128;
        let eh = self.elem_h as i128;
        let ux: i128 = d.x as i128 - o.x as i128;
        let uy: i128 = d.y as i128 - o.y as i128;
        let aux: i128 = if ux < 0 { -ux } else { ux };
        let auy: i128 = if uy < 0 { -uy } else { uy };
        loop
            invariant
                self.wf(),
                o == ray_origin,
                d == ray_destination,
                ew == self.elem_w,
                eh == self.elem_h,
                ux == d.x - o.x,
                uy == d.y - o.y,
                aux == abs(ux as int),
                auy == abs(uy as int),
                dcx == self.cell_x(d.x as int),
                dcy == self.cell_y(d.y as int),
                self.in_ray_box(o, d, cx as int, cy as int),
                self.march(o, d, cx as int, cy as int, p) == self.ray_spec(o, d),
            decreases self.march_dist(d, cx as int, cy as int),
        {
            match self.get_2d(cx, cy) {
                Some(Tile::Ground) => {},
                _ => {
                        return Some(p);
                },
            }
            if cx == dcx && cy == dcy {
                return None;
            }
            proof {
                lemma_march_progress(self, o, d, cx as int, cy as int);
                lemma_exit_bounds(cx as int, self.elem_w as int, o.x as int, uy as int);
                lemma_exit_bounds(cy as int, self.elem_h as int, o.y as int, ux as int);
                lemma_exit_bounds(cx as int, self.elem_w as int, o.x as int, auy as int);
                lemma_exit_bounds(cy as int, self.elem_h as int, o.y as int, aux as int);
            }
            let nx: i128 = if ux > 0 {
                (cx as i128 + 1) * ew - o.x as i128
            } else {
                o.x as i128 - cx as i128 * ew
            };
            let ny: i128 = if uy > 0 {
                (cy as i128 + 1) * eh - o.y as i128
            } else {
                o.y as i128 - cy as i128 * eh
            };
            let lhs: i128 = nx * auy;
            let rhs: i128 = ny * aux;
            let sx: bool = ux != 0 && (uy == 0 || lhs < rhs || (lhs == rhs && (ux > 0 || uy
                <= 0)));
            let sy: bool = uy != 0 && (ux == 0 || rhs < lhs || (lhs == rhs && (uy > 0 || ux
                <= 0)));
            let px: i128 = if sx {
                if ux > 0 {
                    (cx as i128 + 1) * ew
                } else {
                    cx as i128 * ew
                }
            } else {
                o.x as i128 + div_floor(ny * ux, auy)
            };
            let py: i128 = if sy {
                if uy > 0 {
                    (cy as i128 + 1) * eh
                } else {
                    cy as i128 * eh
                }
            } else {
                o.y as i128 + div_floor(nx * uy, aux)
            };
            p = Vec2 { x: clamp_to_i32(px), y: clamp_to_i32(py) };
            if sx {
                cx = if ux > 0 { cx + 1 } else { cx - 1 };
            }
            if sy {
                cy = if uy > 0 { cy + 1 } else { cy - 1 };
            }
        }
    }
}

/// A zero-length ray is clear exactly when its point lies on ground; otherwise
/// the point itself is reported.
pub proof fn lemma_zero_length_ray(g: &Grid, p: Vec2)
    requires
        g.wf(),
    ensures
        g.ray_spec(p, p) is None <==> g.tile_at(g.cell_x(p.x as int), g.cell_y(p.y as int)) == Some(
            Tile::Ground,
        ),
        g.tile_at(g.cell_x(p.x as int), g.cell_y(p.y as int)) != Some(Tile::Ground) ==> g.ray_spec(
            p,
            p,
        ) == Some(p),
{
}

/// A ray whose box of cells, from the origin's cell to the destination's, is all
/// ground finds no obstruction.
pub proof fn lemma_clear_box_ray(g: &Grid, o: Vec2, d: Vec2)
    requires
        g.wf(),
        forall|x: int, y: int| g.in_ray_box(o, d, x, y) ==> g.tile_at(x, y) == Some(Tile::Ground),
    ensures
        g.ray_spec(o, d) is None,
{
    lemma_clear_march(g, o, d, g.cell_x(o.x as int), g.cell_y(o.y as int), o);
}

proof fn lemma_clear_march(g: &Grid, o: Vec2, d: Vec2, cx: int, cy: int, p: Vec2)
    requires
        g.wf(),
        g.in_ray_box(o, d, cx, cy),
        forall|x: int, y: int| g.in_ray_box(o, d, x, y) ==> g.tile_at(x, y) == Some(Tile::Ground),
    ensures
        g.march(o, d, cx, cy, p) is None,
    decreases g.march_dist(d, cx, cy),
{
    if !(cx == g.cell_x(d.x as int) && cy == g.cell_y(d.y as int)) {
        lemma_march_progress(g, o, d, cx, cy);
        let ncx = g.next_cx(o, d, cx, cy);
        let ncy = g.next_cy(o, d, cx, cy);
        lemma_clear_march(g, o, d, ncx, ncy, g.exit_point(o, d, cx, cy));
    }
}

/// A ray that stays within one row meets every cell of that row between its
/// ends: any of them that is not ground is reported.
pub proof fn lemma_row_obstruction_found(g: &Grid, o: Vec2, d: Vec2, wx: int)
    requires
        g.wf(),
        g.cell_y(o.y as int) == g.cell_y(d.y as int),
        between(wx, g.cell_x(o.x as int), g.cell_x(d.x as int)),
        g.tile_at(wx, g.cell_y(d.y as int)) != Some(Tile::Ground),
    ensures
        g.ray_spec(o, d) is Some,
{
    lemma_row_march(g, o, d, g.cell_x(o.x as int), o, wx);
}

proof fn lemma_row_march(g: &Grid, o: Vec2, d: Vec2, cx: int, p: Vec2, wx: int)
    requires
        g.wf(),
        g.cell_y(o.y as int) == g.cell_y(d.y as int),
        between(cx, g.cell_x(o.x as int), g.cell_x(d.x as int)),
        between(wx, cx, g.cell_x(d.x as int)),
        g.tile_at(wx, g.cell_y(d.y as int)) != Some(Tile::Ground),
    ensures
        g.march(o, d, cx, g.cell_y(d.y as int), p) is Some,
    decreases g.march_dist(d, cx, g.cell_y(d.y as int)),
{
    let cy = g.cell_y(d.y as int);
    if g.tile_at(cx, cy) == Some(Tile::Ground) {
        lemma_march_progress(g, o, d, cx, cy);
        let ncx = g.next_cx(o, d, cx, cy);
        lemma_row_march(g, o, d, ncx, g.exit_point(o, d, cx, cy), wx);
    }
}

/// The near edge, along x, of column `wx` for a ray from `o` toward `d`.
pub open spec fn near_edge_x(g: Grid, o: Vec2, d: Vec2, wx: int) -> int {
    if d.x > o.x {
        wx * g.elem_w
    } else {
        (wx + 1) * g.elem_w
    }
}

/// The near edge, along y, of row `wy` for a ray from `o` toward `d`.
pub open spec fn near_edge_y(g: Grid, o: Vec2, d: Vec2, wy: int) -> int {
    if d.y > o.y {
        wy * g.elem_h
    } else {
        (wy + 1) * g.elem_h
    }
}

/// A horizontal ray reports the first cell of its row that is not ground: the
/// origin itself when that is the origin's cell, and otherwise the point where
/// the ray crosses that cell's near edge.
pub proof fn lemma_row_obstruction_point(g: &Grid, o: Vec2, d: Vec2, wx: int)
    requires
        g.wf(),
        o.y == d.y,
        between(wx, g.cell_x(o.x as int), g.cell_x(d.x as int)),
        g.tile_at(wx, g.cell_y(o.y as int)) != Some(Tile::Ground),
        forall|x: int|
            between(x, g.cell_x(o.x as int), wx) && x != wx ==> #[trigger] g.tile_at(
                x,
                g.cell_y(o.y as int),
            ) == Some(Tile::Ground),
    ensures
        g.ray_spec(o, d) == Some(
            if wx == g.cell_x(o.x as int) {
                o
            } else {
                Vec2 { x: clamp32(near_edge_x(*g, o, d, wx)) as i32, y: o.y }
            },
        ),
{
    lemma_row_point(g, o, d, g.cell_x(o.x as int), o, wx);
}

proof fn lemma_row_point(g: &Grid, o: Vec2, d: Vec2, cx: int, p: Vec2, wx: int)
    requires
        g.wf(),
        o.y == d.y,
        between(cx, g.cell_x(o.x as int), g.cell_x(d.x as int)),
        between(wx, cx, g.cell_x(d.x as int)),
        g.tile_at(wx, g.cell_y(o.y as int)) != Some(Tile::Ground),
        forall|x: int|
            between(x, cx, wx) && x != wx ==> #[trigger] g.tile_at(x, g.cell_y(o.y as int)) == Some(
                Tile::Ground,
            ),
    ensures
        g.march(o, d, cx, g.cell_y(d.y as int), p) == Some(
            if wx == cx {
                p
            } else {
                Vec2 { x: clamp32(near_edge_x(*g, o, d, wx)) as i32, y: o.y }
            },
        ),
    decreases g.march_dist(d, cx, g.cell_y(d.y as int)),
{
    let cy = g.cell_y(d.y as int);
    if cx != wx {
        assert(g.tile_at(cx, cy) == Some(Tile::Ground));
        lemma_march_progress(g, o, d, cx, cy);
        let ncx = g.next_cx(o, d, cx, cy);
        let q = g.exit_point(o, d, cx, cy);
        assert(q.y == o.y);
        if ncx == wx {
            assert(q.x == clamp32(near_edge_x(*g, o, d, wx)));
        }
        lemma_row_point(g, o, d, ncx, q, wx);
    }
}

/// A vertical ray reports the first cell of its column that is not ground:
/// the origin itself when that is the origin's cell, and otherwise the point
/// where the ray crosses that cell's near edge.
pub proof fn lemma_column_obstruction_point(g: &Grid, o: Vec2, d: Vec2, wy: int)
    requires
        g.wf(),
        o.x == d.x,
        between(wy, g.cell_y(o.y as int), g.cell_y(d.y as int)),
        g.tile_at(g.cell_x(o.x as int), wy) != Some(Tile::Ground),
        forall|y: int|
            between(y, g.cell_y(o.y as int), wy) && y != wy ==> #[trigger] g.tile_at(
                g.cell_x(o.x as int),
                y,
            ) == Some(Tile::Ground),
    ensures
        g.ray_spec(o, d) == Some(
            if wy == g.cell_y(o.y as int) {
                o
            } else {
                Vec2 { x: o.x, y: clamp32(near_edge_y(*g, o, d, wy)) as i32 }
            },
        ),
{
    lemma_column_point(g, o, d, g.cell_y(o.y as int), o, wy);
}

proof fn lemma_column_point(g: &Grid, o: Vec2, d: Vec2, cy: int, p: Vec2, wy: int)
    requires
        g.wf(),
        o.x == d.x,
        between(cy, g.cell_y(o.y as int), g.cell_y(d.y as int)),
        between(wy, cy, g.cell_y(d.y as int)),
        g.tile_at(g.cell_x(o.x as int), wy) != Some(Tile::Ground),
        forall|y: int|
            between(y, cy, wy) && y != wy ==> #[trigger] g.tile_at(g.cell_x(o.x as int), y) == Some(
                Tile::Ground,
            ),
    ensures
        g.march(o, d, g.cell_x(d.x as int), cy, p) == Some(
            if wy == cy {
                p
            } else {
                Vec2 { x: o.x, y: clamp32(near_edge_y(*g, o, d, wy)) as i32 }
            },
        ),
    decreases g.march_dist(d, g.cell_x(d.x as int), cy),
{
    let cx = g.cell_x(d.x as int);
    if cy != wy {
        assert(g.tile_at(cx, cy) == Some(Tile::Ground));
        lemma_march_progress(g, o, d, cx, cy);
        let ncy = g.next_cy(o, d, cx, cy);
        let q = g.exit_point(o, d, cx, cy);
        assert(q.x == o.x);
        if ncy == wy {
            assert(q.y == clamp32(near_edge_y(*g, o, d, wy)));
        }
        lemma_column_point(g, o, d, ncy, q, wy);
    }
}

/// A ray that stays within one column meets every cell of that column between
/// its ends: any of them that is not ground is reported.
pub proof fn lemma_column_obstruction_found(g: &Grid, o: Vec2, d: Vec2, wy: int)
    requires
        g.wf(),
        g.cell_x(o.x as int) == g.cell_x(d.x as int),
        between(wy, g.cell_y(o.y as int), g.cell_y(d.y as int)),
        g.tile_at(g.cell_x(d.x as int), wy) != Some(Tile::Ground),
    ensures
        g.ray_spec(o, d) is Some,
{
    lemma_column_march(g, o, d, g.cell_y(o.y as int), o, wy);
}

proof fn lemma_column_march(g: &Grid, o: Vec2, d: Vec2, cy: int, p: Vec2, wy: int)
    requires
        g.wf(),
        g.cell_x(o.x as int) == g.cell_x(d.x as int),
        between(cy, g.cell_y(o.y as int), g.cell_y(d.y as int)),
        between(wy, cy, g.cell_y(d.y as int)),
        g.tile_at(g.cell_x(d.x as int), wy) != Some(Tile::Ground),
    ensures
        g.march(o, d, g.cell_x(d.x as int), cy, p) is Some,
    decreases g.march_dist(d, g.cell_x(d.x as int), cy),
{
    let cx = g.cell_x(d.x as int);
    if g.tile_at(cx, cy) == Some(Tile::Ground) {
        lemma_march_progress(g, o, d, cx, cy);
        let ncy = g.next_cy(o, d, cx, cy);
        lemma_column_march(g, o, d, ncy, g.exit_point(o, d, cx, cy), wy);
    }
}

/// Bounds that keep the march's arithmetic within `i128`.
proof fn lemma_exit_bounds(c: int, e: int, oc: int, u: int)
    requires
        0 <= c < 0x8000_0000,
        0 < e < 0x8000_0000,
        -0x8000_0000 <= oc < 0x8000_0000,
        -0x1_0000_0000 <= u <= 0x1_0000_0000,
    ensures
        0 <= c * e <= (c + 1) * e <= 0x4000_0000_0000_0000,
        -0x8000_0000_0000_0000 <= (c + 1) * e - oc <= 0x8000_0000_0000_0000,
        -0x8000_0000_0000_0000 <= oc - c * e <= 0x8000_0000_0000_0000,
        -0x8000_0000_0000_0000_0000_0000 <= ((c + 1) * e - oc) * u <= 0x8000_0000_0000_0000_0000_0000,
        -0x8000_0000_0000_0000_0000_0000 <= (oc - c * e) * u <= 0x8000_0000_0000_0000_0000_0000,
{
    assert(0 <= c * e <= (c + 1) * e <= 0x4000_0000_0000_0000) by (nonlinear_arith)
        requires
            0 <= c < 0x8000_0000,
            0 < e < 0x8000_0000,
    ;
    let a = (c + 1) * e - oc;
    let b = oc - c * e;
    assert(-0x8000_0000_0000_0000_0000_0000 <= a * u <= 0x8000_0000_0000_0000_0000_0000)
        by (nonlinear_arith)
        requires
            -0x8000_0000_0000_0000 <= a <= 0x8000_0000_0000_0000,
            -0x1_0000_0000 <= u <= 0x1_0000_0000,
    ;
    assert(-0x8000_0000_0000_0000_0000_0000 <= b * u <= 0x8000_0000_0000_0000_0000_0000)
        by (nonlinear_arith)
        requires
            -0x8000_0000_0000_0000 <= b <= 0x8000_0000_0000_0000,
            -0x1_0000_0000 <= u <= 0x1_0000_0000,
    ;
}

/// Along one axis, a cell between the origin's and the destination's is left
/// within the segment exactly when it is not the destination's.
proof fn lemma_axis_entry(oc: int, dc: int, c: int, e: int)
    requires
        e > 0,
        between(c, oc / e, dc / e),
    ensures
        c != dc / e ==> {
            &&& dc != oc
            &&& axis_entry(oc, dc, c, e) < abs(dc - oc) || (axis_entry(oc, dc, c, e) == abs(dc - oc)
                && dc > oc)
            &&& (dc > oc <==> c < dc / e)
        },
        c == dc / e && dc != oc ==> axis_entry(oc, dc, c, e) > abs(dc - oc) || (axis_entry(
            oc,
            dc,
            c,
            e,
        ) == abs(dc - oc) && dc < oc),
{
    let cd = dc / e;
    let co = oc / e;
    assert(cd * e <= dc < (cd + 1) * e) by (nonlinear_arith)
        requires
            e > 0,
            cd == dc / e,
    {
        lemma_fundamental_div_mod(dc, e);
    }
    assert(co * e <= oc < (co + 1) * e) by (nonlinear_arith)
        requires
            e > 0,
            co == oc / e,
    {
        lemma_fundamental_div_mod(oc, e);
    }
    if dc > oc {
        assert(co <= cd) by {
            lemma_div_is_ordered(oc, dc, e);
        }
        if c < cd {
            assert((c + 1) * e <= cd * e) by (nonlinear_arith)
                requires
                    c + 1 <= cd,
                    e > 0,
            ;
        } else {
            assert(c == cd);
        }
    } else if dc < oc {
        assert(cd <= co) by {
            lemma_div_is_ordered(dc, oc, e);
        }
        if c > cd {
            assert((cd + 1) * e <= c * e) by (nonlinear_arith)
                requires
                    cd + 1 <= c,
                    e > 0,
            ;
        } else {
            assert(c == cd);
        }
    } else {
        assert(c == cd);
    }
}

/// An axis that exits within the segment moves before one that does not.
proof fn lemma_advances_first(n: int, u: int, m: int, v: int)
    requires
        u != 0,
        n < abs(u) || (n == abs(u) && u > 0),
        v == 0 || m > abs(v) || (m == abs(v) && v < 0),
    ensures
        advances(n, u, m, v),
        !advances(m, v, n, u),
{
    if v != 0 {
        let au = abs(u);
        let av = abs(v);
        if n < au {
            assert(n * av < au * av) by (nonlinear_arith)
                requires
                    n < au,
                    av > 0,
            ;
            assert(au * av <= m * au) by (nonlinear_arith)
                requires
                    m >= av,
                    au > 0,
            ;
        } else if m > av {
            assert(au * av < m * au) by (nonlinear_arith)
                requires
                    m > av,
                    au > 0,
            ;
            assert(n * av == au * av);
        } else {
            assert(n * av == m * au) by (nonlinear_arith)
                requires
                    n == au,
                    m == av,
            ;
        }
    }
}

/// A march that has not reached the destination's cell moves on, one cell
/// closer along each axis that moves, and stays in the ray's box.
proof fn lemma_march_progress(g: &Grid, o: Vec2, d: Vec2, cx: int, cy: int)
    requires
        g.wf(),
        g.in_ray_box(o, d, cx, cy),
        !(cx == g.cell_x(d.x as int) && cy == g.cell_y(d.y as int)),
    ensures
        g.steps_x(o, d, cx, cy) || g.steps_y(o, d, cx, cy),
        g.steps_x(o, d, cx, cy) ==> d.x != o.x,
        g.steps_y(o, d, cx, cy) ==> d.y != o.y,
        g.steps_y(o, d, cx, cy) ==> cy != g.cell_y(d.y as int),
        g.steps_x(o, d, cx, cy) ==> cx != g.cell_x(d.x as int),
        g.in_ray_box(o, d, g.next_cx(o, d, cx, cy), g.next_cy(o, d, cx, cy)),
        0 <= g.march_dist(d, g.next_cx(o, d, cx, cy), g.next_cy(o, d, cx, cy)) < g.march_dist(
            d,
            cx,
            cy,
        ),
{
    let ew = g.elem_w as int;
    let eh = g.elem_h as int;
    let nx = axis_entry(o.x as int, d.x as int, cx, ew);
    let ny = axis_entry(o.y as int, d.y as int, cy, eh);
    let ux = d.x - o.x;
    let uy = d.y - o.y;
    lemma_axis_entry(o.x as int, d.x as int, cx, ew);
    lemma_axis_entry(o.y as int, d.y as int, cy, eh);
    let tx = g.cell_x(d.x as int);
    let ty = g.cell_y(d.y as int);
    if cx != tx && cy == ty {
        lemma_advances_first(nx, ux, ny, uy);
    } else if cx == tx && cy != ty {
        lemma_advances_first(ny, uy, nx, ux);
    } else {
        assert(ux != 0 && uy != 0);
    }
}

pub(crate) proof fn lemma_cell_index(x: int, y: int, w: int, h: int)
    requires
        0 <= x < w,
        0 <= y < h,
    ensures
        0 <= x + y * w < w * h,
        y * w <= (h - 1) * w,
{
    assert(y * w <= (h - 1) * w) by (nonlinear_arith)
        requires
            0 <= y <= h - 1,
            0 <= w,
    ;
    assert((h - 1) * w + w == w * h) by (nonlinear_arith);
}

proof fn lemma_product_fits(a: int, b: int)
    requires
        i32::MIN <= a <= i32::MAX,
        i32::MIN <= b <= i32::MAX,
    ensures
        i128::MIN < a * b < i128::MAX,
{
    assert(-0x8000_0000_0000_0000 <= a * b <= 0x4000_0000_0000_0000) by (nonlinear_arith)
        requires
            -0x8000_0000 <= a <= 0x7fff_ffff,
            -0x8000_0000 <= b <= 0x7fff_ffff,
    ;
}

proof fn lemma_cell_coord_fits(p: int, e: int)
    requires
        i32::MIN <= p <= i32::MAX,
        0 < e,
    ensures
        i32::MIN <= p / e <= i32::MAX,
{
    if p >= 0 {
        assert(p / e <= p) by (nonlinear_arith)
            requires
                p >= 0,
                e > 0,
        ;
        assert(p / e >= 0) by (nonlinear_arith)
            requires
                p >= 0,
                e > 0,
        ;
    } else {
        assert(p / e >= p) by (nonlinear_arith)
            requires
                p < 0,
                e > 0,
        ;
        assert(p / e < 0) by (nonlinear_arith)
            requires
                p < 0,
                e > 0,
        ;
    }
}

} // verus!
