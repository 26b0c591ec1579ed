use vstd::prelude::*;
use vstd::arithmetic::div_mod::lemma_fundamental_div_mod;
use vstd::arithmetic::div_mod::lemma_fundamental_div_mod_converse;

verus! {

/// Length units in one world unit; a unit direction vector has this length.
pub const UNIT: i32 = 1_000_000;

/// Microseconds in one second.
pub const MICROS_PER_SECOND: i64 = 1_000_000;

/// The integer nearest to `v` that an `i32` can hold.
pub open spec fn clamp32(v: int) -> int {
    if v < i32::MIN {
        i32::MIN as int
    } else if v > i32::MAX {
        i32::MAX as int
    } else {
        v
    }
}

/// Saturates a wide value into the `i32` range.
pub fn clamp_to_i32(v: i128) -> (r: i32)
    ensures
        r == clamp32(v as int),
{
    if v < i32::MIN as i128 {
        i32::MIN
    } else if v > i32::MAX as i128 {
        i32::MAX
    } else {
        v as i32
    }
}

/// Division rounding toward negative infinity (the spec `/` for a positive divisor).
pub fn div_floor(a: i128, b: i128) -> (r: i128)
    requires
        b > 0,
        a > i128::MIN,
    ensures
        r == a / b,
        a >= 0 ==> 0 <= r <= a,
        a < 0 ==> a <= r < 0,
{
    if a >= 0 {
        assert(a / b <= a) by (nonlinear_arith)
            requires
                a >= 0,
                b > 0,
        ;
        assert(a / b >= 0) by (nonlinear_arith)
            requires
                a >= 0,
                b > 0,
        ;
        a / b
    } else {
        let n: i128 = -a - 1;
        let q: i128 = n / b;
        proof {
            lemma_fundamental_div_mod(n as int, b as int);
            let rem = n as int % b as int;
            assert(q as int == n as int / b as int);
            assert(a as int == (-(q as int) - 1) * (b as int) + (b - 1 - rem)) by (nonlinear_arith)
                requires
                    n == b * q + rem,
                    a == -n - 1,
            ;
            lemma_fundamental_div_mod_converse(a as int, b as int, -(q as int) - 1, b - 1 - rem);
            assert(q <= n) by (nonlinear_arith)
                requires
                    n >= 0,
                    b > 0,
                    q == n / b,
            ;
            assert(q >= 0) by (nonlinear_arith)
                requires
                    n >= 0,
                    b > 0,
                    q == n / b,
            ;
        }
        -q - 1
    }
}

/// The absolute value of `v`.
pub open spec fn abs(v: int) -> int {
    if v < 0 {
        -v
    } else {
        v
    }
}

/// Whether `v` lies between `a` and `b`, both included, in either order.
pub open spec fn between(v: int, a: int, b: int) -> bool {
    (a <= v <= b) || (b <= v <= a)
}

/// A point or a vector, in length units.
#[derive(Clone, Copy, Debug, PartialEq, Eq, Structural)]
pub struct Vec2 {
    pub x: i32,
    pub y: i32,
}

impl Vec2 {
    pub fn new(x: i32, y: i32) -> (r: Vec2)
        ensures
            r.x == x,
            r.y == y,
    {
        Vec2 { x, y }
    }

    pub fn zero() -> (r: Vec2)
        ensures
            r.x == 0,
            r.y == 0,
    {
        Vec2 { x: 0, y: 0 }
    }
}

/// An axis-aligned rectangle: top-left corner `(x, y)`, size `(w, h)`; `y` grows downward.
#[derive(Clone, Copy, Debug, PartialEq, Eq, Structural)]
pub struct Rect {
    pub x: i32,
    pub y: i32,
    pub w: i32,
    pub h: i32,
}

impl Rect {
    pub open spec fn left(self) -> int {
        self.x as int
    }

    pub open spec fn right(self) -> int {
        self.x + self.w
    }

    pub open spec fn top(self) -> int {
        self.y as int
    }

    pub open spec fn bot(self) -> int {
        self.y + self.h
    }

    pub open spec fn center_spec(self) -> Vec2 {
        Vec2 {
            x: clamp32(self.x + self.w / 2) as i32,
            y: clamp32(self.y + self.h / 2) as i32,
        }
    }

    pub open spec fn centered_spec(cx: i32, cy: i32, w: i32, h: i32) -> Rect {
        Rect { x: clamp32(cx - w / 2) as i32, y: clamp32(cy - h / 2) as i32, w, h }
    }

    pub fn new(x: i32, y: i32, w: i32, h: i32) -> (r: Rect)
        ensures
            r == (Rect { x, y, w, h }),
    {
        Rect { x, y, w, h }
    }

    /// The rectangle of size `(w, h)` centred on `(cx, cy)`, its corner kept in range.
    pub fn new_centered(cx: i32, cy: i32, w: i32, h: i32) -> (r: Rect)
        ensures
            r == Rect::centered_spec(cx, cy, w, h),
    {
        let hw = div_floor(w as i128, 2);
        let hh = div_floor(h as i128, 2);
        Rect { x: clamp_to_i32(cx as i128 - hw), y: clamp_to_i32(cy as i128 - hh), w, h }
    }

    pub fn center(&self) -> (r: Vec2)
        ensures
            r == self.center_spec(),
    {
        let hw = div_floor(self.w as i128, 2);
        let hh = div_floor(self.h as i128, 2);
        Vec2 { x: clamp_to_i32(self.x as i128 + hw), y: clamp_to_i32(self.y as i128 + hh) }
    }

    pub fn left_edge(&self) -> (r: i64)
        ensures
            r == self.left(),
    {
        self.x as i64
    }

    pub fn right_edge(&self) -> (r: i64)
        ensures
            r == self.right(),
    {
        self.x as i64 + self.w as i64
    }

    pub fn top_edge(&self) -> (r: i64)
        ensures
            r == self.top(),
    {
        self.y as i64
    }

    pub fn bot_edge(&self) -> (r: i64)
        ensures
            r == self.bot(),
    {
        self.y as i64 + self.h as i64
    }
}

/// Two rectangles overlap when their interiors share a point.
pub open spec fn overlaps(a: Rect, b: Rect) -> bool {
    &&& a.left() < b.right()
    &&& b.left() < a.right()
    &&& a.top() < b.bot()
    &&& b.top() < a.bot()
}

pub fn rect_intersection(a: Rect, b: Rect) -> (r: bool)
    ensures
        r == overlaps(a, b),
{
    a.left_edge() < b.right_edge() && b.left_edge() < a.right_edge() && a.top_edge()
        < b.bot_edge() && b.top_edge() < a.bot_edge()
}

/// Angle units in a full turn.
pub const TURN: i32 = 65536;

/// Whether `r` is the integer square root of `n`.
pub open spec fn is_isqrt(r: int, n: int) -> bool {
    r >= 0 && r * r <= n < (r + 1) * (r + 1)
}

/// The integer square root of `n`.
pub open spec fn isqrt(n: int) -> int {
    choose|r: int| is_isqrt(r, n)
}

proof fn lemma_isqrt_unique(r: int, n: int)
    requires
        is_isqrt(r, n),
    ensures
        isqrt(n) == r,
{
    let q = isqrt(n);
    assert(is_isqrt(q, n));
    assert(q < r + 1) by (nonlinear_arith)
        requires
            q >= 0,
            r >= 0,
            q * q <= n,
            n < (r + 1) * (r + 1),
    ;
    assert(r < q + 1) by (nonlinear_arith)
        requires
            q >= 0,
            r >= 0,
            r * r <= n,
            n < (q + 1) * (q + 1),
    ;
}

/// Integer square root, by bisection.
pub fn isqrt_u64(n: u64) -> (r: u64)
    ensures
        r == isqrt(n as int),
        is_isqrt(r as int, n as int),
        r <= 0x1_0000_0000,
{
    let mut lo: u128 = 0;
    let mut hi: u128 = 0x1_0000_0000;
    assert(hi * hi > n) by (nonlinear_arith)
        requires
            hi == 0x1_0000_0000,
            n < 0x1_0000_0000_0000_0000,
    ;
    while hi - lo > 1
        invariant
            lo < hi <= 0x1_0000_0000,
            lo * lo <= n,
            n < hi * hi,
        decreases hi - lo,
    {
        let mid: u128 = lo + (hi - lo) / 2;
        assert(mid * mid <= 0x1_0000_0000_0000_0000) by (nonlinear_arith)
            requires
                mid <= 0x1_0000_0000,
        ;
        if mid * mid <= n as u128 {
            lo = mid;
        } else {
            hi = mid;
        }
    }
    proof {
        assert(hi == lo + 1);
        lemma_isqrt_unique(lo as int, n as int);
    }
    lo as u64
}

/// The squared length of `v`.
pub open spec fn len_sq(v: Vec2) -> int {
    v.x * v.x + v.y * v.y
}

/// `v` scaled to length `UNIT` (rounded down per axis); the zero vector stays zero.
pub open spec fn normalize_spec(v: Vec2) -> Vec2 {
    if v.x == 0 && v.y == 0 {
        v
    } else {
        let len = isqrt(len_sq(v));
        Vec2 {
            x: clamp32((v.x * UNIT) / len) as i32,
            y: clamp32((v.y * UNIT) / len) as i32,
        }
    }
}

pub fn normalize(v: Vec2) -> (r: Vec2)
    ensures
        r == normalize_spec(v),
{
    if v.x == 0 && v.y == 0 {
        return v;
    }
    let x = v.x as i64;
    let y = v.y as i64;
    assert(0 <= x * x <= 0x4000_0000_0000_0000 && 0 <= y * y <= 0x4000_0000_0000_0000)
        by (nonlinear_arith)
        requires
            -0x8000_0000 <= x <= 0x7fff_ffff,
            -0x8000_0000 <= y <= 0x7fff_ffff,
    ;
    let sq: u64 = (x * x) as u64 + (y * y) as u64;
    let len = isqrt_u64(sq);
    proof {
        assert(len > 0) by (nonlinear_arith)
            requires
                is_isqrt(len as int, sq as int),
                sq == x * x + y * y,
                x != 0 || y != 0,
        {
            if len == 0 {
                assert(sq < 1);
                if x != 0 {
                    assert(x * x > 0);
                }
                if y != 0 {
                    assert(y * y > 0);
                }
            }
        }
        assert(-0x80_0000_0000_0000 <= x * 1_000_000 <= 0x80_0000_0000_0000) by (nonlinear_arith)
            requires
                -0x8000_0000 <= x <= 0x7fff_ffff,
        ;
        assert(-0x80_0000_0000_0000 <= y * 1_000_000 <= 0x80_0000_0000_0000) by (nonlinear_arith)
            requires
                -0x8000_0000 <= y <= 0x7fff_ffff,
        ;
    }
    let nx = div_floor(x as i128 * UNIT as i128, len as i128);
    let ny = div_floor(y as i128 * UNIT as i128, len as i128);
    Vec2 { x: clamp_to_i32(nx), y: clamp_to_i32(ny) }
}

/// The direction `dir` (of length about `UNIT`) scaled to length `speed`.
pub open spec fn scale_spec(dir: Vec2, speed: int) -> Vec2 {
    Vec2 {
        x: clamp32((dir.x * speed) / (UNIT as int)) as i32,
        y: clamp32((dir.y * speed) / (UNIT as int)) as i32,
    }
}

pub fn mul_scalar(dir: Vec2, speed: i32) -> (r: Vec2)
    ensures
        r == scale_spec(dir, speed as int),
{
    proof {
        lemma_i32_product(dir.x as int, speed as int);
        lemma_i32_product(dir.y as int, speed as int);
    }
    let x = div_floor(dir.x as i128 * speed as i128, UNIT as i128);
    let y = div_floor(dir.y as i128 * speed as i128, UNIT as i128);
    Vec2 { x: clamp_to_i32(x), y: clamp_to_i32(y) }
}

pub proof fn lemma_i32_product(a: int, b: int)
    requires
        i32::MIN <= a <= i32::MAX,
        i32::MIN <= b <= i32::MAX,
    ensures
        -0x4000_0000_0000_0000 <= a * b <= 0x4000_0000_0000_0000,
{
    assert(-0x4000_0000_0000_0000 <= a * b <= 0x4000_0000_0000_0000) by (nonlinear_arith)
        requires
            -0x8000_0000 <= a <= 0x7fff_ffff,
            -0x8000_0000 <= b <= 0x7fff_ffff,
    ;
}

/// Bhaskara's rational approximation of the sine of half-turn fraction `x / half`,
/// for `0 <= x <= half`, scaled by `UNIT`.
pub open spec fn bhaskara(x: int) -> int {
    let half = TURN / 2;
    (16 * x * (half - x) * UNIT) / (5 * half * half - 4 * x * (half - x))
}

/// Sine of angle `a` (in units of `TURN` per turn), scaled by `UNIT`, by
/// Bhaskara's approximation (within about 0.2% of `UNIT` of the true value).
pub open spec fn sin_spec(a: int) -> int {
    let r = a % (TURN as int);
    if r < TURN / 2 {
        bhaskara(r)
    } else {
        -bhaskara(r - TURN / 2)
    }
}

/// Cosine of angle `a`, scaled by `UNIT`: the approximate sine a quarter turn on.
pub open spec fn cos_spec(a: int) -> int {
    sin_spec(a + TURN / 4)
}

fn bhaskara_exec(x: i64) -> (r: i64)
    requires
        0 <= x <= TURN / 2,
    ensures
        r == bhaskara(x as int),
        0 <= r <= 0x10_0000_0000_0000,
{
    let half: i64 = (TURN / 2) as i64;
    assert(0 <= x * (half - x) <= half * half) by (nonlinear_arith)
        requires
            0 <= x <= half,
            half == 32768,
    ;
    let p: i64 = x * (half - x);
    let num: i64 = 16 * p * (UNIT as i64);
    let den: i64 = 5 * half * half - 4 * p;
    let r = num / den;
    proof {
        assert(16 * x * (half - x) * UNIT == num) by (nonlinear_arith)
            requires
                p == x * (half - x),
                num == 16 * p * 1_000_000,
        ;
        assert(4 * x * (half - x) == 4 * p) by (nonlinear_arith)
            requires
                p == x * (half - x),
        ;
        assert(half * half == 0x4000_0000 && 5 * half * half == 0x1_4000_0000) by (nonlinear_arith)
            requires
                half == 32768,
        ;
        assert(4 * p <= half * half) by (nonlinear_arith)
            requires
                p == x * (half - x),
        {
            assert((half - 2 * x) * (half - 2 * x) >= 0);
        }
        assert(den >= 0x1_0000_0000);
        lemma_fundamental_div_mod(num as int, den as int);
        assert(0 <= r <= 0x10_0000_0000_0000) by (nonlinear_arith)
            requires
                num >= 0,
                num <= 0x40_0000_0000_0000,
                den >= 0x1_0000_0000,
                r == num / den,
                num == den * r + num % den,
                0 <= num % den < den,
        ;
    }
    r
}

pub fn sin_approx(a: i32) -> (r: i64)
    ensures
        r == sin_spec(a as int),
        -0x10_0000_0000_0000 <= r <= 0x10_0000_0000_0000,
{
    let t = TURN as i64;
    let m = (a as i64) % t;
    let red: i64 = if m < 0 { m + t } else { m };
    proof {
        assert(red == (a as int) % (TURN as int)) by {
            lemma_fundamental_div_mod(a as int, TURN as int);
        }
    }
    if red < t / 2 {
        bhaskara_exec(red)
    } else {
        -bhaskara_exec(red - t / 2)
    }
}

pub fn cos_approx(a: i32) -> (r: i64)
    ensures
        r == cos_spec(a as int),
        -0x10_0000_0000_0000 <= r <= 0x10_0000_0000_0000,
{
    let t = TURN as i64;
    let m = (a as i64 + t / 4) % t;
    let red: i64 = if m < 0 { m + t } else { m };
    proof {
        assert(red == (a + TURN / 4) % (TURN as int)) by {
            lemma_fundamental_div_mod(a + TURN / 4, TURN as int);
        }
    }
    if red < t / 2 {
        bhaskara_exec(red)
    } else {
        -bhaskara_exec(red - t / 2)
    }
}

/// The direction at angle `a`: the approximate `(sin a, cos a)`, scaled by `UNIT`.
pub open spec fn heading_spec(a: int) -> Vec2 {
    Vec2 { x: clamp32(sin_spec(a)) as i32, y: clamp32(cos_spec(a)) as i32 }
}

pub fn heading(a: i32) -> (r: Vec2)
    ensures
        r == heading_spec(a as int),
{
    Vec2 { x: clamp_to_i32(sin_approx(a) as i128), y: clamp_to_i32(cos_approx(a) as i128) }
}

/// `v` turned by angle `a`.
pub open spec fn rotate_spec(v: Vec2, a: int) -> Vec2 {
    let c = cos_spec(a);
    let s = sin_spec(a);
    Vec2 {
        x: clamp32((v.x * c - v.y * s) / (UNIT as int)) as i32,
        y: clamp32((v.x * s + v.y * c) / (UNIT as int)) as i32,
    }
}

pub fn rotate(v: Vec2, a: i32) -> (r: Vec2)
    ensures
        r == rotate_spec(v, a as int),
{
    let c = cos_approx(a) as i128;
    let s = sin_approx(a) as i128;
    let x = v.x as i128;
    let y = v.y as i128;
    proof {
        assert(-0x10_0000_0000_0000_0000_0000 <= x * c <= 0x10_0000_0000_0000_0000_0000
            && -0x10_0000_0000_0000_0000_0000 <= x * s <= 0x10_0000_0000_0000_0000_0000
            && -0x10_0000_0000_0000_0000_0000 <= y * c <= 0x10_0000_0000_0000_0000_0000
            && -0x10_0000_0000_0000_0000_0000 <= y * s <= 0x10_0000_0000_0000_0000_0000)
            by (nonlinear_arith)
            requires
                -0x8000_0000 <= x <= 0x8000_0000,
                -0x8000_0000 <= y <= 0x8000_0000,
                -0x10_0000_0000_0000 <= c <= 0x10_0000_0000_0000,
                -0x10_0000_0000_0000 <= s <= 0x10_0000_0000_0000,
        ;
    }
    let rx = div_floor(x * c - y * s, UNIT as i128);
    let ry = div_floor(x * s + y * c, UNIT as i128);
    Vec2 { x: clamp_to_i32(rx), y: clamp_to_i32(ry) }
}

} // verus!
