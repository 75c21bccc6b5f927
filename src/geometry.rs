//! Planar vectors in milli-units, bounds of the play area and the circle test.

use vstd::prelude::*;

verus! {

/// Milli-units in one world unit.
pub const UNIT: i64 = 1000;

/// Largest magnitude of a coordinate, in milli-units.
pub const LIMIT: i64 = 1_099_511_627_776;

/// `v` held within `[lo, hi]`.
pub open spec fn clamp_int(v: int, lo: int, hi: int) -> int {
    if v < lo {
        lo
    } else if v > hi {
        hi
    } else {
        v
    }
}

/// `v` held within the coordinate range.
pub open spec fn saturated(v: int) -> int {
    clamp_int(v, -LIMIT as int, LIMIT as int)
}

/// A coordinate or a magnitude that lies within the coordinate range.
pub open spec fn in_range(v: int) -> bool {
    -LIMIT <= v <= LIMIT
}

/// A 2D vector in milli-units.
#[derive(Clone, Copy, Debug, PartialEq, Eq, Structural)]
pub struct Vec2 {
    pub x: i64,
    pub y: i64,
}

/// Squared distance between the centres `a` and `b`.
pub open spec fn dist2(a: Vec2, b: Vec2) -> int {
    (a.x - b.x) * (a.x - b.x) + (a.y - b.y) * (a.y - b.y)
}

impl Vec2 {
    /// Both coordinates lie within the coordinate range.
    pub open spec fn wf(self) -> bool {
        in_range(self.x as int) && in_range(self.y as int)
    }

    pub fn new(x: i64, y: i64) -> (r: Vec2)
        ensures
            r.x == x,
            r.y == y,
    {
        Vec2 { x, y }
    }

    pub fn zero() -> (r: Vec2)
        ensures
            r.x == 0,
            r.y == 0,
            r.wf(),
    {
        Vec2 { x: 0, y: 0 }
    }

    /// Component-wise sum, held within the coordinate range.
    pub open spec fn plus_spec(self, o: Vec2) -> Vec2 {
        Vec2 { x: saturated(self.x + o.x) as i64, y: saturated(self.y + o.y) as i64 }
    }

    /// Component-wise sum, held within the coordinate range.
    pub fn plus(self, o: Vec2) -> (r: Vec2)
        requires
            self.wf(),
            o.wf(),
        ensures
            r == self.plus_spec(o),
            r.x == saturated(self.x + o.x),
            r.y == saturated(self.y + o.y),
            r.wf(),
    {
        Vec2 { x: saturate(self.x + o.x), y: saturate(self.y + o.y) }
    }
}

/// `v` held within the coordinate range.
pub fn saturate(v: i64) -> (r: i64)
    ensures
        r == saturated(v as int),
        in_range(r as int),
{
    if v < -LIMIT {
        -LIMIT
    } else if v > LIMIT {
        LIMIT
    } else {
        v
    }
}

/// `v` held within `[-bound, bound]`, as `v.min(bound).max(-bound)` does.
pub open spec fn clamp_sym(v: int, bound: int) -> int {
    let m = if v < bound { v } else { bound };
    if m > -bound { m } else { -bound }
}

/// Holds `v` within `[-bound, bound]`; a negative bound gives `-bound`.
pub fn clamp_symmetric(v: i64, bound: i64) -> (r: i64)
    requires
        in_range(bound as int),
    ensures
        r == clamp_sym(v as int, bound as int),
        bound >= 0 ==> -bound <= r <= bound,
        bound >= 0 && -bound <= v <= bound ==> r == v,
{
    let m = if v < bound { v } else { bound };
    if m > -bound { m } else { -bound }
}

/// `v / d`, rounded towards negative infinity.
pub fn div_floor(v: i64, d: i64) -> (r: i64)
    requires
        d > 0,
        -4 * LIMIT <= v <= 4 * LIMIT,
    ensures
        r == v as int / d as int,
{
    proof {
        let q = v as int / d as int;
        let m = v as int % d as int;
        vstd::arithmetic::div_mod::lemma_fundamental_div_mod(v as int, d as int);
        assert(-4 * LIMIT <= q <= 4 * LIMIT) by (nonlinear_arith)
            requires
                d * q + m == v,
                0 <= m < d,
                d >= 1,
                -4 * LIMIT <= v <= 4 * LIMIT,
        ;
    }
    match v.checked_div_euclid(d) {
        Some(q) => q,
        None => 0,
    }
}

/// Extent within which a sprite of size `sprite` stays wholly inside a region
/// of size `dimension`, measured from the centre: `(dimension - sprite) / 2`.
pub fn inner_bound(dimension: i64, sprite: i64) -> (r: i64)
    requires
        0 <= dimension <= LIMIT,
        0 <= sprite <= LIMIT,
    ensures
        r == (dimension - sprite) / 2,
        in_range(r as int),
{
    div_floor(dimension - sprite, 2)
}

/// Extent beyond which a sprite of size `sprite` lies wholly outside a region
/// of size `dimension`, measured from the centre: `(dimension + sprite) / 2`.
pub fn outer_bound(dimension: i64, sprite: i64) -> (r: i64)
    requires
        0 <= dimension <= LIMIT,
        0 <= sprite <= LIMIT,
    ensures
        r == (dimension + sprite) / 2,
        0 <= r <= LIMIT,
{
    div_floor(dimension + sprite, 2)
}

/// Squared distance between two points.
pub fn distance_squared(a: Vec2, b: Vec2) -> (r: i128)
    requires
        a.wf(),
        b.wf(),
    ensures
        r == dist2(a, b),
{
    let dx: i128 = a.x as i128 - b.x as i128;
    let dy: i128 = a.y as i128 - b.y as i128;
    assert(dx * dx <= 0x40_0000_0000_0000_0000_0000) by (nonlinear_arith)
        requires
            -0x200_0000_0000 <= dx <= 0x200_0000_0000,
    ;
    assert(dy * dy <= 0x40_0000_0000_0000_0000_0000) by (nonlinear_arith)
        requires
            -0x200_0000_0000 <= dy <= 0x200_0000_0000,
    ;
    assert(0 <= dx * dx && 0 <= dy * dy) by (nonlinear_arith);
    dx * dx + dy * dy
}

/// Two circles overlap: the squared distance of their centres is below the
/// square of the sum of their radii.
pub open spec fn overlapping(a: Vec2, ra: int, b: Vec2, rb: int) -> bool {
    dist2(a, b) < (ra + rb) * (ra + rb)
}

/// Circle-circle overlap test, without a square root.
pub fn circles_overlap(a: Vec2, ra: i64, b: Vec2, rb: i64) -> (r: bool)
    requires
        a.wf(),
        b.wf(),
        0 <= ra <= LIMIT,
        0 <= rb <= LIMIT,
    ensures
        r == overlapping(a, ra as int, b, rb as int),
{
    let d = distance_squared(a, b);
    let s: i128 = ra as i128 + rb as i128;
    assert(0 <= s * s <= 0x40_0000_0000_0000_0000_0000) by (nonlinear_arith)
        requires
            0 <= s <= 0x200_0000_0000,
    ;
    d < s * s
}

/// A length scaled by a factor given in thousandths.
pub open spec fn scaled(len: int, scale: int) -> int {
    len * scale / 1000
}

/// The scale at which every sprite is drawn, in thousandths.
pub const SPRITE_SCALE: u32 = 1500;

/// Largest scale factor, in thousandths.
pub const MAX_SCALE: u32 = 1_000_000;

/// Uniform scale applied to every sprite, in thousandths (1500 is 1.5).
#[derive(Clone, Copy, Debug, PartialEq, Eq, Structural)]
pub struct SpriteScale {
    pub scale: u32,
}

impl SpriteScale {
    pub fn new(scale: u32) -> (r: SpriteScale)
        ensures
            r.scale == scale,
    {
        SpriteScale { scale }
    }

    pub open spec fn wf(self) -> bool {
        self.scale <= MAX_SCALE
    }

    /// `len` scaled by this factor.
    pub fn apply(&self, len: i64) -> (r: i64)
        requires
            self.wf(),
            0 <= len <= 1_000_000_000,
        ensures
            r == scaled(len as int, self.scale as int),
            0 <= r <= LIMIT,
    {
        assert(0 <= len * self.scale <= 1_000_000_000 * 1_000_000) by (nonlinear_arith)
            requires
                0 <= len <= 1_000_000_000,
                0 <= self.scale <= 1_000_000,
        ;
        let p: i64 = len * (self.scale as i64);
        p / 1000
    }
}

/// The scaled extent of a sprite.
#[derive(Clone, Copy, Debug, PartialEq, Eq, Structural)]
pub struct SpriteSize {
    pub width: i64,
    pub height: i64,
}

/// Largest unscaled sprite side, in milli-units.
pub const MAX_SPRITE: i64 = 1_000_000_000;

impl SpriteSize {
    /// The extent of a `width` by `height` sprite drawn at `scale`.
    pub fn new(width: i64, height: i64, scale: SpriteScale) -> (r: SpriteSize)
        requires
            scale.wf(),
            0 <= width <= MAX_SPRITE,
            0 <= height <= MAX_SPRITE,
        ensures
            r.width == scaled(width as int, scale.scale as int),
            r.height == scaled(height as int, scale.scale as int),
            r.wf(),
    {
        SpriteSize { width: scale.apply(width), height: scale.apply(height) }
    }

    pub open spec fn wf(self) -> bool {
        0 <= self.width <= LIMIT && 0 <= self.height <= LIMIT
    }
}

/// The size of the viewport, in milli-units.
#[derive(Clone, Copy, Debug, PartialEq, Eq, Structural)]
pub struct WindowSize {
    pub width: i64,
    pub height: i64,
}

impl WindowSize {
    pub open spec fn wf(self) -> bool {
        0 <= self.width <= LIMIT && 0 <= self.height <= LIMIT
    }

    /// The window of the given size, if both sides lie in the coordinate range.
    pub fn from_window(width: i64, height: i64) -> (r: Option<WindowSize>)
        ensures
            r.is_some() <==> (0 <= width <= LIMIT && 0 <= height <= LIMIT),
            r matches Some(w) ==> w.width == width && w.height == height && w.wf(),
    {
        if 0 <= width && width <= LIMIT && 0 <= height && height <= LIMIT {
            Some(WindowSize { width, height })
        } else {
            None
        }
    }
}


/// Whole degrees in a turn.
pub const TURN: i64 = 360;

/// `angle` reduced to `[0, 360)`.
pub open spec fn turn_index(angle: int) -> int {
    angle % 360
}

/// Unit vectors in milli-units for each whole degree counted anticlockwise
/// from the positive x axis. Trigonometry is done once by whoever builds the
/// table; every direction used by the simulation is read from it.
#[derive(Debug)]
pub struct Compass {
    pub dirs: Vec<Vec2>,
}

/// `v / 1000`, rounded towards zero.
pub open spec fn milli_of(v: int) -> int {
    if v >= 0 {
        v / 1000
    } else {
        -((-v) / 1000)
    }
}

/// A vector of `speed` along direction `dir` (a unit vector in milli-units),
/// each component rounded towards zero.
pub open spec fn along(dir: Vec2, speed: int) -> Vec2 {
    Vec2 { x: milli_of(dir.x * speed) as i64, y: milli_of(dir.y * speed) as i64 }
}

/// `d` is at most one unit long.
pub open spec fn unit_bounded(d: Vec2) -> bool {
    &&& -UNIT <= d.x <= UNIT
    &&& -UNIT <= d.y <= UNIT
    &&& d.x * d.x + d.y * d.y <= UNIT * UNIT
}

/// A table of 360 directions, none longer than a unit, with the four axis
/// directions exact.
pub open spec fn compass_table(dirs: Seq<Vec2>) -> bool {
    &&& dirs.len() == 360
    &&& forall|i: int| 0 <= i < 360 ==> unit_bounded(#[trigger] dirs[i])
    &&& dirs[0] == Vec2 { x: UNIT, y: 0 }
    &&& dirs[90] == Vec2 { x: 0, y: UNIT }
    &&& dirs[180] == Vec2 { x: -1000i64, y: 0 }
    &&& dirs[270] == Vec2 { x: 0, y: -1000i64 }
}

/// Largest speed, in milli-units per tick.
pub const MAX_SPEED: i64 = 1_000_000_000;

/// `v / 1000`, rounded towards zero.
fn milli(v: i64) -> (r: i64)
    requires
        -UNIT * MAX_SPEED <= v <= UNIT * MAX_SPEED,
    ensures
        r == milli_of(v as int),
{
    if v >= 0 {
        v / 1000
    } else {
        -((-v) / 1000)
    }
}

impl Compass {
    pub open spec fn wf(&self) -> bool {
        compass_table(self.dirs@)
    }

    /// The velocity of `speed` at `angle` degrees.
    pub open spec fn polar_spec(&self, angle: int, speed: int) -> Vec2 {
        along(self.dirs@[turn_index(angle)], speed)
    }

    /// A table of 360 unit vectors, if `dirs` is one: no entry longer than a
    /// unit, and the four axis directions exact.
    pub fn new(dirs: Vec<Vec2>) -> (r: Option<Compass>)
        ensures
            r.is_some() <==> compass_table(dirs@),
            r matches Some(c) ==> c.dirs@ == dirs@ && c.wf(),
    {
        if dirs.len() != 360 {
            return None;
        }
        let mut i: usize = 0;
        while i < 360
            invariant
                dirs@.len() == 360,
                i <= 360,
                forall|j: int| 0 <= j < i ==> unit_bounded(#[trigger] dirs@[j]),
            decreases 360 - i,
        {
            let d = dirs[i];
            if d.x < -UNIT || d.x > UNIT || d.y < -UNIT || d.y > UNIT {
                return None;
            }
            assert(0 <= d.x * d.x <= UNIT * UNIT) by (nonlinear_arith)
                requires -UNIT <= d.x <= UNIT;
            assert(0 <= d.y * d.y <= UNIT * UNIT) by (nonlinear_arith)
                requires -UNIT <= d.y <= UNIT;
            if d.x * d.x + d.y * d.y > UNIT * UNIT {
                return None;
            }
            i = i + 1;
        }
        if dirs[0] != (Vec2 { x: UNIT, y: 0 }) || dirs[90] != (Vec2 { x: 0, y: UNIT })
            || dirs[180] != (Vec2 { x: -UNIT, y: 0 }) || dirs[270] != (Vec2 { x: 0, y: -UNIT }) {
            return None;
        }
        Some(Compass { dirs })
    }

    /// A vector of `speed` milli-units at `angle` degrees.
    pub fn polar(&self, angle: i64, speed: i64) -> (r: Vec2)
        requires
            self.wf(),
            0 <= speed <= MAX_SPEED,
        ensures
            r == self.polar_spec(angle as int, speed as int),
            r.wf(),
            r.x * r.x + r.y * r.y <= speed * speed,
    {
        let k: i64 = match angle.checked_rem_euclid(TURN) {
            Some(k) => k,
            None => 0,
        };
        assert(k == turn_index(angle as int));
        let d = self.dirs[k as usize];
        assert(unit_bounded(self.dirs@[k as int]));
        assert(-UNIT * MAX_SPEED <= d.x * speed <= UNIT * MAX_SPEED) by (nonlinear_arith)
            requires
                -UNIT <= d.x <= UNIT,
                0 <= speed <= MAX_SPEED,
        ;
        assert(-UNIT * MAX_SPEED <= d.y * speed <= UNIT * MAX_SPEED) by (nonlinear_arith)
            requires
                -UNIT <= d.y <= UNIT,
                0 <= speed <= MAX_SPEED,
        ;
        let x = milli(d.x * speed);
        let y = milli(d.y * speed);
        proof {
            lemma_along(d, speed as int);
        }
        Vec2 { x, y }
    }
}

/// A direction no longer than a unit, scaled by `s`, is no longer than `s`;
/// each component stays within `[-s, s]`.
pub proof fn lemma_along(d: Vec2, s: int)
    requires
        unit_bounded(d),
        0 <= s,
    ensures
        -s <= milli_of(d.x * s) <= s,
        -s <= milli_of(d.y * s) <= s,
        milli_of(d.x * s) * milli_of(d.x * s) + milli_of(d.y * s) * milli_of(d.y * s) <= s * s,
{
    lemma_milli(d.x as int, s);
    lemma_milli(d.y as int, s);
    let rx = milli_of(d.x * s);
    let ry = milli_of(d.y * s);
    assert(1_000_000 * (rx * rx) <= (d.x * d.x) * (s * s)) by (nonlinear_arith)
        requires
            1000 * vstd::math::abs(rx) <= vstd::math::abs(d.x as int) * s,
            0 <= s,
    ;
    assert(1_000_000 * (ry * ry) <= (d.y * d.y) * (s * s)) by (nonlinear_arith)
        requires
            1000 * vstd::math::abs(ry) <= vstd::math::abs(d.y as int) * s,
            0 <= s,
    ;
    assert((d.x * d.x + d.y * d.y) * (s * s) <= 1_000_000 * (s * s)) by (nonlinear_arith)
        requires
            d.x * d.x + d.y * d.y <= 1_000_000,
            0 <= s,
    ;
    assert(rx * rx + ry * ry <= s * s) by (nonlinear_arith)
        requires
            1_000_000 * (rx * rx) <= (d.x * d.x) * (s * s),
            1_000_000 * (ry * ry) <= (d.y * d.y) * (s * s),
            (d.x * d.x + d.y * d.y) * (s * s) <= 1_000_000 * (s * s),
    ;
}

proof fn lemma_milli(c: int, s: int)
    requires
        -1000 <= c <= 1000,
        0 <= s,
    ensures
        1000 * vstd::math::abs(milli_of(c * s)) <= vstd::math::abs(c) * s,
        -s <= milli_of(c * s) <= s,
{
    let v = c * s;
    if c >= 0 {
        assert(v >= 0) by (nonlinear_arith) requires c >= 0, s >= 0, v == c * s;
        vstd::arithmetic::div_mod::lemma_fundamental_div_mod(v, 1000);
        assert(1000 * (v / 1000) <= v);
        assert(v <= 1000 * s) by (nonlinear_arith) requires c <= 1000, s >= 0, v == c * s;
        assert(v / 1000 <= s) by (nonlinear_arith) requires 1000 * (v / 1000) <= v, v <= 1000 * s;
        assert(v / 1000 >= 0) by (nonlinear_arith) requires v >= 0, 1000 * (v / 1000) + v % 1000 == v, v % 1000 < 1000;
    } else {
        let w = -v;
        assert(w >= 0 && w == (-c) * s) by (nonlinear_arith) requires c < 0, s >= 0, v == c * s, w == -v;
        vstd::arithmetic::div_mod::lemma_fundamental_div_mod(w, 1000);
        assert(1000 * (w / 1000) <= w);
        assert(w <= 1000 * s) by (nonlinear_arith) requires -c <= 1000, s >= 0, w == (-c) * s;
        assert(w / 1000 <= s) by (nonlinear_arith) requires 1000 * (w / 1000) <= w, w <= 1000 * s;
        assert(w / 1000 >= 0) by (nonlinear_arith) requires w >= 0, 1000 * (w / 1000) + w % 1000 == w, w % 1000 < 1000;
    }
}


} // verus!
