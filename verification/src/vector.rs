//! Points and displacements on the coordinate grid.

use vstd::prelude::*;

verus! {

/// Grid steps in one world unit.
pub const UNIT: i64 = 1000;

/// Largest magnitude of a coordinate that the geometry accepts: differences
/// of two such coordinates, and a coordinate moved by such a difference,
/// still fit the machine integer.
pub const COORD_MAX: i64 = 1_000_000_000_000_000_000;

/// Whether a coordinate lies within the accepted magnitude.
pub open spec fn coord_ok(c: i64) -> bool {
    -COORD_MAX <= c <= COORD_MAX
}

/// Absolute value of a mathematical integer.
pub open spec fn magnitude(v: int) -> int {
    if v < 0 { -v } else { v }
}

/// The smaller of two coordinates.
pub open spec fn lesser(a: i64, b: i64) -> i64 {
    if a < b {
        a
    } else {
        b
    }
}

/// The greater of two coordinates.
pub open spec fn greater(a: i64, b: i64) -> i64 {
    if a > b {
        a
    } else {
        b
    }
}

/// `r` is the whole part of the square root of `n`.
pub open spec fn is_root(n: int, r: int) -> bool {
    r >= 0 && r * r <= n && n < (r + 1) * (r + 1)
}

/// The whole part of the square root of `n`.
pub open spec fn root_of(n: int) -> int {
    choose|r: int| is_root(n, r)
}

/// A number has one whole square root.
pub proof fn lemma_root_unique(n: int, a: int, b: int)
    by (nonlinear_arith)
    requires
        is_root(n, a),
        is_root(n, b),
    ensures
        a == b,
{
    if a < b {
        assert((a + 1) * (a + 1) <= b * b);
    }
    if b < a {
        assert((b + 1) * (b + 1) <= a * a);
    }
}

proof fn lemma_root_step(n: int, r: int)
    by (nonlinear_arith)
    requires
        0 <= r,
        r * r <= n <= 1_000_000_000_000,
    ensures
        r <= 1_000_000,
        (r + 1) * (r + 1) <= 1_000_002_000_001,
{
}

/// The whole part of the square root of `n`, found by counting up.
pub fn root(n: i64) -> (r: i64)
    requires
        0 <= n <= 1_000_000_000_000,
    ensures
        is_root(n as int, r as int),
        r == root_of(n as int),
        0 <= r <= 1_000_000,
{
    let mut r: i64 = 0;
    proof {
        lemma_root_step(n as int, 0);
    }
    while (r + 1) * (r + 1) <= n
        invariant
            0 <= r <= 1_000_000,
            r * r <= n <= 1_000_000_000_000,
            (r + 1) * (r + 1) <= 1_000_002_000_001,
        decreases 1_000_000 - r,
    {
        r = r + 1;
        proof {
            lemma_root_step(n as int, r as int);
        }
    }
    proof {
        lemma_root_unique(n as int, r as int, root_of(n as int));
    }
    r
}

/// A point or displacement in the plane.
#[derive(Clone, Copy, Debug, PartialEq, Eq, Structural)]
pub struct Vec2 {
    pub x: i64,
    pub y: i64,
}

impl Vec2 {
    /// Both components lie within the accepted magnitude.
    pub open spec fn in_range(self) -> bool {
        coord_ok(self.x) && coord_ok(self.y)
    }

    pub fn new(x: i64, y: i64) -> (v: Vec2)
        ensures
            v.x == x,
            v.y == y,
    {
        Vec2 { x, y }
    }
}

/// A point or displacement in space; `y` points up.
#[derive(Clone, Copy, Debug, PartialEq, Eq, Structural)]
pub struct Vec3 {
    pub x: i64,
    pub y: i64,
    pub z: i64,
}

impl Vec3 {
    /// All three components lie within the accepted magnitude.
    pub open spec fn in_range(self) -> bool {
        coord_ok(self.x) && coord_ok(self.y) && coord_ok(self.z)
    }

    /// The point of the plane below or above this point: x stays x, z
    /// becomes y.
    pub open spec fn ground(self) -> Vec2 {
        Vec2 { x: self.x, y: self.z }
    }

    /// The dot product.
    pub open spec fn dot(self, other: Vec3) -> int {
        self.x * other.x + self.y * other.y + self.z * other.z
    }

    /// Every component is -1, 0 or 1.
    pub open spec fn is_signs(self) -> bool {
        -1 <= self.x <= 1 && -1 <= self.y <= 1 && -1 <= self.z <= 1
    }

    /// The vector mirrored at the plane whose normal is `normal`: twice its
    /// part along the normal is taken off.
    pub open spec fn reflected(self, normal: Vec3) -> Vec3 {
        Vec3 {
            x: (self.x - 2 * self.dot(normal) * normal.x) as i64,
            y: (self.y - 2 * self.dot(normal) * normal.y) as i64,
            z: (self.z - 2 * self.dot(normal) * normal.z) as i64,
        }
    }

    /// At most one component differs from zero.
    pub open spec fn single_axis(self) -> bool {
        (self.x == 0 && self.y == 0) || (self.x == 0 && self.z == 0) || (self.y == 0 && self.z
            == 0)
    }

    pub fn new(x: i64, y: i64, z: i64) -> (v: Vec3)
        ensures
            v.x == x,
            v.y == y,
            v.z == z,
    {
        Vec3 { x, y, z }
    }

    /// The direction in which a ray along `self` leaves a face with the
    /// normal `normal`, see `reflected`.
    pub fn reflect(&self, normal: Vec3) -> (out: Vec3)
        requires
            self.in_range(),
            normal.is_signs(),
        ensures
            out == self.reflected(normal),
            normal.single_axis() && normal != (Vec3 { x: 0, y: 0, z: 0 }) ==> {
                &&& out.x == (if normal.x != 0 { -self.x } else { self.x as int })
                &&& out.y == (if normal.y != 0 { -self.y } else { self.y as int })
                &&& out.z == (if normal.z != 0 { -self.z } else { self.z as int })
            },
    {
        proof {
            lemma_signed(normal.x as int, self.x as int);
            lemma_signed(normal.y as int, self.y as int);
            lemma_signed(normal.z as int, self.z as int);
        }
        let along: i64 = self.x * normal.x + self.y * normal.y + self.z * normal.z;
        proof {
            lemma_signed(normal.x as int, 2 * along);
            lemma_signed(normal.y as int, 2 * along);
            lemma_signed(normal.z as int, 2 * along);
            lemma_twice(self.dot(normal), normal.x as int);
            lemma_twice(self.dot(normal), normal.y as int);
            lemma_twice(self.dot(normal), normal.z as int);
        }
        Vec3 {
            x: self.x - 2 * along * normal.x,
            y: self.y - 2 * along * normal.y,
            z: self.z - 2 * along * normal.z,
        }
    }
}

proof fn lemma_twice(along: int, c: int)
    by (nonlinear_arith)
    ensures
        2 * along * c == (2 * along) * c,
{
}

proof fn lemma_signed(sign: int, v: int)
    by (nonlinear_arith)
    requires
        -1 <= sign <= 1,
    ensures
        sign == 0 ==> v * sign == 0 && sign * v == 0,
        sign == 1 ==> v * sign == v && sign * v == v,
        sign == -1 ==> v * sign == -v && sign * v == -v,
{
}

} // verus!
