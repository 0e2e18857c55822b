//! Axis-aligned boxes in space: strict intersection, the push-out vector that
//! separates two boxes, and ray casting by slabs.

use vstd::prelude::*;
use crate::ray::{
    lemma_below_not_positive, lemma_below_then_not_above, lemma_later_negative, lemma_latest,
    lemma_sooner_not_positive, lemma_soonest, Bound, HitTime,
};
use crate::rectangle::Rectangle;
use crate::vector::{coord_ok, magnitude, Vec2, Vec3};

verus! {

/// A colour tag, one byte per channel.
#[derive(Clone, Copy, Debug, PartialEq, Eq, Structural)]
pub struct Color {
    pub red: u8,
    pub green: u8,
    pub blue: u8,
    pub alpha: u8,
}

impl Color {
    pub fn new(red: u8, green: u8, blue: u8, alpha: u8) -> (c: Color)
        ensures
            c == (Color { red, green, blue, alpha }),
    {
        Color { red, green, blue, alpha }
    }
}

/// An axis-aligned box, given by its lower and upper corner. The colour is
/// carried for drawing and takes no part in the geometry.
#[derive(Clone, Copy, Debug, PartialEq, Eq)]
pub struct BoundingBox {
    pub min: Vec3,
    pub max: Vec3,
    pub color: Option<Color>,
}

/// The corner numbers of the twelve triangles that make up the surface of a
/// box, three numbers to a triangle: three triangles around each of the
/// corners 0, 3, 5 and 6.
pub open spec fn surface() -> Seq<u8> {
    seq![
        0u8, 1u8, 2u8, 0u8, 2u8, 4u8, 0u8, 4u8, 1u8,
        3u8, 2u8, 1u8, 3u8, 1u8, 7u8, 3u8, 7u8, 2u8,
        5u8, 4u8, 7u8, 5u8, 7u8, 1u8, 5u8, 1u8, 4u8,
        6u8, 7u8, 4u8, 6u8, 4u8, 2u8, 6u8, 2u8, 7u8,
    ]
}

/// The triangles of the surface of a box, see `surface`.
pub fn triangles() -> (out: Vec<u8>)
    ensures
        out@ == surface(),
        out@.len() == 36,
        forall|i: int| 0 <= i < 36 ==> #[trigger] out@[i] < 8,
{
    let out: Vec<u8> = vec![
        0, 1, 2, 0, 2, 4, 0, 4, 1,
        3, 2, 1, 3, 1, 7, 3, 7, 2,
        5, 4, 7, 5, 7, 1, 5, 1, 4,
        6, 7, 4, 6, 4, 2, 6, 2, 7,
    ];
    assert(out@ =~= surface());
    out
}

/// Of two signed distances the one of smaller magnitude; the second on a tie.
pub open spec fn nearer(a: int, b: int) -> int {
    if magnitude(a) < magnitude(b) {
        a
    } else {
        b
    }
}

/// Entry and exit bound of a ray on one axis, between the faces at `lo` and
/// `hi`, for a ray that starts at `origin` and advances by `dir`. A ray that
/// runs parallel to the faces is inside for ever or never: `None` where it
/// never is.
pub open spec fn slab_spec(lo: i64, hi: i64, origin: i64, dir: i64) -> Option<(Bound, Bound)> {
    if dir == 0 {
        if lo < origin && origin < hi {
            Some((Bound::NegInf, Bound::PosInf))
        } else {
            None
        }
    } else {
        let a: int = if dir > 0 { lo - origin } else { origin - lo };
        let b: int = if dir > 0 { hi - origin } else { origin - hi };
        let den = magnitude(dir as int) as i64;
        Some(
            (
                Bound::Finite(HitTime { num: (if a < b { a } else { b }) as i64, den }),
                Bound::Finite(HitTime { num: (if a > b { a } else { b }) as i64, den }),
            ),
        )
    }
}

/// The unit normal of the face through which a ray enters: on the axis whose
/// entry bound is strictly greater than both others, on the z axis where no
/// axis is; it points against the ray's direction on that axis.
pub open spec fn entry_normal(ex: Bound, ey: Bound, ez: Bound, direction: Vec3) -> Vec3 {
    if ey.below(ex) && ez.below(ex) {
        Vec3 { x: if direction.x > 0 { -1i64 } else { 1i64 }, y: 0, z: 0 }
    } else if ex.below(ey) && ez.below(ey) {
        Vec3 { x: 0, y: if direction.y > 0 { -1i64 } else { 1i64 }, z: 0 }
    } else {
        Vec3 { x: 0, y: 0, z: if direction.z > 0 { -1i64 } else { 1i64 } }
    }
}

fn abs_of(v: i64) -> (m: i64)
    requires
        v > i64::MIN,
    ensures
        m == magnitude(v as int),
{
    if v < 0 {
        -v
    } else {
        v
    }
}

fn nearer_of(a: i64, b: i64) -> (c: i64)
    requires
        a > i64::MIN,
        b > i64::MIN,
    ensures
        c == nearer(a as int, b as int),
{
    if abs_of(a) < abs_of(b) {
        a
    } else {
        b
    }
}

fn slab(lo: i64, hi: i64, origin: i64, dir: i64) -> (s: Option<(Bound, Bound)>)
    requires
        coord_ok(lo),
        coord_ok(hi),
        coord_ok(origin),
        coord_ok(dir),
    ensures
        s == slab_spec(lo, hi, origin, dir),
{
    if dir == 0 {
        if lo < origin && origin < hi {
            Some((Bound::NegInf, Bound::PosInf))
        } else {
            None
        }
    } else {
        let a: i64 = if dir > 0 { lo - origin } else { origin - lo };
        let b: i64 = if dir > 0 { hi - origin } else { origin - hi };
        let den: i64 = abs_of(dir);
        Some(
            (
                Bound::Finite(HitTime { num: if a < b { a } else { b }, den }),
                Bound::Finite(HitTime { num: if a > b { a } else { b }, den }),
            ),
        )
    }
}

impl BoundingBox {
    /// The lower corner is not above the upper corner on any axis.
    pub open spec fn wf(self) -> bool {
        self.min.x <= self.max.x && self.min.y <= self.max.y && self.min.z <= self.max.z
    }

    /// All six coordinates lie within the accepted magnitude.
    pub open spec fn in_range(self) -> bool {
        self.min.in_range() && self.max.in_range()
    }

    /// The boxes overlap strictly on all three axes; a shared face is no overlap.
    pub open spec fn crosses(self, other: BoundingBox) -> bool {
        self.max.x > other.min.x && other.max.x > self.min.x && self.max.y > other.min.y
            && other.max.y > self.min.y && self.max.z > other.min.z && other.max.z > self.min.z
    }

    /// `point` lies strictly between the faces on all three axes.
    pub open spec fn encloses(self, point: Vec3) -> bool {
        self.min.x < point.x && point.x < self.max.x && self.min.y < point.y && point.y
            < self.max.y && self.min.z < point.z && point.z < self.max.z
    }

    /// The shorter way out of `other` along x: to below its lower face or to
    /// above its upper face.
    pub open spec fn push_x(self, other: BoundingBox) -> int {
        nearer(other.min.x - self.max.x, other.max.x - self.min.x)
    }

    /// The shorter way out of `other` along y.
    pub open spec fn push_y(self, other: BoundingBox) -> int {
        nearer(other.min.y - self.max.y, other.max.y - self.min.y)
    }

    /// The shorter way out of `other` along z.
    pub open spec fn push_z(self, other: BoundingBox) -> int {
        nearer(other.min.z - self.max.z, other.max.z - self.min.z)
    }

    /// The vector that pushes `self` out of `other`: along the axis whose push
    /// is strictly shorter than both others, along z where no axis is.
    pub open spec fn overlap_spec(self, other: BoundingBox) -> Option<Vec3> {
        if self.crosses(other) {
            let x = self.push_x(other);
            let y = self.push_y(other);
            let z = self.push_z(other);
            if magnitude(x) < magnitude(y) && magnitude(x) < magnitude(z) {
                Some(Vec3 { x: x as i64, y: 0, z: 0 })
            } else if magnitude(y) < magnitude(x) && magnitude(y) < magnitude(z) {
                Some(Vec3 { x: 0, y: y as i64, z: 0 })
            } else {
                Some(Vec3 { x: 0, y: 0, z: z as i64 })
            }
        } else {
            None
        }
    }

    /// The box in another colour.
    pub open spec fn painted(self, color: Color) -> BoundingBox {
        BoundingBox { min: self.min, max: self.max, color: Some(color) }
    }

    /// The box moved by `by`, colour kept.
    pub open spec fn shifted(self, by: Vec3) -> BoundingBox {
        BoundingBox {
            min: Vec3 {
                x: (self.min.x + by.x) as i64,
                y: (self.min.y + by.y) as i64,
                z: (self.min.z + by.z) as i64,
            },
            max: Vec3 {
                x: (self.max.x + by.x) as i64,
                y: (self.max.y + by.y) as i64,
                z: (self.max.z + by.z) as i64,
            },
            color: self.color,
        }
    }

    /// A face of `self` lies in the plane of the opposite face of `other`, on
    /// axis 0 (x), 1 (y) or 2 (z).
    pub open spec fn touches_on(self, other: BoundingBox, axis: nat) -> bool {
        if axis == 0 {
            self.max.x == other.min.x || self.min.x == other.max.x
        } else if axis == 1 {
            self.max.y == other.min.y || self.min.y == other.max.y
        } else {
            self.max.z == other.min.z || self.min.z == other.max.z
        }
    }

    /// On how many of the three axes `self` touches `other`.
    pub open spec fn touching_axes(self, other: BoundingBox) -> int {
        (if self.touches_on(other, 0) { 1int } else { 0int })
            + (if self.touches_on(other, 1) { 1int } else { 0int })
            + (if self.touches_on(other, 2) { 1int } else { 0int })
    }

    /// The view along the y axis: x stays x, z becomes the rectangle's y.
    pub open spec fn footprint(self) -> Rectangle {
        Rectangle {
            min: Vec2 { x: self.min.x, y: self.min.z },
            max: Vec2 { x: self.max.x, y: self.max.z },
        }
    }

    /// Where a ray from `origin` along `direction` enters the box, and through
    /// which face. The ray is inside the box from the greatest of the three
    /// entry bounds to the least of the three exit bounds; it hits where that
    /// entry is positive and strictly before that exit.
    pub open spec fn hit_spec(self, origin: Vec3, direction: Vec3) -> Option<(HitTime, Vec3)> {
        match (
            slab_spec(self.min.x, self.max.x, origin.x, direction.x),
            slab_spec(self.min.y, self.max.y, origin.y, direction.y),
            slab_spec(self.min.z, self.max.z, origin.z, direction.z),
        ) {
            (Some(sx), Some(sy), Some(sz)) => {
                let entry = sx.0.later(sy.0).later(sz.0);
                let exit = sx.1.sooner(sy.1).sooner(sz.1);
                match entry {
                    Bound::Finite(t) => if entry.positive() && entry.below(exit) {
                        Some((t, entry_normal(sx.0, sy.0, sz.0, direction)))
                    } else {
                        None
                    },
                    _ => None,
                }
            },
            _ => None,
        }
    }

    /// Corner number `k` of the box, for `k` from 0 to 7: the upper face is
    /// taken on x for odd `k`, on y where `k / 2` is odd, on z for `k` of 4
    /// and more.
    pub open spec fn corner(self, k: int) -> Vec3 {
        Vec3 {
            x: if k % 2 == 0 { self.min.x } else { self.max.x },
            y: if (k / 2) % 2 == 0 { self.min.y } else { self.max.y },
            z: if k / 4 == 0 { self.min.z } else { self.max.z },
        }
    }

    /// The eight corners in the order of their numbers, see `corner`.
    pub fn corners(&self) -> (out: Vec<Vec3>)
        ensures
            out@.len() == 8,
            forall|k: int| 0 <= k < 8 ==> #[trigger] out@[k] == self.corner(k),
    {
        let l = self.min;
        let g = self.max;
        vec![
            Vec3::new(l.x, l.y, l.z),
            Vec3::new(g.x, l.y, l.z),
            Vec3::new(l.x, g.y, l.z),
            Vec3::new(g.x, g.y, l.z),
            Vec3::new(l.x, l.y, g.z),
            Vec3::new(g.x, l.y, g.z),
            Vec3::new(l.x, g.y, g.z),
            Vec3::new(g.x, g.y, g.z),
        ]
    }

    /// The cube that reaches `size` to each side of `center`.
    pub fn cube(center: Vec3, size: i64) -> (b: BoundingBox)
        requires
            center.in_range(),
            coord_ok(size),
        ensures
            b.min.x == center.x - size,
            b.min.y == center.y - size,
            b.min.z == center.z - size,
            b.max.x == center.x + size,
            b.max.y == center.y + size,
            b.max.z == center.z + size,
            b.color is None,
            size >= 0 ==> b.wf(),
    {
        BoundingBox {
            min: Vec3::new(center.x - size, center.y - size, center.z - size),
            max: Vec3::new(center.x + size, center.y + size, center.z + size),
            color: None,
        }
    }

    /// The midpoint, rounded down to the grid on each axis.
    pub fn center(&self) -> (c: Vec3)
        requires
            self.wf(),
            self.in_range(),
        ensures
            c.x == self.min.x + (self.max.x - self.min.x) / 2,
            c.y == self.min.y + (self.max.y - self.min.y) / 2,
            c.z == self.min.z + (self.max.z - self.min.z) / 2,
    {
        Vec3::new(
            self.min.x + (self.max.x - self.min.x) / 2,
            self.min.y + (self.max.y - self.min.y) / 2,
            self.min.z + (self.max.z - self.min.z) / 2,
        )
    }

    /// Width, height and depth.
    pub fn size(&self) -> (s: Vec3)
        requires
            self.in_range(),
        ensures
            s.x == self.max.x - self.min.x,
            s.y == self.max.y - self.min.y,
            s.z == self.max.z - self.min.z,
    {
        Vec3::new(self.max.x - self.min.x, self.max.y - self.min.y, self.max.z - self.min.z)
    }

    /// Whether the boxes overlap strictly on all three axes; boxes that only
    /// touch do not intersect.
    pub fn intersect(&self, other: &BoundingBox) -> (hit: bool)
        ensures
            hit == self.crosses(*other),
    {
        self.max.x > other.min.x && other.max.x > self.min.x && self.max.y > other.min.y
            && other.max.y > self.min.y && self.max.z > other.min.z && other.max.z > self.min.z
    }

    /// The vector by which to move `self` so that it no longer intersects
    /// `other`, or `None` where the two do not intersect.
    pub fn overlap(&self, other: &BoundingBox) -> (push: Option<Vec3>)
        requires
            self.in_range(),
            other.in_range(),
        ensures
            push == self.overlap_spec(*other),
    {
        if self.intersect(other) {
            let x: i64 = nearer_of(other.min.x - self.max.x, other.max.x - self.min.x);
            let y: i64 = nearer_of(other.min.y - self.max.y, other.max.y - self.min.y);
            let z: i64 = nearer_of(other.min.z - self.max.z, other.max.z - self.min.z);
            let ax: i64 = abs_of(x);
            let ay: i64 = abs_of(y);
            let az: i64 = abs_of(z);
            if ax < ay && ax < az {
                Some(Vec3::new(x, 0, 0))
            } else if ay < ax && ay < az {
                Some(Vec3::new(0, y, 0))
            } else {
                Some(Vec3::new(0, 0, z))
            }
        } else {
            None
        }
    }

    /// The rectangle seen when looking at the box along the y axis.
    pub fn project_y(&self) -> (r: Rectangle)
        ensures
            r == self.footprint(),
    {
        Rectangle {
            min: Vec2::new(self.min.x, self.min.z),
            max: Vec2::new(self.max.x, self.max.z),
        }
    }

    /// Casts a ray from `origin` along `direction`, which need not have unit
    /// length: the ray parameter at which it enters the box, in lengths of
    /// `direction`, and the unit normal of the face it enters through; `None`
    /// where it misses, starts inside, or points away.
    pub fn hit_scan(&self, origin: Vec3, direction: Vec3) -> (hit: Option<(HitTime, Vec3)>)
        requires
            self.in_range(),
            origin.in_range(),
            direction.in_range(),
        ensures
            hit == self.hit_spec(origin, direction),
    {
        let sx = match slab(self.min.x, self.max.x, origin.x, direction.x) {
            Some(s) => s,
            None => { return None; },
        };
        let sy = match slab(self.min.y, self.max.y, origin.y, direction.y) {
            Some(s) => s,
            None => { return None; },
        };
        let sz = match slab(self.min.z, self.max.z, origin.z, direction.z) {
            Some(s) => s,
            None => { return None; },
        };
        let entry = sx.0.max_with(sy.0).max_with(sz.0);
        let exit = sx.1.min_with(sy.1).min_with(sz.1);
        match entry {
            Bound::Finite(t) => {
                if t.num > 0 && entry.lt(&exit) {
                    let normal = if sy.0.lt(&sx.0) && sz.0.lt(&sx.0) {
                        Vec3::new(if direction.x > 0 { -1 } else { 1 }, 0, 0)
                    } else if sx.0.lt(&sy.0) && sz.0.lt(&sy.0) {
                        Vec3::new(0, if direction.y > 0 { -1 } else { 1 }, 0)
                    } else {
                        Vec3::new(0, 0, if direction.z > 0 { -1 } else { 1 })
                    };
                    Some((t, normal))
                } else {
                    None
                }
            },
            _ => None,
        }
    }
}

/// Intersection does not depend on which box is asked.
pub proof fn intersect_symmetric(a: BoundingBox, b: BoundingBox)
    ensures
        a.crosses(b) == b.crosses(a),
{
}

/// Boxes that touch on some axis do not intersect.
pub proof fn touching_boxes_apart(a: BoundingBox, b: BoundingBox, axis: nat)
    requires
        a.touches_on(b, axis),
    ensures
        !a.crosses(b),
{
}

/// The push-out vector of two intersecting boxes lies along one axis, and
/// moving the first box by it leaves the two touching on that axis alone and
/// no longer intersecting.
pub proof fn overlap_separates(a: BoundingBox, b: BoundingBox)
    requires
        a.in_range(),
        b.in_range(),
        a.crosses(b),
    ensures
        a.overlap_spec(b) is Some,
        ({
            let push = a.overlap_spec(b).unwrap();
            let moved = a.shifted(push);
            &&& push.single_axis()
            &&& push != (Vec3 { x: 0, y: 0, z: 0 })
            &&& !moved.crosses(b)
            &&& moved.touching_axes(b) == 1
        }),
{
}


/// The push-out vector is never longer than the push along z, and where it
/// lies along x or y it is strictly shorter than the push along either
/// other axis.
pub proof fn overlap_takes_the_short_way(a: BoundingBox, b: BoundingBox)
    requires
        a.in_range(),
        b.in_range(),
        a.crosses(b),
    ensures
        ({
            let push = a.overlap_spec(b).unwrap();
            let x = magnitude(a.push_x(b));
            let y = magnitude(a.push_y(b));
            let z = magnitude(a.push_z(b));
            &&& push.x != 0 ==> magnitude(push.x as int) == x && x < y && x < z
            &&& push.y != 0 ==> magnitude(push.y as int) == y && y < x && y < z
            &&& push.z != 0 ==> magnitude(push.z as int) == z && !(x < y && x < z) && !(y < x && y
                < z)
            &&& magnitude(push.x as int) + magnitude(push.y as int) + magnitude(push.z as int) <= z
        }),
{
}

/// The parameter of a hit is a positive fraction with a positive denominator.
pub proof fn hit_time_positive(b: BoundingBox, origin: Vec3, direction: Vec3)
    requires
        direction.in_range(),
        b.hit_spec(origin, direction) is Some,
    ensures
        b.hit_spec(origin, direction).unwrap().0.wf(),
        b.hit_spec(origin, direction).unwrap().0.num > 0,
{
}

/// A ray that starts strictly inside a box does not hit it.
pub proof fn ray_from_inside_misses(b: BoundingBox, origin: Vec3, direction: Vec3)
    requires
        b.in_range(),
        origin.in_range(),
        direction.in_range(),
        b.encloses(origin),
    ensures
        b.hit_spec(origin, direction) is None,
{
    let sx = slab_spec(b.min.x, b.max.x, origin.x, direction.x).unwrap();
    let sy = slab_spec(b.min.y, b.max.y, origin.y, direction.y).unwrap();
    let sz = slab_spec(b.min.z, b.max.z, origin.z, direction.z).unwrap();
    assert(sx.0.negative());
    assert(sy.0.negative());
    assert(sz.0.negative());
    lemma_later_negative(sx.0, sy.0);
    lemma_later_negative(sx.0.later(sy.0), sz.0);
}

/// The ray leaves the box behind on one axis: on axis 0 (x), 1 (y) or 2 (z)
/// the origin is at or beyond a face and the direction does not lead back.
pub open spec fn points_away(b: BoundingBox, origin: Vec3, direction: Vec3, axis: nat) -> bool {
    if axis == 0 {
        (origin.x <= b.min.x && direction.x <= 0) || (origin.x >= b.max.x && direction.x >= 0)
    } else if axis == 1 {
        (origin.y <= b.min.y && direction.y <= 0) || (origin.y >= b.max.y && direction.y >= 0)
    } else {
        (origin.z <= b.min.z && direction.z <= 0) || (origin.z >= b.max.z && direction.z >= 0)
    }
}

/// A ray that starts outside a box and points away from it does not hit it.
pub proof fn ray_pointing_away_misses(b: BoundingBox, origin: Vec3, direction: Vec3, axis: nat)
    requires
        b.wf(),
        b.in_range(),
        origin.in_range(),
        direction.in_range(),
        points_away(b, origin, direction, axis),
    ensures
        b.hit_spec(origin, direction) is None,
{
    let ox = slab_spec(b.min.x, b.max.x, origin.x, direction.x);
    let oy = slab_spec(b.min.y, b.max.y, origin.y, direction.y);
    let oz = slab_spec(b.min.z, b.max.z, origin.z, direction.z);
    if ox is Some && oy is Some && oz is Some {
        let sx = ox.unwrap();
        let sy = oy.unwrap();
        let sz = oz.unwrap();
        let entry = sx.0.later(sy.0).later(sz.0);
        let first = sx.1.sooner(sy.1);
        let exit = first.sooner(sz.1);
        assert(!sx.1.positive() || !sy.1.positive() || !sz.1.positive());
        if !sx.1.positive() || !sy.1.positive() {
            lemma_sooner_not_positive(sx.1, sy.1);
        }
        lemma_sooner_not_positive(first, sz.1);
        if entry.below(exit) {
            lemma_below_not_positive(entry, exit);
        }
    }
}

/// Where the ray is on one axis at the parameter `t`, times the
/// denominator of `t`.
pub open spec fn ray_at(origin: i64, dir: i64, t: HitTime) -> int {
    origin * t.den + t.num * dir
}

/// At the parameter `t` the ray is between the faces at `lo` and `hi`, the
/// faces included.
pub open spec fn in_slab_at(lo: i64, hi: i64, origin: i64, dir: i64, t: HitTime) -> bool {
    lo * t.den <= ray_at(origin, dir, t) && ray_at(origin, dir, t) <= hi * t.den
}

/// At the parameter `t` the ray is in one of the faces at `lo` and `hi`.
pub open spec fn on_face_at(lo: i64, hi: i64, origin: i64, dir: i64, t: HitTime) -> bool {
    ray_at(origin, dir, t) == lo * t.den || ray_at(origin, dir, t) == hi * t.den
}

proof fn lemma_axis_between(lo: int, hi: int, o: int, d: int, n: int, den: int)
    by (nonlinear_arith)
    requires
        den > 0,
        d > 0 ==> !(n * d < (lo - o) * den) && n * d < (hi - o) * den,
        d < 0 ==> !(n * (-d) < (o - hi) * den) && n * (-d) < (o - lo) * den,
        d == 0 ==> lo < o && o < hi,
    ensures
        lo * den <= o * den + n * d,
        o * den + n * d <= hi * den,
{
}

proof fn lemma_axis_on_face(lo: int, hi: int, o: int, d: int)
    by (nonlinear_arith)
    ensures
        d > 0 ==> o * d + (lo - o) * d == lo * d,
        d < 0 ==> o * (-d) + (o - hi) * d == hi * (-d),
{
}

proof fn lemma_slab_holds(lo: i64, hi: i64, origin: i64, dir: i64, t: HitTime)
    requires
        lo <= hi,
        coord_ok(lo),
        coord_ok(hi),
        coord_ok(origin),
        coord_ok(dir),
        t.wf(),
        slab_spec(lo, hi, origin, dir) is Some,
        !Bound::Finite(t).below(slab_spec(lo, hi, origin, dir).unwrap().0),
        Bound::Finite(t).below(slab_spec(lo, hi, origin, dir).unwrap().1),
    ensures
        in_slab_at(lo, hi, origin, dir, t),
        Bound::Finite(t) == slab_spec(lo, hi, origin, dir).unwrap().0 ==> on_face_at(
            lo,
            hi,
            origin,
            dir,
            t,
        ),
{
    lemma_axis_between(
        lo as int,
        hi as int,
        origin as int,
        dir as int,
        t.num as int,
        t.den as int,
    );
    lemma_axis_on_face(lo as int, hi as int, origin as int, dir as int);
}

/// Where a ray hits a box, the point of the ray at the parameter of the hit
/// lies in the box, and in one of its faces.
pub proof fn hit_lies_on_box(b: BoundingBox, origin: Vec3, direction: Vec3)
    requires
        b.wf(),
        b.in_range(),
        origin.in_range(),
        direction.in_range(),
        b.hit_spec(origin, direction) is Some,
    ensures
        ({
            let t = b.hit_spec(origin, direction).unwrap().0;
            &&& in_slab_at(b.min.x, b.max.x, origin.x, direction.x, t)
            &&& in_slab_at(b.min.y, b.max.y, origin.y, direction.y, t)
            &&& in_slab_at(b.min.z, b.max.z, origin.z, direction.z, t)
            &&& (on_face_at(b.min.x, b.max.x, origin.x, direction.x, t) || on_face_at(
                b.min.y,
                b.max.y,
                origin.y,
                direction.y,
                t,
            ) || on_face_at(b.min.z, b.max.z, origin.z, direction.z, t))
        }),
{
    let sx = slab_spec(b.min.x, b.max.x, origin.x, direction.x).unwrap();
    let sy = slab_spec(b.min.y, b.max.y, origin.y, direction.y).unwrap();
    let sz = slab_spec(b.min.z, b.max.z, origin.z, direction.z).unwrap();
    let entry = sx.0.later(sy.0).later(sz.0);
    let exit = sx.1.sooner(sy.1).sooner(sz.1);
    let t = b.hit_spec(origin, direction).unwrap().0;
    assert(entry == Bound::Finite(t));
    hit_time_positive(b, origin, direction);
    lemma_latest(sx.0, sy.0, sz.0);
    lemma_soonest(sx.1, sy.1, sz.1);
    lemma_below_then_not_above(entry, exit, sx.1);
    lemma_below_then_not_above(entry, exit, sy.1);
    lemma_below_then_not_above(entry, exit, sz.1);
    lemma_slab_holds(b.min.x, b.max.x, origin.x, direction.x, t);
    lemma_slab_holds(b.min.y, b.max.y, origin.y, direction.y, t);
    lemma_slab_holds(b.min.z, b.max.z, origin.z, direction.z, t);
}

} // verus!
