//! Axis-aligned rectangles and the cut that subtracts one from another.

use vstd::prelude::*;
use crate::bounding_box::BoundingBox;
use crate::vector::{Vec2, Vec3};

verus! {

/// An axis-aligned rectangle, given by its lower and upper corner.
#[derive(Clone, Copy, Debug, PartialEq, Eq, Structural)]
pub struct Rectangle {
    pub min: Vec2,
    pub max: Vec2,
}

/// Some rectangle of `pieces` covers the grid cell at `(x, y)`.
pub open spec fn covered_by(pieces: Seq<Rectangle>, x: int, y: int) -> bool {
    exists|i: int| 0 <= i < pieces.len() && #[trigger] pieces[i].covers(x, y)
}

impl Rectangle {
    /// The lower corner is not above the upper corner on either axis.
    pub open spec fn wf(self) -> bool {
        self.min.x <= self.max.x && self.min.y <= self.max.y
    }

    /// All four coordinates lie within the accepted magnitude.
    pub open spec fn in_range(self) -> bool {
        self.min.in_range() && self.max.in_range()
    }

    /// The rectangle has positive width and positive height.
    pub open spec fn solid(self) -> bool {
        self.min.x < self.max.x && self.min.y < self.max.y
    }

    /// The grid cell whose lower corner is `(x, y)` belongs to the rectangle.
    /// Cells are half-open, so rectangles that share an edge share no cell.
    pub open spec fn covers(self, x: int, y: int) -> bool {
        self.min.x <= x < self.max.x && self.min.y <= y < self.max.y
    }

    /// `point` lies strictly between the edges on both axes.
    pub open spec fn encloses(self, point: Vec2) -> bool {
        self.min.x < point.x && point.x < self.max.x && self.min.y < point.y && point.y
            < self.max.y
    }

    /// The two rectangles overlap strictly on both axes; a shared edge is no overlap.
    pub open spec fn overlaps(self, other: Rectangle) -> bool {
        self.max.x > other.min.x && other.max.x > self.min.x && self.max.y > other.min.y
            && other.max.y > self.min.y
    }

    /// The rectangle does not reach beyond `outer` on any side.
    pub open spec fn within(self, outer: Rectangle) -> bool {
        outer.min.x <= self.min.x && self.max.x <= outer.max.x && outer.min.y <= self.min.y
            && self.max.y <= outer.max.y
    }

    /// Edge number `edge` of `mask` (0: lower x, 1: upper x, 2: lower y, 3: upper y)
    /// lies strictly inside the rectangle on that edge's axis.
    pub open spec fn straddles(self, mask: Rectangle, edge: nat) -> bool {
        if edge == 0 {
            self.min.x < mask.min.x && mask.min.x < self.max.x
        } else if edge == 1 {
            self.min.x < mask.max.x && mask.max.x < self.max.x
        } else if edge == 2 {
            self.min.y < mask.min.y && mask.min.y < self.max.y
        } else {
            self.min.y < mask.max.y && mask.max.y < self.max.y
        }
    }

    /// The part of the rectangle beyond edge `edge` of `mask`, outside the mask.
    pub open spec fn outer_part(self, mask: Rectangle, edge: nat) -> Rectangle {
        if edge == 0 {
            Rectangle { min: self.min, max: Vec2 { x: mask.min.x, y: self.max.y } }
        } else if edge == 1 {
            Rectangle { min: Vec2 { x: mask.max.x, y: self.min.y }, max: self.max }
        } else if edge == 2 {
            Rectangle { min: self.min, max: Vec2 { x: self.max.x, y: mask.min.y } }
        } else {
            Rectangle { min: Vec2 { x: self.min.x, y: mask.max.y }, max: self.max }
        }
    }

    /// The part of the rectangle on the mask's side of edge `edge` of `mask`.
    pub open spec fn inner_part(self, mask: Rectangle, edge: nat) -> Rectangle {
        if edge == 0 {
            Rectangle { min: Vec2 { x: mask.min.x, y: self.min.y }, max: self.max }
        } else if edge == 1 {
            Rectangle { min: self.min, max: Vec2 { x: mask.max.x, y: self.max.y } }
        } else if edge == 2 {
            Rectangle { min: Vec2 { x: self.min.x, y: mask.min.y }, max: self.max }
        } else {
            Rectangle { min: self.min, max: Vec2 { x: self.max.x, y: mask.max.y } }
        }
    }

    /// The box that stands on the rectangle between the heights `low` and
    /// `high`: x stays x, the rectangle's y becomes z. It has no colour.
    pub open spec fn raised(self, low: i64, high: i64) -> BoundingBox {
        BoundingBox {
            min: Vec3 { x: self.min.x, y: low, z: self.min.y },
            max: Vec3 { x: self.max.x, y: high, z: self.max.y },
            color: None,
        }
    }

    /// The pieces split off a rectangle that overlaps `mask`, trying the mask's
    /// edges from `edge` on in the order lower x, upper x, lower y, upper y.
    /// At a straddling edge the outer part becomes a piece and the inner part
    /// is carved further; what is left after the last edge lies inside the
    /// mask and is dropped.
    pub open spec fn carve(self, mask: Rectangle, edge: nat) -> Seq<Rectangle>
        decreases 4 - edge,
    {
        if edge >= 4 {
            Seq::empty()
        } else if self.straddles(mask, edge) {
            seq![self.outer_part(mask, edge)] + self.inner_part(mask, edge).carve(
                mask,
                edge + 1,
            )
        } else {
            self.carve(mask, edge + 1)
        }
    }

    /// What remains of the rectangle once `mask` is taken out, as a list of pieces.
    pub open spec fn cut_spec(self, mask: Rectangle) -> Seq<Rectangle> {
        if self.overlaps(mask) {
            self.carve(mask, 0)
        } else {
            seq![self]
        }
    }

    /// The rectangle spanned by two arbitrary corners.
    pub fn new(a: Vec2, b: Vec2) -> (r: Rectangle)
        ensures
            r.wf(),
            r.min.x == (if a.x < b.x { a.x } else { b.x }),
            r.min.y == (if a.y < b.y { a.y } else { b.y }),
            r.max.x == (if a.x > b.x { a.x } else { b.x }),
            r.max.y == (if a.y > b.y { a.y } else { b.y }),
    {
        Rectangle {
            min: Vec2::new(if a.x < b.x { a.x } else { b.x }, if a.y < b.y { a.y } else { b.y }),
            max: Vec2::new(if a.x > b.x { a.x } else { b.x }, if a.y > b.y { a.y } else { b.y }),
        }
    }

    /// The rectangle that reaches half of `size` to each side of `center`.
    /// Halves are taken in whole grid steps.
    pub fn centered(center: Vec2, size: Vec2) -> (r: Rectangle)
        requires
            center.in_range(),
            size.in_range(),
            size.x >= 0,
            size.y >= 0,
        ensures
            r.wf(),
            r.min.x == center.x - size.x / 2,
            r.min.y == center.y - size.y / 2,
            r.max.x == center.x + size.x / 2,
            r.max.y == center.y + size.y / 2,
    {
        let half_x: i64 = size.x / 2;
        let half_y: i64 = size.y / 2;
        Rectangle {
            min: Vec2::new(center.x - half_x, center.y - half_y),
            max: Vec2::new(center.x + half_x, center.y + half_y),
        }
    }

    /// The midpoint, rounded down to the grid on each axis.
    pub fn center(&self) -> (c: Vec2)
        requires
            self.wf(),
            self.in_range(),
        ensures
            c.x == self.min.x + (self.max.x - self.min.x) / 2,
            c.y == self.min.y + (self.max.y - self.min.y) / 2,
    {
        Vec2::new(
            self.min.x + (self.max.x - self.min.x) / 2,
            self.min.y + (self.max.y - self.min.y) / 2,
        )
    }

    /// Width and height.
    pub fn size(&self) -> (s: Vec2)
        requires
            self.in_range(),
        ensures
            s.x == self.max.x - self.min.x,
            s.y == self.max.y - self.min.y,
    {
        Vec2::new(self.max.x - self.min.x, self.max.y - self.min.y)
    }

    /// Whether `point` lies strictly inside; a point on an edge is outside.
    pub fn contains(&self, point: Vec2) -> (inside: bool)
        ensures
            inside == self.encloses(point),
    {
        self.min.x < point.x && point.x < self.max.x && self.min.y < point.y && point.y
            < self.max.y
    }

    /// Whether the two rectangles overlap strictly; touching ones do not.
    pub fn intersects(&self, other: &Rectangle) -> (hit: bool)
        ensures
            hit == self.overlaps(*other),
    {
        self.max.x > other.min.x && other.max.x > self.min.x && self.max.y > other.min.y
            && other.max.y > self.min.y
    }

    /// Extrudes the rectangle along the y axis, from height `min` to height `max`.
    pub fn extrude_y(&self, min: i64, max: i64) -> (b: BoundingBox)
        ensures
            b == self.raised(min, max),
    {
        BoundingBox {
            min: Vec3::new(self.min.x, min, self.min.y),
            max: Vec3::new(self.max.x, max, self.max.y),
            color: None,
        }
    }

    fn is_straddled(&self, mask: &Rectangle, edge: u8) -> (yes: bool)
        requires
            edge < 4,
        ensures
            yes == self.straddles(*mask, edge as nat),
    {
        if edge == 0 {
            self.min.x < mask.min.x && mask.min.x < self.max.x
        } else if edge == 1 {
            self.min.x < mask.max.x && mask.max.x < self.max.x
        } else if edge == 2 {
            self.min.y < mask.min.y && mask.min.y < self.max.y
        } else {
            self.min.y < mask.max.y && mask.max.y < self.max.y
        }
    }

    fn split_at(&self, mask: &Rectangle, edge: u8) -> (parts: (Rectangle, Rectangle))
        requires
            edge < 4,
        ensures
            parts.0 == self.outer_part(*mask, edge as nat),
            parts.1 == self.inner_part(*mask, edge as nat),
    {
        if edge == 0 {
            (
                Rectangle { min: self.min, max: Vec2::new(mask.min.x, self.max.y) },
                Rectangle { min: Vec2::new(mask.min.x, self.min.y), max: self.max },
            )
        } else if edge == 1 {
            (
                Rectangle { min: Vec2::new(mask.max.x, self.min.y), max: self.max },
                Rectangle { min: self.min, max: Vec2::new(mask.max.x, self.max.y) },
            )
        } else if edge == 2 {
            (
                Rectangle { min: self.min, max: Vec2::new(self.max.x, mask.min.y) },
                Rectangle { min: Vec2::new(self.min.x, mask.min.y), max: self.max },
            )
        } else {
            (
                Rectangle { min: Vec2::new(self.min.x, mask.max.y), max: self.max },
                Rectangle { min: self.min, max: Vec2::new(self.max.x, mask.max.y) },
            )
        }
    }

    /// Subtracts `mask` from the rectangle. A rectangle that `mask` does not
    /// overlap comes back whole. Otherwise the mask's edges are tried in the
    /// order lower x, upper x, lower y, upper y, and each edge that straddles
    /// what is left splits off one piece, so the pieces come in that order.
    pub fn cut_by(self, mask: Rectangle) -> (pieces: Vec<Rectangle>)
        ensures
            pieces@ == self.cut_spec(mask),
    {
        let mut pieces: Vec<Rectangle> = Vec::new();
        if !self.intersects(&mask) {
            pieces.push(self);
            assert(pieces@ =~= seq![self]);
            return pieces;
        }
        let mut rest = self;
        let mut edge: u8 = 0;
        while edge < 4
            invariant
                edge <= 4,
                pieces@ + rest.carve(mask, edge as nat) == self.carve(mask, 0),
            decreases 4 - edge,
        {
            if rest.is_straddled(&mask, edge) {
                let (outer, inner) = rest.split_at(&mask, edge);
                assert(pieces@.push(outer) + inner.carve(mask, (edge + 1) as nat) =~= pieces@
                    + rest.carve(mask, edge as nat));
                pieces.push(outer);
                rest = inner;
            }
            edge += 1;
        }
        assert(pieces@ + rest.carve(mask, 4) =~= pieces@);
        pieces
    }
}

/// The edges of `mask` before `edge` no longer cut `piece`: on each of them
/// `piece` already ends at the mask or inside it.
pub open spec fn settled(piece: Rectangle, mask: Rectangle, edge: nat) -> bool {
    &&& edge > 0 ==> piece.min.x >= mask.min.x
    &&& edge > 1 ==> piece.max.x <= mask.max.x
    &&& edge > 2 ==> piece.min.y >= mask.min.y
    &&& edge > 3 ==> piece.max.y <= mask.max.y
}

proof fn lemma_covered_by_cons(head: Rectangle, tail: Seq<Rectangle>, x: int, y: int)
    ensures
        covered_by(seq![head] + tail, x, y) <==> (head.covers(x, y) || covered_by(tail, x, y)),
{
    let all = seq![head] + tail;
    if covered_by(all, x, y) {
        let i = choose|i: int| 0 <= i < all.len() && #[trigger] all[i].covers(x, y);
        if i > 0 {
            assert(tail[i - 1] == all[i]);
            assert(tail[i - 1].covers(x, y));
        }
    }
    if head.covers(x, y) {
        assert(all[0].covers(x, y));
    }
    if covered_by(tail, x, y) {
        let j = choose|j: int| 0 <= j < tail.len() && #[trigger] tail[j].covers(x, y);
        assert(all[j + 1] == tail[j]);
        assert(all[j + 1].covers(x, y));
    }
}

proof fn lemma_carve_covers(piece: Rectangle, mask: Rectangle, edge: nat, x: int, y: int)
    requires
        mask.solid(),
        piece.overlaps(mask),
        edge <= 4,
        settled(piece, mask, edge),
    ensures
        covered_by(piece.carve(mask, edge), x, y) <==> (piece.covers(x, y) && !mask.covers(x, y)),
    decreases 4 - edge,
{
    if edge >= 4 {
        assert(piece.carve(mask, edge).len() == 0);
    } else if piece.straddles(mask, edge) {
        let outer = piece.outer_part(mask, edge);
        let inner = piece.inner_part(mask, edge);
        lemma_carve_covers(inner, mask, edge + 1, x, y);
        lemma_covered_by_cons(outer, inner.carve(mask, edge + 1), x, y);
    } else {
        lemma_carve_covers(piece, mask, edge + 1, x, y);
    }
}

proof fn lemma_carve_within(piece: Rectangle, mask: Rectangle, edge: nat, i: int)
    requires
        piece.wf(),
        0 <= i < piece.carve(mask, edge).len(),
    ensures
        piece.carve(mask, edge)[i].wf(),
        piece.carve(mask, edge)[i].within(piece),
    decreases 4 - edge,
{
    if edge >= 4 {
    } else if piece.straddles(mask, edge) {
        let inner = piece.inner_part(mask, edge);
        if i > 0 {
            lemma_carve_within(inner, mask, edge + 1, i - 1);
        }
    } else {
        lemma_carve_within(piece, mask, edge + 1, i);
    }
}

proof fn lemma_carve_disjoint(piece: Rectangle, mask: Rectangle, edge: nat, i: int, j: int)
    requires
        piece.wf(),
        0 <= i < j < piece.carve(mask, edge).len(),
    ensures
        !piece.carve(mask, edge)[i].overlaps(piece.carve(mask, edge)[j]),
    decreases 4 - edge,
{
    if edge >= 4 {
    } else if piece.straddles(mask, edge) {
        let inner = piece.inner_part(mask, edge);
        if i > 0 {
            lemma_carve_disjoint(inner, mask, edge + 1, i - 1, j - 1);
        } else {
            lemma_carve_within(inner, mask, edge + 1, j - 1);
        }
    } else {
        lemma_carve_disjoint(piece, mask, edge + 1, i, j);
    }
}

/// `mask` cuts `r` cleanly: it has positive width and height, or it does
/// not overlap `r`.
pub open spec fn cuts_cleanly(r: Rectangle, mask: Rectangle) -> bool {
    mask.solid() || !r.overlaps(mask)
}

/// The pieces of a cut cover exactly the cells of `r` that `mask` does not
/// cover, for every mask that has positive width and height or does not
/// overlap `r`. A mask without width or height that overlaps `r` covers no
/// cell, and still `r` is split at each edge of the mask that straddles
/// it: what is left after the last split is dropped, so the pieces then
/// cover less than `r`.
pub proof fn cut_covers_difference(r: Rectangle, mask: Rectangle)
    requires
        r.wf(),
        cuts_cleanly(r, mask),
    ensures
        forall|x: int, y: int|
            (#[trigger] covered_by(r.cut_spec(mask), x, y)) <==> (r.covers(x, y) && !mask.covers(
                x,
                y,
            )),
{
    assert forall|x: int, y: int|
        (#[trigger] covered_by(r.cut_spec(mask), x, y)) <==> (r.covers(x, y) && !mask.covers(
            x,
            y,
        )) by {
        if r.overlaps(mask) {
            lemma_carve_covers(r, mask, 0, x, y);
        } else {
            let whole = seq![r];
            assert(whole[0] == r);
            if r.covers(x, y) {
                assert(whole[0].covers(x, y));
            }
        }
    }
}

/// The pieces of a cut lie inside `r`, and no two of them overlap.
pub proof fn cut_pieces_disjoint(r: Rectangle, mask: Rectangle)
    requires
        r.wf(),
    ensures
        forall|i: int|
            0 <= i < r.cut_spec(mask).len() ==> (#[trigger] r.cut_spec(mask)[i]).wf() && r.cut_spec(
                mask,
            )[i].within(r),
        forall|i: int, j: int|
            0 <= i < j < r.cut_spec(mask).len() ==> !(#[trigger] r.cut_spec(mask)[i]).overlaps(
                #[trigger] r.cut_spec(mask)[j],
            ),
{
    let pieces = r.cut_spec(mask);
    assert forall|i: int| 0 <= i < pieces.len() implies (#[trigger] pieces[i]).wf()
        && pieces[i].within(r) by {
        if r.overlaps(mask) {
            lemma_carve_within(r, mask, 0, i);
        }
    }
    assert forall|i: int, j: int| 0 <= i < j < pieces.len() implies !(#[trigger] pieces[i]).overlaps(
        #[trigger] pieces[j],
    ) by {
        if r.overlaps(mask) {
            lemma_carve_disjoint(r, mask, 0, i, j);
        }
    }
}

/// Projecting a box along y and extruding the rectangle over the box's own
/// heights gives the box's corners back, and the box itself where it has no colour.
pub proof fn project_extrude_round_trip(b: BoundingBox)
    ensures
        b.footprint().raised(b.min.y, b.max.y).min == b.min,
        b.footprint().raised(b.min.y, b.max.y).max == b.max,
        b.color is None ==> b.footprint().raised(b.min.y, b.max.y) == b,
{
}

/// A cut leaves at most four pieces; it leaves four only where `mask` lies
/// strictly inside `r`, and none only where `mask` hides all of `r`.
pub proof fn cut_piece_count(r: Rectangle, mask: Rectangle)
    ensures
        r.cut_spec(mask).len() <= 4,
        r.cut_spec(mask).len() == 4 ==> r.min.x < mask.min.x && mask.max.x < r.max.x && r.min.y
            < mask.min.y && mask.max.y < r.max.y,
        r.cut_spec(mask).len() == 0 ==> r.within(mask),
{
    reveal_with_fuel(Rectangle::carve, 5);
}

} // verus!
