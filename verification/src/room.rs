//! A room: a floor, the four walls that frame it, and doorways cut into them.

use vstd::prelude::*;
use crate::bounding_box::{BoundingBox, Color};
use crate::rectangle::{
    covered_by, cut_covers_difference, cut_pieces_disjoint, cuts_cleanly, Rectangle,
};
use crate::vector::{Vec2, Vec3};

verus! {

/// Width of a passage between two rooms: three world units.
pub const PASSAGE_WIDTH: i64 = 3000;

/// Thickness of a wall: half a world unit.
pub const WALL_THICKNESS: i64 = 500;

/// Height of the top of every wall: five world units.
pub const WALL_HEIGHT: i64 = 5000;

/// Height of the underside of every floor and wall: one world unit below ground.
pub const WALL_BASE: i64 = -1000;

/// Largest magnitude of a coordinate of any box in a world.
pub const WORLD_MAX: i64 = 1_000_000_000_000_000;

/// A floor with its walls and whether the world has grown from it yet.
/// The first box is the floor slab; the others are wall segments.
#[derive(Debug)]
pub struct Room {
    pub boxes: Vec<BoundingBox>,
    pub floor: Rectangle,
    pub explored: bool,
}

/// The colour of the floor slab of a room that has been explored: green.
pub open spec fn explored_tint() -> Color {
    Color { red: 0, green: 255, blue: 0, alpha: 255 }
}

/// The coordinate lies within the world.
pub open spec fn in_world(c: i64) -> bool {
    -WORLD_MAX <= c <= WORLD_MAX
}

/// The box is well formed and lies within the world.
pub open spec fn sited(b: BoundingBox) -> bool {
    &&& b.wf()
    &&& in_world(b.min.x) && in_world(b.min.y) && in_world(b.min.z)
    &&& in_world(b.max.x) && in_world(b.max.y) && in_world(b.max.z)
}

/// The box reaches from the underside of the floor to the top of the walls.
pub open spec fn full_height(b: BoundingBox) -> bool {
    b.min.y == WALL_BASE && b.max.y == WALL_HEIGHT
}

/// Every box of the sequence but the first has the full height of a wall.
pub open spec fn walls_full_height(boxes: Seq<BoundingBox>) -> bool {
    forall|i: int| 1 <= i < boxes.len() ==> full_height(#[trigger] boxes[i])
}

/// The floor is well formed and leaves room for its walls within the world.
pub open spec fn room_fits(floor: Rectangle) -> bool {
    &&& floor.wf()
    &&& -WORLD_MAX + WALL_THICKNESS <= floor.min.x
    &&& -WORLD_MAX + WALL_THICKNESS <= floor.min.y
    &&& floor.max.x <= WORLD_MAX - WALL_THICKNESS
    &&& floor.max.y <= WORLD_MAX - WALL_THICKNESS
}

/// The first element of a sequence as a sequence, or nothing.
pub open spec fn first_of(s: Seq<BoundingBox>) -> Seq<BoundingBox> {
    if s.len() > 0 {
        seq![s[0]]
    } else {
        s
    }
}

/// All elements but the first.
pub open spec fn rest_of(s: Seq<BoundingBox>) -> Seq<BoundingBox> {
    if s.len() > 0 {
        s.subrange(1, s.len() as int)
    } else {
        s
    }
}

/// The floor slab and the four walls of a new room, in the order floor,
/// upper-y wall, upper-x wall, lower-y wall, lower-x wall. Each wall takes
/// one corner of the frame with it, so the four close the frame.
pub open spec fn fresh_boxes(floor: Rectangle) -> Seq<BoundingBox> {
    let t = WALL_THICKNESS;
    seq![
        BoundingBox {
            min: Vec3 { x: floor.min.x, y: WALL_BASE, z: floor.min.y },
            max: Vec3 { x: floor.max.x, y: 0, z: floor.max.y },
            color: None,
        },
        BoundingBox {
            min: Vec3 { x: floor.min.x, y: WALL_BASE, z: floor.max.y },
            max: Vec3 { x: (floor.max.x + t) as i64, y: WALL_HEIGHT, z: (floor.max.y + t) as i64 },
            color: None,
        },
        BoundingBox {
            min: Vec3 { x: floor.max.x, y: WALL_BASE, z: (floor.min.y - t) as i64 },
            max: Vec3 { x: (floor.max.x + t) as i64, y: WALL_HEIGHT, z: floor.max.y },
            color: None,
        },
        BoundingBox {
            min: Vec3 { x: (floor.min.x - t) as i64, y: WALL_BASE, z: (floor.min.y - t) as i64 },
            max: Vec3 { x: floor.max.x, y: WALL_HEIGHT, z: floor.min.y },
            color: None,
        },
        BoundingBox {
            min: Vec3 { x: (floor.min.x - t) as i64, y: WALL_BASE, z: floor.min.y },
            max: Vec3 { x: floor.min.x, y: WALL_HEIGHT, z: (floor.max.y + t) as i64 },
            color: None,
        },
    ]
}

/// The full-height wall segments that remain of `wall` once the doorway
/// `mask` is cut out of its footprint.
pub open spec fn wall_pieces(wall: BoundingBox, mask: Rectangle) -> Seq<BoundingBox> {
    let cut = wall.footprint().cut_spec(mask);
    Seq::new(cut.len(), |i: int| cut[i].raised(WALL_BASE, WALL_HEIGHT))
}

/// The boxes that keep their place when the first `upto` boxes have been
/// cut by `mask`: the floor slab untouched, then for each wall its first
/// remaining piece, a wall that is cut away entirely leaving none.
pub open spec fn kept_boxes(boxes: Seq<BoundingBox>, mask: Rectangle, upto: nat) -> Seq<
    BoundingBox,
>
    decreases upto,
{
    if upto <= 1 {
        first_of(boxes)
    } else {
        kept_boxes(boxes, mask, (upto - 1) as nat) + first_of(
            wall_pieces(boxes[upto - 1], mask),
        )
    }
}

/// The further pieces of the walls among the first `upto` boxes, wall by wall.
pub open spec fn spare_boxes(boxes: Seq<BoundingBox>, mask: Rectangle, upto: nat) -> Seq<
    BoundingBox,
>
    decreases upto,
{
    if upto <= 1 {
        Seq::empty()
    } else {
        spare_boxes(boxes, mask, (upto - 1) as nat) + rest_of(wall_pieces(boxes[upto - 1], mask))
    }
}

/// The boxes of a room after the doorway `mask` is cut through its walls:
/// those that keep their place, then the further pieces.
pub open spec fn cut_boxes(boxes: Seq<BoundingBox>, mask: Rectangle) -> Seq<BoundingBox> {
    kept_boxes(boxes, mask, boxes.len()) + spare_boxes(boxes, mask, boxes.len())
}

/// Every box of the sequence is well formed and lies within the world.
pub open spec fn all_sited(boxes: Seq<BoundingBox>) -> bool {
    forall|i: int| 0 <= i < boxes.len() ==> sited(#[trigger] boxes[i])
}

proof fn lemma_wall_pieces_sited(wall: BoundingBox, mask: Rectangle)
    requires
        sited(wall),
    ensures
        all_sited(wall_pieces(wall, mask)),
{
    cut_pieces_disjoint(wall.footprint(), mask);
    let cut = wall.footprint().cut_spec(mask);
    assert forall|i: int| 0 <= i < wall_pieces(wall, mask).len() implies sited(
        #[trigger] wall_pieces(wall, mask)[i],
    ) by {
        assert(cut[i].wf() && cut[i].within(wall.footprint()));
    }
}

/// Cuts `mask` out of the footprint of every box but the first and raises
/// the pieces to full wall height.
pub fn cut_wall_boxes(boxes: &Vec<BoundingBox>, mask: Rectangle) -> (out: Vec<BoundingBox>)
    ensures
        out@ == cut_boxes(boxes@, mask),
        all_sited(boxes@) ==> all_sited(out@),
        walls_full_height(out@),
{
    let mut kept: Vec<BoundingBox> = Vec::new();
    let mut spare: Vec<BoundingBox> = Vec::new();
    let count = boxes.len();
    if count == 0 {
        assert(kept@ =~= cut_boxes(boxes@, mask));
        return kept;
    }
    kept.push(boxes[0]);
    assert(kept@ =~= kept_boxes(boxes@, mask, 1));
    let mut k: usize = 1;
    while k < count
        invariant
            1 <= k <= count,
            count == boxes@.len(),
            kept@ == kept_boxes(boxes@, mask, k as nat),
            spare@ == spare_boxes(boxes@, mask, k as nat),
            all_sited(boxes@) ==> all_sited(kept@) && all_sited(spare@),
            kept@.len() >= 1,
            walls_full_height(kept@),
            forall|i: int| 0 <= i < spare@.len() ==> full_height(#[trigger] spare@[i]),
        decreases count - k,
    {
        let pieces = boxes[k].project_y().cut_by(mask);
        let ghost walls = wall_pieces(boxes@[k as int], mask);
        let ghost spare_before = spare@;
        proof {
            if all_sited(boxes@) {
                lemma_wall_pieces_sited(boxes@[k as int], mask);
            }
        }
        if pieces.len() > 0 {
            kept.push(pieces[0].extrude_y(WALL_BASE, WALL_HEIGHT));
            let mut j: usize = 1;
            while j < pieces.len()
                invariant
                    1 <= j <= pieces@.len(),
                    pieces@.len() == walls.len(),
                    forall|i: int|
                        0 <= i < walls.len() ==> walls[i] == (#[trigger] pieces@[i]).raised(
                            WALL_BASE,
                            WALL_HEIGHT,
                        ),
                    spare@ == spare_before + walls.subrange(1, j as int),
                    all_sited(boxes@) ==> all_sited(spare_before) && all_sited(walls),
                    forall|i: int| 0 <= i < spare@.len() ==> full_height(#[trigger] spare@[i]),
                decreases pieces@.len() - j,
            {
                spare.push(pieces[j].extrude_y(WALL_BASE, WALL_HEIGHT));
                assert(spare@ =~= spare_before + walls.subrange(1, j as int + 1));
                j += 1;
            }
            assert(kept@ =~= kept_boxes(boxes@, mask, k as nat) + first_of(walls));
            assert(walls.subrange(1, j as int) =~= rest_of(walls));
        } else {
            assert(spare@ =~= spare_before + rest_of(walls));
        }
        k += 1;
    }
    let ghost kept_seq = kept@;
    let ghost spare_seq = spare@;
    kept.append(&mut spare);
    assert(kept@ =~= kept_seq + spare_seq);
    kept
}

impl Room {
    /// The first box is the slab under the floor, every other box is a wall
    /// segment of full height, and all boxes are well formed and lie within
    /// the world.
    pub open spec fn wf(self) -> bool {
        &&& room_fits(self.floor)
        &&& self.boxes@.len() >= 1
        &&& all_sited(self.boxes@)
        &&& self.boxes@[0].footprint() == self.floor
        &&& self.boxes@[0].min.y == WALL_BASE
        &&& self.boxes@[0].max.y == 0
        &&& walls_full_height(self.boxes@)
    }

    /// The floor grown by the wall thickness on all four sides.
    pub open spec fn frame(self) -> Rectangle {
        Rectangle {
            min: Vec2 {
                x: (self.floor.min.x - WALL_THICKNESS) as i64,
                y: (self.floor.min.y - WALL_THICKNESS) as i64,
            },
            max: Vec2 {
                x: (self.floor.max.x + WALL_THICKNESS) as i64,
                y: (self.floor.max.y + WALL_THICKNESS) as i64,
            },
        }
    }

    /// A room on `floor`: the floor slab, reaching one world unit below
    /// ground, and four walls of full height around it.
    pub fn new(floor: Rectangle) -> (room: Room)
        requires
            room_fits(floor),
        ensures
            room.floor == floor,
            !room.explored,
            room.boxes@ == fresh_boxes(floor),
            room.wf(),
    {
        let t: i64 = WALL_THICKNESS;
        let mut boxes: Vec<BoundingBox> = Vec::new();
        boxes.push(
            BoundingBox {
                min: Vec3::new(floor.min.x, WALL_BASE, floor.min.y),
                max: Vec3::new(floor.max.x, 0, floor.max.y),
                color: None,
            },
        );
        boxes.push(
            BoundingBox {
                min: Vec3::new(floor.min.x, WALL_BASE, floor.max.y),
                max: Vec3::new(floor.max.x + t, WALL_HEIGHT, floor.max.y + t),
                color: None,
            },
        );
        boxes.push(
            BoundingBox {
                min: Vec3::new(floor.max.x, WALL_BASE, floor.min.y - t),
                max: Vec3::new(floor.max.x + t, WALL_HEIGHT, floor.max.y),
                color: None,
            },
        );
        boxes.push(
            BoundingBox {
                min: Vec3::new(floor.min.x - t, WALL_BASE, floor.min.y - t),
                max: Vec3::new(floor.max.x, WALL_HEIGHT, floor.min.y),
                color: None,
            },
        );
        boxes.push(
            BoundingBox {
                min: Vec3::new(floor.min.x - t, WALL_BASE, floor.min.y),
                max: Vec3::new(floor.min.x, WALL_HEIGHT, floor.max.y + t),
                color: None,
            },
        );
        assert(boxes@ =~= fresh_boxes(floor));
        Room { boxes, floor, explored: false }
    }

    /// Punches the doorway `mask` through every wall it overlaps. The floor
    /// slab stays as it is. A wall keeps its place with its first remaining
    /// piece, or goes where nothing remains of it; further pieces are added
    /// behind all walls.
    pub fn cut_walls(&mut self, mask: Rectangle)
        ensures
            final(self).boxes@ == cut_boxes(old(self).boxes@, mask),
            final(self).floor == old(self).floor,
            final(self).explored == old(self).explored,
            old(self).wf() ==> final(self).wf(),
    {
        let cut = cut_wall_boxes(&self.boxes, mask);
        proof {
            if self.boxes@.len() >= 1 {
                lemma_kept_starts_with_first(self.boxes@, mask, self.boxes@.len());
            }
        }
        self.boxes = cut;
    }

    /// Records that the world has grown from this room, and tints its floor slab.
    pub fn mark_explored(&mut self)
        ensures
            final(self).explored,
            final(self).floor == old(self).floor,
            final(self).boxes@ == (if old(self).boxes@.len() > 0 {
                old(self).boxes@.update(0, old(self).boxes@[0].painted(explored_tint()))
            } else {
                old(self).boxes@
            }),
            old(self).wf() ==> final(self).wf(),
    {
        self.explored = true;
        if self.boxes.len() > 0 {
            let slab = self.boxes[0];
            self.boxes.set(
                0,
                BoundingBox { min: slab.min, max: slab.max, color: Some(Color::new(0, 255, 0, 255)) },
            );
        }
    }

    /// The outer frame of the room: the floor with its walls.
    pub fn area(&self) -> (r: Rectangle)
        requires
            room_fits(self.floor),
        ensures
            r == self.frame(),
    {
        Rectangle {
            min: Vec2::new(self.floor.min.x - WALL_THICKNESS, self.floor.min.y - WALL_THICKNESS),
            max: Vec2::new(self.floor.max.x + WALL_THICKNESS, self.floor.max.y + WALL_THICKNESS),
        }
    }
}

/// Cutting doorways leaves the first box, the floor slab, in its place.
pub proof fn lemma_kept_starts_with_first(boxes: Seq<BoundingBox>, mask: Rectangle, upto: nat)
    requires
        boxes.len() >= 1,
    ensures
        kept_boxes(boxes, mask, upto).len() >= 1,
        kept_boxes(boxes, mask, upto)[0] == boxes[0],
    decreases upto,
{
    if upto > 1 {
        lemma_kept_starts_with_first(boxes, mask, (upto - 1) as nat);
    }
}

/// Some box of `boxes` from index `from` on stands over the grid cell at
/// `(x, y)` of the ground.
pub open spec fn stands_over(boxes: Seq<BoundingBox>, from: int, x: int, y: int) -> bool {
    exists|i: int| from <= i < boxes.len() && (#[trigger] boxes[i]).footprint().covers(x, y)
}

proof fn lemma_stands_over_append(
    a: Seq<BoundingBox>,
    b: Seq<BoundingBox>,
    from: int,
    x: int,
    y: int,
)
    requires
        0 <= from <= a.len(),
    ensures
        stands_over(a + b, from, x, y) <==> (stands_over(a, from, x, y) || stands_over(b, 0, x, y)),
{
    let all = a + b;
    if stands_over(all, from, x, y) {
        let i = choose|i: int| from <= i < all.len() && (#[trigger] all[i]).footprint().covers(x, y);
        if i < a.len() {
            assert(a[i] == all[i]);
        } else {
            assert(b[i - a.len()] == all[i]);
        }
    }
    if stands_over(a, from, x, y) {
        let i = choose|i: int| from <= i < a.len() && (#[trigger] a[i]).footprint().covers(x, y);
        assert(all[i] == a[i]);
    }
    if stands_over(b, 0, x, y) {
        let i = choose|i: int| 0 <= i < b.len() && (#[trigger] b[i]).footprint().covers(x, y);
        assert(all[i + a.len()] == b[i]);
    }
}

proof fn lemma_wall_pieces_cover(wall: BoundingBox, mask: Rectangle, x: int, y: int)
    requires
        wall.wf(),
        cuts_cleanly(wall.footprint(), mask),
    ensures
        (stands_over(first_of(wall_pieces(wall, mask)), 0, x, y) || stands_over(
            rest_of(wall_pieces(wall, mask)),
            0,
            x,
            y,
        )) <==> (wall.footprint().covers(x, y) && !mask.covers(x, y)),
{
    let cut = wall.footprint().cut_spec(mask);
    let pieces = wall_pieces(wall, mask);
    let head = first_of(pieces);
    let tail = rest_of(pieces);
    cut_covers_difference(wall.footprint(), mask);
    assert(covered_by(cut, x, y) <==> (wall.footprint().covers(x, y) && !mask.covers(x, y)));
    if covered_by(cut, x, y) {
        let i = choose|i: int| 0 <= i < cut.len() && #[trigger] cut[i].covers(x, y);
        assert(pieces[i].footprint() == cut[i]);
        if i == 0 {
            assert(head[0] == pieces[0]);
        } else {
            assert(tail[i - 1] == pieces[i]);
        }
    }
    if stands_over(head, 0, x, y) {
        let i = choose|i: int| 0 <= i < head.len() && (#[trigger] head[i]).footprint().covers(x, y);
        assert(head[i] == pieces[0]);
        assert(pieces[0].footprint() == cut[0]);
        assert(cut[0].covers(x, y));
    }
    if stands_over(tail, 0, x, y) {
        let i = choose|i: int| 0 <= i < tail.len() && (#[trigger] tail[i]).footprint().covers(x, y);
        assert(tail[i] == pieces[i + 1]);
        assert(pieces[i + 1].footprint() == cut[i + 1]);
        assert(cut[i + 1].covers(x, y));
    }
}

proof fn lemma_cut_upto_covers(boxes: Seq<BoundingBox>, mask: Rectangle, upto: nat, x: int, y: int)
    requires
        1 <= upto <= boxes.len(),
        forall|i: int|
            0 <= i < boxes.len() ==> (#[trigger] boxes[i]).wf() && (i >= 1 ==> cuts_cleanly(
                boxes[i].footprint(),
                mask,
            )),
    ensures
        (stands_over(kept_boxes(boxes, mask, upto), 1, x, y) || stands_over(
            spare_boxes(boxes, mask, upto),
            0,
            x,
            y,
        )) <==> (stands_over(boxes.take(upto as int), 1, x, y) && !mask.covers(x, y)),
    decreases upto,
{
    if upto == 1 {
        assert(kept_boxes(boxes, mask, 1).len() == 1);
        assert(spare_boxes(boxes, mask, 1).len() == 0);
        assert(boxes.take(1).len() == 1);
    } else {
        let before = (upto - 1) as nat;
        let wall = boxes[upto - 1];
        lemma_cut_upto_covers(boxes, mask, before, x, y);
        lemma_kept_starts_with_first(boxes, mask, before);
        lemma_stands_over_append(
            kept_boxes(boxes, mask, before),
            first_of(wall_pieces(wall, mask)),
            1,
            x,
            y,
        );
        lemma_stands_over_append(
            spare_boxes(boxes, mask, before),
            rest_of(wall_pieces(wall, mask)),
            0,
            x,
            y,
        );
        assert(wall.wf());
        lemma_wall_pieces_cover(wall, mask, x, y);
        assert(boxes.take(upto as int) =~= boxes.take(before as int) + seq![wall]);
        lemma_stands_over_append(boxes.take(before as int), seq![wall], 1, x, y);
        let one = seq![wall];
        assert(one[0] == wall);
        assert(stands_over(one, 0, x, y) <==> wall.footprint().covers(x, y));
    }
}

/// After a doorway is cut, the walls stand over exactly the ground they
/// stood over before less the doorway, for every doorway that has positive
/// width and depth or overlaps no wall. A doorway without width or depth
/// that overlaps a wall stands over no ground, and still that wall is
/// split at each edge of the doorway that straddles it and loses what is
/// left after the last split.
pub proof fn cut_walls_opens_doorway(boxes: Seq<BoundingBox>, mask: Rectangle)
    requires
        boxes.len() >= 1,
        forall|i: int|
            0 <= i < boxes.len() ==> (#[trigger] boxes[i]).wf() && (i >= 1 ==> cuts_cleanly(
                boxes[i].footprint(),
                mask,
            )),
    ensures
        cut_boxes(boxes, mask)[0] == boxes[0],
        forall|x: int, y: int|
            (#[trigger] stands_over(cut_boxes(boxes, mask), 1, x, y)) <==> (stands_over(
                boxes,
                1,
                x,
                y,
            ) && !mask.covers(x, y)),
{
    lemma_kept_starts_with_first(boxes, mask, boxes.len());
    assert forall|x: int, y: int|
        (#[trigger] stands_over(cut_boxes(boxes, mask), 1, x, y)) <==> (stands_over(boxes, 1, x, y)
            && !mask.covers(x, y)) by {
        lemma_cut_upto_covers(boxes, mask, boxes.len(), x, y);
        lemma_stands_over_append(
            kept_boxes(boxes, mask, boxes.len()),
            spare_boxes(boxes, mask, boxes.len()),
            1,
            x,
            y,
        );
        assert(boxes.take(boxes.len() as int) =~= boxes);
    }
}

/// The walls of a new room stand over exactly the frame less the floor.
pub proof fn fresh_walls_close_frame(floor: Rectangle)
    requires
        room_fits(floor),
    ensures
        forall|x: int, y: int|
            (#[trigger] stands_over(fresh_boxes(floor), 1, x, y)) <==> (x >= floor.min.x
                - WALL_THICKNESS && x < floor.max.x + WALL_THICKNESS && y >= floor.min.y
                - WALL_THICKNESS && y < floor.max.y + WALL_THICKNESS && !floor.covers(x, y)),
{
    let fresh = fresh_boxes(floor);
    assert forall|x: int, y: int|
        (#[trigger] stands_over(fresh, 1, x, y)) <==> (x >= floor.min.x - WALL_THICKNESS && x
            < floor.max.x + WALL_THICKNESS && y >= floor.min.y - WALL_THICKNESS && y < floor.max.y
            + WALL_THICKNESS && !floor.covers(x, y)) by {
        assert(fresh.len() == 5);
        if fresh[1].footprint().covers(x, y) || fresh[2].footprint().covers(x, y)
            || fresh[3].footprint().covers(x, y) || fresh[4].footprint().covers(x, y) {
            assert(stands_over(fresh, 1, x, y));
        }
    }
}

} // verus!
