//! A world of rooms that grows where it is explored: neighbours are placed
//! around a room on its first visit and joined to it by passages.

use vstd::prelude::*;
use rand::Rng;
use crate::bounding_box::BoundingBox;
use crate::rectangle::Rectangle;
use crate::room::{
    all_sited, cut_boxes, explored_tint, fresh_boxes, lemma_kept_starts_with_first, room_fits,
    Room, PASSAGE_WIDTH, WALL_THICKNESS,
};
use crate::vector::{greater, lesser, Vec2, Vec3};

verus! {

/// Free space kept around a room's floor against every other floor: both
/// walls and four fifths of a world unit.
pub const MARGIN: i64 = 1800;

/// Least side of a new room's floor: eight world units.
pub const MIN_ROOM: i64 = 8000;

/// Upper limit, itself excluded, of a side of a new room's floor.
pub const MAX_ROOM: i64 = 24000;

/// Least distance between a room's floor and a neighbour's: both walls and
/// two world units.
pub const MIN_GAP: i64 = 3000;

/// Upper limit, itself excluded, of that distance.
pub const MAX_GAP: i64 = 7000;

/// Least length over which a neighbour's floor runs alongside the room's:
/// a passage width and one world unit.
pub const REACH: i64 = 4000;

/// Half the side of the first room's floor.
pub const SEED_HALF: i64 = 8000;

/// The rooms, in the order in which they were added, and the passages
/// between them, likewise.
#[derive(Debug)]
pub struct World {
    pub rooms: Vec<Room>,
    pub passages: Vec<Room>,
}

/// The floors keep their distance: `b` grown by the margin on all four
/// sides does not overlap `a`.
pub open spec fn apart(a: Rectangle, b: Rectangle) -> bool {
    !(b.max.x + MARGIN > a.min.x && a.max.x > b.min.x - MARGIN && b.max.y + MARGIN > a.min.y
        && a.max.y > b.min.y - MARGIN)
}

/// Both sides of the floor have at least the least length of a room.
pub open spec fn roomy(floor: Rectangle) -> bool {
    floor.max.x - floor.min.x >= MIN_ROOM && floor.max.y - floor.min.y >= MIN_ROOM
}

/// The floor placed next to `floor`: towards upper x, upper y, lower x or
/// lower y for `heading` 0, 1, 2 and 3. Its near edge lies `gap` beyond the
/// far edge of `floor`, and across that direction it starts at `slide`.
pub open spec fn candidate_spec(floor: Rectangle, heading: u8, gap: i64, size: Vec2, slide: i64)
    -> Rectangle {
    if heading == 0 {
        Rectangle {
            min: Vec2 { x: (floor.max.x + gap) as i64, y: slide },
            max: Vec2 { x: (floor.max.x + gap + size.x) as i64, y: (slide + size.y) as i64 },
        }
    } else if heading == 1 {
        Rectangle {
            min: Vec2 { x: slide, y: (floor.max.y + gap) as i64 },
            max: Vec2 { x: (slide + size.x) as i64, y: (floor.max.y + gap + size.y) as i64 },
        }
    } else if heading == 2 {
        Rectangle {
            min: Vec2 { x: (floor.min.x - gap - size.x) as i64, y: slide },
            max: Vec2 { x: (floor.min.x - gap) as i64, y: (slide + size.y) as i64 },
        }
    } else {
        Rectangle {
            min: Vec2 { x: slide, y: (floor.min.y - gap - size.y) as i64 },
            max: Vec2 { x: (slide + size.x) as i64, y: (floor.min.y - gap) as i64 },
        }
    }
}

/// Least start across the heading that leaves a neighbour of `size`
/// alongside `floor` over the required length.
pub open spec fn slide_low(floor: Rectangle, heading: u8, size: Vec2) -> int {
    if heading == 0 || heading == 2 {
        floor.min.y + REACH - size.y
    } else {
        floor.min.x + REACH - size.x
    }
}

/// Upper limit, itself excluded, of that start.
pub open spec fn slide_high(floor: Rectangle, heading: u8) -> int {
    if heading == 0 || heading == 2 {
        floor.max.y - REACH
    } else {
        floor.max.x - REACH
    }
}

/// `next` lies beside `home` as a neighbour does: its sides have a room's
/// lengths, on one axis it stands off by an allowed gap to either side, and
/// on the other it runs alongside `home` over the required length.
pub open spec fn neighbour(home: Rectangle, next: Rectangle) -> bool {
    let off_x = if next.min.x >= home.max.x {
        next.min.x - home.max.x
    } else {
        home.min.x - next.max.x
    };
    let off_y = if next.min.y >= home.max.y {
        next.min.y - home.max.y
    } else {
        home.min.y - next.max.y
    };
    &&& MIN_ROOM <= next.max.x - next.min.x < MAX_ROOM
    &&& MIN_ROOM <= next.max.y - next.min.y < MAX_ROOM
    &&& ({
        ||| (MIN_GAP <= off_x < MAX_GAP && next.max.y >= home.min.y + REACH && next.min.y < home.max.y
            - REACH)
        ||| (MIN_GAP <= off_y < MAX_GAP && next.max.x >= home.min.x + REACH && next.min.x < home.max.x
            - REACH)
    })
}

/// The values from which a neighbour of `home` is placed lie in the ranges
/// from which they are drawn.
pub open spec fn drawable(home: Rectangle, heading: u8, gap: i64, size: Vec2, slide: i64) -> bool {
    &&& heading < 4
    &&& MIN_GAP <= gap < MAX_GAP
    &&& MIN_ROOM <= size.x < MAX_ROOM
    &&& MIN_ROOM <= size.y < MAX_ROOM
    &&& slide_low(home, heading, size) <= slide < slide_high(home, heading)
}

/// The first `upto` rooms admit `floor`: each keeps the margin to it, and
/// it leaves room for its walls within the world.
pub open spec fn admitted_by(rooms: Seq<Room>, upto: int, floor: Rectangle) -> bool {
    &&& room_fits(floor)
    &&& forall|i: int| 0 <= i < upto ==> apart((#[trigger] rooms[i]).floor, floor)
}

/// The first `upto` rooms admit every neighbour of `home` that can be
/// drawn, so that no draw decides whether a neighbour is placed.
pub open spec fn welcomed_by(rooms: Seq<Room>, upto: int, home: Rectangle) -> bool {
    forall|heading: u8, gap: i64, size: Vec2, slide: i64|
        drawable(home, heading, gap, size, slide) ==> admitted_by(
            rooms,
            upto,
            #[trigger] candidate_spec(home, heading, gap, size, slide),
        )
}

/// Some neighbour of `home` that can be drawn is not admitted by the rooms
/// that were there at one point of the growth: by the first `k` rooms,
/// for some `k` from `first` to the number of all rooms.
pub open spec fn turned_away(rooms: Seq<Room>, first: int, home: Rectangle) -> bool {
    exists|k: int| first <= k <= rooms.len() && !(#[trigger] welcomed_by(rooms, k, home))
}

/// Whether the first `upto` rooms welcome the neighbours of `home` depends
/// on the floors of those rooms alone.
pub proof fn lemma_welcome_same_floors(a: Seq<Room>, b: Seq<Room>, upto: int, home: Rectangle)
    requires
        upto <= a.len(),
        upto <= b.len(),
        forall|i: int| 0 <= i < upto ==> (#[trigger] a[i]).floor == b[i].floor,
    ensures
        welcomed_by(a, upto, home) == welcomed_by(b, upto, home),
{
    if welcomed_by(a, upto, home) {
        assert forall|heading: u8, gap: i64, size: Vec2, slide: i64|
            drawable(home, heading, gap, size, slide) implies admitted_by(
            b,
            upto,
            #[trigger] candidate_spec(home, heading, gap, size, slide),
        ) by {
            let c = candidate_spec(home, heading, gap, size, slide);
            assert(admitted_by(a, upto, c));
            assert forall|i: int| 0 <= i < upto implies apart((#[trigger] b[i]).floor, c) by {
                assert(apart(a[i].floor, c));
            }
        }
    }
    if welcomed_by(b, upto, home) {
        assert forall|heading: u8, gap: i64, size: Vec2, slide: i64|
            drawable(home, heading, gap, size, slide) implies admitted_by(
            a,
            upto,
            #[trigger] candidate_spec(home, heading, gap, size, slide),
        ) by {
            let c = candidate_spec(home, heading, gap, size, slide);
            assert(admitted_by(b, upto, c));
            assert forall|i: int| 0 <= i < upto implies apart((#[trigger] a[i]).floor, c) by {
                assert(b[i].floor == a[i].floor);
            }
        }
    }
}

/// Where some neighbour was turned away among rooms, it was among any
/// rooms that begin with the same floors.
pub proof fn lemma_turned_away_same_floors(
    a: Seq<Room>,
    b: Seq<Room>,
    first: int,
    home: Rectangle,
)
    requires
        a.len() <= b.len(),
        forall|i: int| 0 <= i < a.len() ==> (#[trigger] a[i]).floor == b[i].floor,
        turned_away(a, first, home),
    ensures
        turned_away(b, first, home),
{
    let k = choose|k: int| first <= k <= a.len() && !(#[trigger] welcomed_by(a, k, home));
    lemma_welcome_same_floors(a, b, k, home);
    assert(!welcomed_by(b, k, home));
}

/// The floors overlap along x, so a passage between them runs along y.
pub open spec fn shares_x(home: Rectangle, next: Rectangle) -> bool {
    home.min.x < next.max.x && next.min.x < home.max.x
}

/// The rectangle between two floors: on the axis they share, the stretch
/// common to both; on the other, the gap between them.
pub open spec fn bridge(home: Rectangle, next: Rectangle) -> Rectangle {
    let low_x = greater(home.min.x, next.min.x);
    let low_y = greater(home.min.y, next.min.y);
    let high_x = lesser(home.max.x, next.max.x);
    let high_y = lesser(home.max.y, next.max.y);
    Rectangle {
        min: Vec2 { x: lesser(low_x, high_x), y: lesser(low_y, high_y) },
        max: Vec2 { x: greater(low_x, high_x), y: greater(low_y, high_y) },
    }
}

/// What the shared stretch of the bridge has beyond a passage width.
pub open spec fn slack(home: Rectangle, next: Rectangle) -> int {
    let b = bridge(home, next);
    if shares_x(home, next) {
        b.max.x - b.min.x - PASSAGE_WIDTH
    } else {
        b.max.y - b.min.y - PASSAGE_WIDTH
    }
}

/// The floor of the passage between two floors: the bridge, narrowed to a
/// passage width that starts `shift` into the shared stretch.
pub open spec fn passage_floor_spec(home: Rectangle, next: Rectangle, shift: i64) -> Rectangle {
    let b = bridge(home, next);
    if shares_x(home, next) {
        Rectangle {
            min: Vec2 { x: (b.min.x + shift) as i64, y: b.min.y },
            max: Vec2 { x: (b.min.x + shift + PASSAGE_WIDTH) as i64, y: b.max.y },
        }
    } else {
        Rectangle {
            min: Vec2 { x: b.min.x, y: (b.min.y + shift) as i64 },
            max: Vec2 { x: b.max.x, y: (b.min.y + shift + PASSAGE_WIDTH) as i64 },
        }
    }
}

/// The boxes of a room once it is marked as explored: the floor slab tinted.
pub open spec fn marked_boxes(boxes: Seq<BoundingBox>) -> Seq<BoundingBox> {
    if boxes.len() > 0 {
        boxes.update(0, boxes[0].painted(explored_tint()))
    } else {
        boxes
    }
}

/// `boxes` after a doorway is cut for each of the passages `from` to `upto`,
/// `upto` excluded, in that order.
pub open spec fn doorways_cut(boxes: Seq<BoundingBox>, ways: Seq<Room>, from: int, upto: int)
    -> Seq<BoundingBox>
    decreases upto - from,
{
    if upto <= from {
        boxes
    } else {
        cut_boxes(doorways_cut(boxes, ways, from, upto - 1), ways[upto - 1].floor)
    }
}

proof fn lemma_doorways_same(
    boxes: Seq<BoundingBox>,
    a: Seq<Room>,
    b: Seq<Room>,
    from: int,
    upto: int,
)
    requires
        forall|i: int| from <= i < upto ==> (#[trigger] a[i]).floor == b[i].floor,
    ensures
        doorways_cut(boxes, a, from, upto) == doorways_cut(boxes, b, from, upto),
    decreases upto - from,
{
    if upto > from {
        lemma_doorways_same(boxes, a, b, from, upto - 1);
    }
}

/// The boxes of the first `upto` rooms, room by room.
pub open spec fn boxes_of(rooms: Seq<Room>, upto: nat) -> Seq<BoundingBox>
    decreases upto,
{
    if upto == 0 {
        Seq::empty()
    } else {
        boxes_of(rooms, (upto - 1) as nat) + rooms[upto - 1].boxes@
    }
}

/// The first room whose floor strictly encloses `point`, if there is one.
pub open spec fn first_enclosing(rooms: Seq<Room>, point: Vec2, found: Option<usize>) -> bool {
    match found {
        Some(i) => i < rooms.len() && rooms[i as int].floor.encloses(point) && forall|j: int|
            0 <= j < i ==> !(#[trigger] rooms[j]).floor.encloses(point),
        None => forall|j: int| 0 <= j < rooms.len() ==> !(#[trigger] rooms[j]).floor.encloses(point),
    }
}

/// Draws an integer from `low` up to, not including, `high` from the
/// thread's generator, by `rand::Rng::gen_range`. Of the draw nothing is
/// claimed but that it lies in that range.
#[verifier::external_body]
fn random_in(low: i64, high: i64) -> (r: i64)
    requires
        low < high,
    ensures
        low <= r < high,
{
    rand::thread_rng().gen_range(low, high)
}

/// A neighbour runs alongside a roomy floor for more than a passage width.
pub proof fn lemma_neighbour_slack(home: Rectangle, next: Rectangle)
    requires
        home.wf(),
        roomy(home),
        neighbour(home, next),
    ensures
        slack(home, next) >= REACH - PASSAGE_WIDTH,
{
}

/// In a well-formed world the frames of two different rooms, walls
/// included, do not overlap: on one axis they are at least the margin less
/// both walls apart.
pub proof fn frames_stay_clear(world: World, i: int, j: int)
    requires
        world.wf(),
        0 <= i < world.rooms@.len(),
        0 <= j < world.rooms@.len(),
        i != j,
    ensures
        apart(world.rooms@[i].floor, world.rooms@[j].floor),
        !world.rooms@[i].frame().overlaps(world.rooms@[j].frame()),
        ({
            let a = world.rooms@[i].frame();
            let b = world.rooms@[j].frame();
            let clear = MARGIN - 2 * WALL_THICKNESS;
            ||| b.min.x - a.max.x >= clear
            ||| a.min.x - b.max.x >= clear
            ||| b.min.y - a.max.y >= clear
            ||| a.min.y - b.max.y >= clear
        }),
{
    assert(world.rooms@[i].wf());
    assert(world.rooms@[j].wf());
}

/// Keeping the margin does not depend on which floor is grown.
pub proof fn apart_symmetric(a: Rectangle, b: Rectangle)
    ensures
        apart(a, b) == apart(b, a),
{
}

/// The floor placed next to `floor`, see `candidate_spec`.
pub fn candidate(floor: &Rectangle, heading: u8, gap: i64, size: Vec2, slide: i64) -> (c:
    Rectangle)
    requires
        room_fits(*floor),
        0 <= gap <= MAX_GAP,
        0 <= size.x <= MAX_ROOM,
        0 <= size.y <= MAX_ROOM,
        slide_low(*floor, heading, size) <= slide <= slide_high(*floor, heading),
    ensures
        c == candidate_spec(*floor, heading, gap, size, slide),
        c.wf(),
{
    if heading == 0 {
        Rectangle {
            min: Vec2::new(floor.max.x + gap, slide),
            max: Vec2::new(floor.max.x + gap + size.x, slide + size.y),
        }
    } else if heading == 1 {
        Rectangle {
            min: Vec2::new(slide, floor.max.y + gap),
            max: Vec2::new(slide + size.x, floor.max.y + gap + size.y),
        }
    } else if heading == 2 {
        Rectangle {
            min: Vec2::new(floor.min.x - gap - size.x, slide),
            max: Vec2::new(floor.min.x - gap, slide + size.y),
        }
    } else {
        Rectangle {
            min: Vec2::new(slide, floor.min.y - gap - size.y),
            max: Vec2::new(slide + size.x, floor.min.y - gap),
        }
    }
}

/// Whether the floor leaves room for its walls within the world.
pub fn fits_world(floor: &Rectangle) -> (yes: bool)
    ensures
        yes == room_fits(*floor),
{
    let least: i64 = -crate::room::WORLD_MAX + crate::room::WALL_THICKNESS;
    let most: i64 = crate::room::WORLD_MAX - crate::room::WALL_THICKNESS;
    floor.min.x <= floor.max.x && floor.min.y <= floor.max.y && least <= floor.min.x && least
        <= floor.min.y && floor.max.x <= most && floor.max.y <= most
}

/// Whether `b`, grown by the margin, stays clear of `a`.
pub fn keeps_apart(a: &Rectangle, b: &Rectangle) -> (yes: bool)
    requires
        room_fits(*a),
        room_fits(*b),
    ensures
        yes == apart(*a, *b),
{
    !(b.max.x + MARGIN > a.min.x && a.max.x > b.min.x - MARGIN && b.max.y + MARGIN > a.min.y
        && a.max.y > b.min.y - MARGIN)
}

/// The floor of a passage between two floors, see `passage_floor_spec`.
pub fn passage_floor(home: &Rectangle, next: &Rectangle, shift: i64) -> (floor: Rectangle)
    requires
        room_fits(*home),
        room_fits(*next),
        0 <= shift <= slack(*home, *next),
    ensures
        floor == passage_floor_spec(*home, *next, shift),
        room_fits(floor),
{
    let a = Vec2::new(
        if home.min.x > next.min.x { home.min.x } else { next.min.x },
        if home.min.y > next.min.y { home.min.y } else { next.min.y },
    );
    let b = Vec2::new(
        if home.max.x < next.max.x { home.max.x } else { next.max.x },
        if home.max.y < next.max.y { home.max.y } else { next.max.y },
    );
    let span = Rectangle::new(a, b);
    if home.min.x < next.max.x && next.min.x < home.max.x {
        Rectangle {
            min: Vec2::new(span.min.x + shift, span.min.y),
            max: Vec2::new(span.min.x + shift + PASSAGE_WIDTH, span.max.y),
        }
    } else {
        Rectangle {
            min: Vec2::new(span.min.x, span.min.y + shift),
            max: Vec2::new(span.max.x, span.min.y + shift + PASSAGE_WIDTH),
        }
    }
}

/// What the shared stretch between two floors has beyond a passage width.
pub fn passage_slack(home: &Rectangle, next: &Rectangle) -> (room: i64)
    requires
        room_fits(*home),
        room_fits(*next),
    ensures
        room == slack(*home, *next),
{
    let low_x: i64 = if home.min.x > next.min.x { home.min.x } else { next.min.x };
    let low_y: i64 = if home.min.y > next.min.y { home.min.y } else { next.min.y };
    let high_x: i64 = if home.max.x < next.max.x { home.max.x } else { next.max.x };
    let high_y: i64 = if home.max.y < next.max.y { home.max.y } else { next.max.y };
    if home.min.x < next.max.x && next.min.x < home.max.x {
        (if low_x > high_x { low_x - high_x } else { high_x - low_x }) - PASSAGE_WIDTH
    } else {
        (if low_y > high_y { low_y - high_y } else { high_y - low_y }) - PASSAGE_WIDTH
    }
}

fn append_boxes(out: &mut Vec<BoundingBox>, rooms: &Vec<Room>)
    ensures
        final(out)@ == old(out)@ + boxes_of(rooms@, rooms@.len()),
{
    let ghost before = out@;
    let mut r: usize = 0;
    assert(out@ =~= before + boxes_of(rooms@, 0));
    while r < rooms.len()
        invariant
            r <= rooms@.len(),
            out@ == before + boxes_of(rooms@, r as nat),
        decreases rooms@.len() - r,
    {
        let ghost so_far = out@;
        let boxes = &rooms[r].boxes;
        let mut b: usize = 0;
        while b < boxes.len()
            invariant
                b <= boxes@.len(),
                out@ == so_far + boxes@.subrange(0, b as int),
            decreases boxes@.len() - b,
        {
            out.push(boxes[b]);
            assert(out@ =~= so_far + boxes@.subrange(0, b as int + 1));
            b += 1;
        }
        assert(boxes@.subrange(0, b as int) =~= boxes@);
        assert(out@ =~= before + boxes_of(rooms@, (r + 1) as nat));
        r += 1;
    }
}

proof fn lemma_boxes_of_sited(rooms: Seq<Room>, upto: nat)
    requires
        upto <= rooms.len(),
        forall|i: int| 0 <= i < rooms.len() ==> (#[trigger] rooms[i]).wf(),
    ensures
        all_sited(boxes_of(rooms, upto)),
    decreases upto,
{
    if upto > 0 {
        lemma_boxes_of_sited(rooms, (upto - 1) as nat);
        assert(rooms[upto - 1].wf());
    }
}

impl World {
    /// Every room and passage is well formed, every room's floor has a
    /// room's least lengths, and any two rooms' floors keep the margin.
    pub open spec fn wf(self) -> bool {
        &&& forall|i: int|
            0 <= i < self.rooms@.len() ==> (#[trigger] self.rooms@[i]).wf() && roomy(
                self.rooms@[i].floor,
            )
        &&& forall|i: int| 0 <= i < self.passages@.len() ==> (#[trigger] self.passages@[i]).wf()
        &&& forall|i: int, j: int|
            0 <= i < self.rooms@.len() && 0 <= j < self.rooms@.len() && i != j ==> apart(
                (#[trigger] self.rooms@[i]).floor,
                (#[trigger] self.rooms@[j]).floor,
            )
    }

    /// All boxes a player can run into: those of every room, then those of
    /// every passage, in the order in which they were added.
    pub open spec fn colliders(self) -> Seq<BoundingBox> {
        boxes_of(self.rooms@, self.rooms@.len()) + boxes_of(self.passages@, self.passages@.len())
    }

    /// The world is as it is made: one room, sixteen world units square,
    /// around the origin, not explored, and no passage.
    pub open spec fn is_new(self) -> bool {
        &&& self.rooms@.len() == 1
        &&& self.passages@.len() == 0
        &&& self.rooms@[0].floor == (Rectangle {
            min: Vec2 { x: (-SEED_HALF) as i64, y: (-SEED_HALF) as i64 },
            max: Vec2 { x: SEED_HALF, y: SEED_HALF },
        })
        &&& self.rooms@[0].boxes@ == fresh_boxes(self.rooms@[0].floor)
        &&& !self.rooms@[0].explored
    }

    /// A world of one room, sixteen world units square, around the origin.
    /// It welcomes every neighbour of that room.
    pub fn new() -> (world: World)
        ensures
            world.wf(),
            world.is_new(),
            world.rooms@.len() == 1,
            world.passages@.len() == 0,
            world.rooms@[0].floor == (Rectangle {
                min: Vec2 { x: (-SEED_HALF) as i64, y: (-SEED_HALF) as i64 },
                max: Vec2 { x: SEED_HALF, y: SEED_HALF },
            }),
            world.rooms@[0].boxes@ == fresh_boxes(world.rooms@[0].floor),
            !world.rooms@[0].explored,
            world.welcomes(world.rooms@[0].floor),
    {
        let seed = Room::new(
            Rectangle {
                min: Vec2::new(-SEED_HALF, -SEED_HALF),
                max: Vec2::new(SEED_HALF, SEED_HALF),
            },
        );
        let mut rooms: Vec<Room> = Vec::new();
        rooms.push(seed);
        World { rooms, passages: Vec::new() }
    }

    /// The colliders, see `colliders`.
    pub fn get_colliders(&self) -> (all: Vec<BoundingBox>)
        ensures
            all@ == self.colliders(),
            self.wf() ==> all_sited(all@),
    {
        let mut all: Vec<BoundingBox> = Vec::new();
        append_boxes(&mut all, &self.rooms);
        append_boxes(&mut all, &self.passages);
        proof {
            assert(all@ =~= self.colliders());
            if self.wf() {
                lemma_boxes_of_sited(self.rooms@, self.rooms@.len());
                lemma_boxes_of_sited(self.passages@, self.passages@.len());
            }
        }
        all
    }

    /// The index of the first room over whose floor `position` stands.
    pub fn find_room_index(&self, position: Vec3) -> (found: Option<usize>)
        ensures
            first_enclosing(self.rooms@, position.ground(), found),
    {
        let point = Vec2::new(position.x, position.z);
        let mut i: usize = 0;
        while i < self.rooms.len()
            invariant
                i <= self.rooms@.len(),
                point == position.ground(),
                forall|j: int| 0 <= j < i ==> !(#[trigger] self.rooms@[j]).floor.encloses(point),
            decreases self.rooms@.len() - i,
        {
            if self.rooms[i].floor.contains(point) {
                return Some(i);
            }
            i += 1;
        }
        None
    }
    /// Every room's floor keeps the margin to `floor`, which leaves room for
    /// its walls within the world.
    pub open spec fn admits(self, floor: Rectangle) -> bool {
        &&& room_fits(floor)
        &&& forall|i: int|
            0 <= i < self.rooms@.len() ==> apart((#[trigger] self.rooms@[i]).floor, floor)
    }

    /// The world admits every neighbour of `home` that can be drawn.
    pub open spec fn welcomes(self, home: Rectangle) -> bool {
        welcomed_by(self.rooms@, self.rooms@.len() as int, home)
    }

    /// `self` has come from `before` by growing from room `from`: rooms and
    /// passages were only added, every floor is where it was, and no room
    /// but `from` and the new ones was touched. Each new room is a neighbour
    /// of room `from`, and each has its passage, in the same order. Room
    /// `from` has its floor slab tinted and a doorway for each new passage.
    /// Four neighbours are tried: fewer than four rooms are new only where
    /// one that was drawn was turned away by the rooms there at that try,
    /// and at least one is new where `before` welcomes every neighbour.
    pub open spec fn grown_from(self, before: World, from: int) -> bool {
        let rooms = before.rooms@.len() as int;
        let passages = before.passages@.len() as int;
        let home = before.rooms@[from].floor;
        &&& rooms <= self.rooms@.len() <= rooms + 4
        &&& self.passages@.len() - passages == self.rooms@.len() - rooms
        &&& forall|i: int|
            0 <= i < rooms ==> (#[trigger] self.rooms@[i]).floor == before.rooms@[i].floor && (i
                != from ==> self.rooms@[i] == before.rooms@[i])
        &&& forall|i: int| 0 <= i < passages ==> #[trigger] self.passages@[i] == before.passages@[i]
        &&& forall|i: int|
            rooms <= i < self.rooms@.len() ==> neighbour(home, (#[trigger] self.rooms@[i]).floor)
                && !self.rooms@[i].explored
        &&& forall|k: int|
            0 <= k < self.rooms@.len() - rooms ==> self.joined(
                before.rooms@[from],
                #[trigger] self.passages@[passages + k],
                self.rooms@[rooms + k],
            )
        &&& self.rooms@[from].boxes@ == doorways_cut(
            marked_boxes(before.rooms@[from].boxes@),
            self.passages@,
            passages,
            self.passages@.len() as int,
        )
        &&& self.rooms@.len() - rooms < 4 ==> turned_away(self.rooms@, rooms, home)
        &&& before.welcomes(home) ==> self.rooms@.len() > rooms
    }

    /// `way` is a passage between the room `home` and its new neighbour
    /// `next`: its floor bridges theirs, it has lost its walls inside their
    /// frames, and `next` has a doorway where the passage meets it.
    pub open spec fn joined(self, home: Room, way: Room, next: Room) -> bool {
        &&& joins(way.floor, home.floor, next.floor)
        &&& !way.explored
        &&& way.boxes@ == cut_boxes(
            cut_boxes(fresh_boxes(way.floor), home.frame()),
            next.frame(),
        )
        &&& next.boxes@ == cut_boxes(fresh_boxes(next.floor), way.floor)
    }

    /// Exploring is bound to add a room: `found` is a room that was not
    /// explored before, and the world welcomes every neighbour of it that
    /// can be drawn.
    pub open spec fn grows_at(self, found: Option<usize>) -> bool {
        match found {
            Some(from) => from < self.rooms@.len() && !self.rooms@[from as int].explored
                && self.welcomes(self.rooms@[from as int].floor),
            None => false,
        }
    }

    /// What exploring does to a world in which `found` is the room under
    /// the explorer: nothing where there is none or it was explored before;
    /// else that room is marked, its floor slab tinted, and the world has
    /// grown from it.
    pub open spec fn explored_at(self, before: World, found: Option<usize>) -> bool {
        match found {
            None => self.rooms@ == before.rooms@ && self.passages@ == before.passages@,
            Some(from) => if before.rooms@[from as int].explored {
                self.rooms@ == before.rooms@ && self.passages@ == before.passages@
            } else {
                &&& self.grown_from(before, from as int)
                &&& self.rooms@[from as int].explored
                &&& self.rooms@[from as int].boxes@.len() >= 1
                &&& self.rooms@[from as int].boxes@[0] == before.rooms@[from as int].boxes@[0].painted(
                    explored_tint(),
                )
            },
        }
    }

    /// Places a neighbour of room `from` as `candidate_spec` says, where the
    /// world admits it, and says whether it did.
    pub fn spawn(&mut self, from: usize, heading: u8, gap: i64, size: Vec2, slide: i64) -> (added:
        bool)
        requires
            old(self).wf(),
            from < old(self).rooms@.len(),
            heading < 4,
            MIN_GAP <= gap < MAX_GAP,
            MIN_ROOM <= size.x < MAX_ROOM,
            MIN_ROOM <= size.y < MAX_ROOM,
            slide_low(old(self).rooms@[from as int].floor, heading, size) <= slide < slide_high(
                old(self).rooms@[from as int].floor,
                heading,
            ),
        ensures
            final(self).wf(),
            final(self).passages@ == old(self).passages@,
            added == old(self).admits(
                candidate_spec(old(self).rooms@[from as int].floor, heading, gap, size, slide),
            ),
            !added ==> final(self).rooms@ == old(self).rooms@,
            added ==> final(self).rooms@.len() == old(self).rooms@.len() + 1,
            added ==> final(self).rooms@.drop_last() == old(self).rooms@,
            added ==> final(self).rooms@.last().floor == candidate_spec(
                old(self).rooms@[from as int].floor,
                heading,
                gap,
                size,
                slide,
            ),
            added ==> final(self).rooms@.last().boxes@ == fresh_boxes(final(self).rooms@.last().floor),
            added ==> !final(self).rooms@.last().explored,
            added ==> neighbour(old(self).rooms@[from as int].floor, final(self).rooms@.last().floor),
    {
        let home = self.rooms[from].floor;
        assert(self.rooms@[from as int].wf());
        let floor = candidate(&home, heading, gap, size, slide);
        if !fits_world(&floor) {
            return false;
        }
        let mut i: usize = 0;
        while i < self.rooms.len()
            invariant
                i <= self.rooms@.len(),
                *self == *old(self),
                self.wf(),
                room_fits(floor),
                from < self.rooms@.len(),
                floor == candidate_spec(self.rooms@[from as int].floor, heading, gap, size, slide),
                forall|j: int| 0 <= j < i ==> apart((#[trigger] self.rooms@[j]).floor, floor),
            decreases self.rooms@.len() - i,
        {
            assert(self.rooms@[i as int].wf());
            if !keeps_apart(&self.rooms[i].floor, &floor) {
                assert(!apart(self.rooms@[i as int].floor, floor));
                return false;
            }
            i += 1;
        }
        let room = Room::new(floor);
        self.rooms.push(room);
        proof {
            assert(self.rooms@.drop_last() =~= old(self).rooms@);
            assert forall|a: int, b: int|
                0 <= a < self.rooms@.len() && 0 <= b < self.rooms@.len() && a != b implies apart(
                (#[trigger] self.rooms@[a]).floor,
                (#[trigger] self.rooms@[b]).floor,
            ) by {
                let last = self.rooms@.len() - 1;
                if a < last && b < last {
                    assert(self.rooms@[a] == old(self).rooms@[a]);
                    assert(self.rooms@[b] == old(self).rooms@[b]);
                } else if a < last {
                    assert(self.rooms@[a] == old(self).rooms@[a]);
                    apart_symmetric(self.rooms@[a].floor, floor);
                } else {
                    assert(self.rooms@[b] == old(self).rooms@[b]);
                }
            }
            assert forall|a: int| 0 <= a < self.rooms@.len() implies (#[trigger] self.rooms@[a]).wf()
                && roomy(self.rooms@[a].floor) by {
                if a < self.rooms@.len() - 1 {
                    assert(self.rooms@[a] == old(self).rooms@[a]);
                }
            }
        }
        true
    }

    /// Joins rooms `from` and `to` by a passage that starts `shift` into the
    /// stretch their floors share: the passage loses its walls inside the
    /// two rooms' frames, and both rooms get a doorway where its floor
    /// meets their walls.
    pub fn connect(&mut self, from: usize, to: usize, shift: i64)
        requires
            old(self).wf(),
            from < old(self).rooms@.len(),
            to < old(self).rooms@.len(),
            from != to,
            0 <= shift < slack(
                old(self).rooms@[from as int].floor,
                old(self).rooms@[to as int].floor,
            ),
        ensures
            final(self).wf(),
            final(self).rooms@.len() == old(self).rooms@.len(),
            final(self).passages@.len() == old(self).passages@.len() + 1,
            final(self).passages@.drop_last() == old(self).passages@,
            final(self).passages@.last().floor == passage_floor_spec(
                old(self).rooms@[from as int].floor,
                old(self).rooms@[to as int].floor,
                shift,
            ),
            !final(self).passages@.last().explored,
            final(self).passages@.last().boxes@ == cut_boxes(
                cut_boxes(
                    fresh_boxes(final(self).passages@.last().floor),
                    old(self).rooms@[from as int].frame(),
                ),
                old(self).rooms@[to as int].frame(),
            ),
            forall|i: int|
                0 <= i < old(self).rooms@.len() ==> {
                    &&& (#[trigger] final(self).rooms@[i]).floor == old(self).rooms@[i].floor
                    &&& final(self).rooms@[i].explored == old(self).rooms@[i].explored
                    &&& i != from && i != to ==> final(self).rooms@[i] == old(self).rooms@[i]
                    &&& i == from || i == to ==> final(self).rooms@[i].boxes@ == cut_boxes(
                        old(self).rooms@[i].boxes@,
                        final(self).passages@.last().floor,
                    )
                },
    {
        assert(self.rooms@[from as int].wf());
        assert(self.rooms@[to as int].wf());
        let home = self.rooms[from].floor;
        let next = self.rooms[to].floor;
        let floor = passage_floor(&home, &next, shift);
        let mut passage = Room::new(floor);
        passage.cut_walls(self.rooms[from].area());
        passage.cut_walls(self.rooms[to].area());
        self.rooms[from].cut_walls(floor);
        self.rooms[to].cut_walls(floor);
        self.passages.push(passage);
        proof {
            assert(self.passages@.drop_last() =~= old(self).passages@);
            assert forall|a: int| 0 <= a < self.passages@.len() implies (
            #[trigger] self.passages@[a]).wf() by {
                if a < self.passages@.len() - 1 {
                    assert(self.passages@[a] == old(self).passages@[a]);
                }
            }
            assert forall|a: int| 0 <= a < self.rooms@.len() implies (#[trigger] self.rooms@[a]).wf()
                && roomy(self.rooms@[a].floor) by {
                assert(old(self).rooms@[a].wf());
            }
            assert forall|a: int, b: int|
                0 <= a < self.rooms@.len() && 0 <= b < self.rooms@.len() && a != b implies apart(
                (#[trigger] self.rooms@[a]).floor,
                (#[trigger] self.rooms@[b]).floor,
            ) by {
                assert(apart(old(self).rooms@[a].floor, old(self).rooms@[b].floor));
            }
        }
    }
}

impl World {
    /// Grows the world from the room under `position` on the first visit:
    /// marks the room, tries four times to place a neighbour at a random
    /// side, distance, size and offset, and joins every neighbour that the
    /// world admitted to the room by a passage at a random place. Where no
    /// room lies under `position`, or that room was explored before,
    /// nothing changes. Rooms and passages are never taken away. Where the
    /// world welcomes every neighbour of the room that can be drawn, at
    /// least one room is added; fewer than four are added only where a
    /// neighbour that was drawn was turned away by the rooms there then.
    pub fn explore(&mut self, position: Vec3)
        requires
            old(self).wf(),
        ensures
            final(self).wf(),
            final(self).rooms@.len() >= old(self).rooms@.len(),
            final(self).passages@.len() >= old(self).passages@.len(),
            forall|found: Option<usize>|
                (#[trigger] first_enclosing(old(self).rooms@, position.ground(), found))
                    ==> final(self).explored_at(*old(self), found),
            forall|found: Option<usize>|
                (#[trigger] first_enclosing(old(self).rooms@, position.ground(), found))
                    && old(self).grows_at(found) ==> final(self).rooms@.len() > old(
                    self,
                ).rooms@.len(),
    {
        let ghost before = *self;
        let ghost point = position.ground();
        let found = self.find_room_index(position);
        proof {
            assert forall|other: Option<usize>| #[trigger]
                first_enclosing(before.rooms@, point, other) implies other == found by {
                match (other, found) {
                    (Some(a), Some(b)) => {
                        if a < b {
                            assert(!before.rooms@[a as int].floor.encloses(point));
                        }
                        if b < a {
                            assert(!before.rooms@[b as int].floor.encloses(point));
                        }
                    },
                    (Some(a), None) => {
                        assert(!before.rooms@[a as int].floor.encloses(point));
                    },
                    (None, Some(b)) => {
                        assert(!before.rooms@[b as int].floor.encloses(point));
                    },
                    (None, None) => {},
                }
            }
        }
        let from = match found {
            Some(i) => i,
            None => {
                return ;
            },
        };
        if self.rooms[from].explored {
            return ;
        }
        assert(before.rooms@[from as int].wf() && roomy(before.rooms@[from as int].floor));
        let home = self.rooms[from].floor;
        let first_new = self.rooms.len();
        self.rooms[from].mark_explored();
        let ghost slab = before.rooms@[from as int].boxes@[0].painted(explored_tint());
        proof {
            assert forall|a: int| 0 <= a < self.rooms@.len() implies (#[trigger] self.rooms@[a]).wf()
                && roomy(self.rooms@[a].floor) by {
                assert(before.rooms@[a].wf() && roomy(before.rooms@[a].floor));
            }
            assert forall|a: int, b: int|
                0 <= a < self.rooms@.len() && 0 <= b < self.rooms@.len() && a != b implies apart(
                (#[trigger] self.rooms@[a]).floor,
                (#[trigger] self.rooms@[b]).floor,
            ) by {
                assert(apart(before.rooms@[a].floor, before.rooms@[b].floor));
            }
        }
        let mut attempt: u8 = 0;
        while attempt < 4
            invariant
                attempt <= 4,
                self.wf(),
                from < first_new,
                first_new == before.rooms@.len(),
                first_new <= self.rooms@.len() <= first_new + attempt,
                self.passages@ == before.passages@,
                home == before.rooms@[from as int].floor,
                roomy(home),
                room_fits(home),
                forall|i: int|
                    0 <= i < first_new ==> (#[trigger] self.rooms@[i]).floor
                        == before.rooms@[i].floor && (i != from ==> self.rooms@[i]
                        == before.rooms@[i]),
                self.rooms@[from as int].explored,
                self.rooms@[from as int].boxes@.len() >= 1,
                self.rooms@[from as int].boxes@[0] == slab,
                self.rooms@[from as int].boxes@ == marked_boxes(before.rooms@[from as int].boxes@),
                forall|i: int|
                    first_new <= i < self.rooms@.len() ==> neighbour(
                        home,
                        (#[trigger] self.rooms@[i]).floor,
                    ) && !self.rooms@[i].explored && self.rooms@[i].boxes@ == fresh_boxes(
                        self.rooms@[i].floor,
                    ),
                self.rooms@.len() - first_new < attempt ==> turned_away(
                    self.rooms@,
                    first_new as int,
                    home,
                ),
            decreases 4 - attempt,
        {
            let ghost rooms_before = self.rooms@;
            let side: i64 = random_in(0, 4);
            let heading: u8 = if side == 0 {
                0
            } else if side == 1 {
                1
            } else if side == 2 {
                2
            } else {
                3
            };
            let gap: i64 = random_in(MIN_GAP, MAX_GAP);
            let width: i64 = random_in(MIN_ROOM, MAX_ROOM);
            let depth: i64 = random_in(MIN_ROOM, MAX_ROOM);
            let size = Vec2::new(width, depth);
            let range = slide_range(&home, heading, size);
            let slide: i64 = random_in(range.0, range.1);
            let added = self.spawn(from, heading, gap, size, slide);
            proof {
                if added {
                    assert forall|i: int| 0 <= i < rooms_before.len() implies #[trigger] self.rooms@[i]
                        == rooms_before[i] by {
                        assert(self.rooms@.drop_last()[i] == self.rooms@[i]);
                    }
                    assert(self.rooms@.last().floor == self.rooms@[self.rooms@.len() - 1].floor);
                    if rooms_before.len() - first_new < attempt {
                        lemma_turned_away_same_floors(
                            rooms_before,
                            self.rooms@,
                            first_new as int,
                            home,
                        );
                    }
                } else {
                    let turned = candidate_spec(home, heading, gap, size, slide);
                    assert(drawable(home, heading, gap, size, slide));
                    assert(!admitted_by(rooms_before, rooms_before.len() as int, turned));
                    assert(!welcomed_by(rooms_before, rooms_before.len() as int, home));
                }
            }
            attempt += 1;
        }
        let last = self.rooms.len();
        let ghost floors = self.rooms@;
        let ghost passages_before = before.passages@.len();
        let mut to: usize = first_new;
        while to < last
            invariant
                self.wf(),
                from < first_new <= to <= last,
                last <= first_new + 4,
                first_new == before.rooms@.len(),
                last == self.rooms@.len(),
                last == floors.len(),
                passages_before == before.passages@.len(),
                self.passages@.len() == passages_before + (to - first_new),
                forall|i: int|
                    0 <= i < passages_before ==> #[trigger] self.passages@[i]
                        == before.passages@[i],
                home == before.rooms@[from as int].floor,
                roomy(home),
                room_fits(home),
                forall|i: int|
                    0 <= i < last ==> (#[trigger] self.rooms@[i]).floor == floors[i].floor
                        && self.rooms@[i].explored == floors[i].explored,
                forall|i: int|
                    0 <= i < first_new ==> (#[trigger] floors[i]).floor == before.rooms@[i].floor,
                forall|i: int|
                    0 <= i < first_new && i != from ==> #[trigger] self.rooms@[i]
                        == before.rooms@[i],
                floors[from as int].explored,
                last - first_new < 4 ==> turned_away(floors, first_new as int, home),
                self.rooms@[from as int].boxes@.len() >= 1,
                self.rooms@[from as int].boxes@[0] == slab,
                forall|i: int|
                    first_new <= i < last ==> neighbour(home, (#[trigger] floors[i]).floor)
                        && !floors[i].explored,
                forall|i: int|
                    to <= i < last ==> (#[trigger] self.rooms@[i]).boxes@ == fresh_boxes(
                        floors[i].floor,
                    ),
                forall|k: int|
                    0 <= k < to - first_new ==> self.joined(
                        before.rooms@[from as int],
                        #[trigger] self.passages@[passages_before + k],
                        self.rooms@[first_new + k],
                    ),
                self.rooms@[from as int].boxes@ == doorways_cut(
                    marked_boxes(before.rooms@[from as int].boxes@),
                    self.passages@,
                    passages_before as int,
                    self.passages@.len() as int,
                ),
            decreases last - to,
        {
            let ghost rooms_before = self.rooms@;
            let ghost ways_before = self.passages@;
            assert(self.rooms@[to as int].wf());
            assert(self.rooms@[to as int].floor == floors[to as int].floor);
            let next = self.rooms[to].floor;
            proof {
                lemma_neighbour_slack(home, next);
            }
            let room: i64 = passage_slack(&home, &next);
            let shift: i64 = random_in(0, room);
            self.connect(from, to, shift);
            proof {
                let way = self.passages@.last().floor;
                assert(way == passage_floor_spec(home, next, shift));
                assert(joins(way, home, next));
                assert forall|i: int| 0 <= i < ways_before.len() implies #[trigger] self.passages@[i]
                    == ways_before[i] by {
                    assert(self.passages@.drop_last()[i] == self.passages@[i]);
                }
                lemma_kept_starts_with_first(
                    rooms_before[from as int].boxes@,
                    way,
                    rooms_before[from as int].boxes@.len(),
                );
                assert forall|k: int| 0 <= k < to + 1 - first_new implies self.joined(
                    before.rooms@[from as int],
                    #[trigger] self.passages@[passages_before + k],
                    self.rooms@[first_new + k],
                ) by {
                    if k < to - first_new {
                        assert(self.passages@[passages_before + k] == ways_before[passages_before
                            + k]);
                        assert(self.rooms@[first_new + k] == rooms_before[first_new + k]);
                    } else {
                        assert(self.passages@[passages_before + k] == self.passages@.last());
                        assert(rooms_before[to as int].boxes@ == fresh_boxes(next));
                    }
                }
                lemma_doorways_same(
                    marked_boxes(before.rooms@[from as int].boxes@),
                    self.passages@,
                    ways_before,
                    passages_before as int,
                    ways_before.len() as int,
                );
            }
            to += 1;
        }
        proof {
            assert forall|i: int| 0 <= i < floors.len() implies (#[trigger] floors[i]).floor
                == self.rooms@[i].floor by {
                assert(self.rooms@[i].floor == floors[i].floor);
            }
            if self.rooms@.len() - first_new < 4 {
                lemma_turned_away_same_floors(floors, self.rooms@, first_new as int, home);
            }
            if before.welcomes(home) && self.rooms@.len() == first_new {
                assert forall|i: int| 0 <= i < first_new implies (#[trigger] before.rooms@[i]).floor
                    == self.rooms@[i].floor by {
                    assert(self.rooms@[i].floor == floors[i].floor);
                }
                lemma_welcome_same_floors(before.rooms@, self.rooms@, first_new as int, home);
            }
        }
    }
}

/// The range from which the start of a neighbour across its heading is drawn.
pub fn slide_range(floor: &Rectangle, heading: u8, size: Vec2) -> (range: (i64, i64))
    requires
        room_fits(*floor),
        0 <= size.x <= MAX_ROOM,
        0 <= size.y <= MAX_ROOM,
    ensures
        range.0 == slide_low(*floor, heading, size),
        range.1 == slide_high(*floor, heading),
{
    if heading == 0 || heading == 2 {
        (floor.min.y + REACH - size.y, floor.max.y - REACH)
    } else {
        (floor.min.x + REACH - size.x, floor.max.x - REACH)
    }
}

/// `passage` is the floor of a passage between the two floors, for some
/// start within the stretch that they share.
pub open spec fn joins(passage: Rectangle, home: Rectangle, next: Rectangle) -> bool {
    exists|shift: i64|
        0 <= shift < slack(home, next) && passage == #[trigger] passage_floor_spec(
            home,
            next,
            shift,
        )
}

} // verus!
