use aabb_world::bounding_box::{BoundingBox, Color};
use aabb_world::rectangle::Rectangle;
use aabb_world::room::{cut_wall_boxes, Room, PASSAGE_WIDTH, WALL_BASE, WALL_HEIGHT, WALL_THICKNESS};
use aabb_world::vector::{Vec2, Vec3};

fn rect(x0: i64, y0: i64, x1: i64, y1: i64) -> Rectangle {
    Rectangle { min: Vec2::new(x0, y0), max: Vec2::new(x1, y1) }
}

fn wall(x0: i64, z0: i64, x1: i64, z1: i64) -> BoundingBox {
    BoundingBox { min: Vec3::new(x0, -1000, z0), max: Vec3::new(x1, 5000, z1), color: None }
}

fn seed_room() -> Room {
    Room::new(rect(-8000, -8000, 8000, 8000))
}

#[test]
fn constants_are_in_grid_steps() {
    assert_eq!(PASSAGE_WIDTH, 3000);
    assert_eq!(WALL_THICKNESS, 500);
    assert_eq!(WALL_HEIGHT, 5000);
    assert_eq!(WALL_BASE, -1000);
}

#[test]
fn new_room_has_a_floor_and_four_walls() {
    let room = seed_room();
    assert!(!room.explored);
    assert_eq!(room.floor, rect(-8000, -8000, 8000, 8000));
    assert_eq!(
        room.boxes,
        vec![
            BoundingBox {
                min: Vec3::new(-8000, -1000, -8000),
                max: Vec3::new(8000, 0, 8000),
                color: None,
            },
            wall(-8000, 8000, 8500, 8500),
            wall(8000, -8500, 8500, 8000),
            wall(-8500, -8500, 8000, -8000),
            wall(-8500, -8000, -8000, 8500),
        ]
    );
}

#[test]
fn walls_close_the_frame_without_overlap() {
    let room = Room::new(rect(100, 200, 9100, 12200));
    let frame = room.area();
    let mut covered = 0;
    for (i, b) in room.boxes.iter().enumerate().skip(1) {
        let r = b.project_y();
        covered += (r.max.x - r.min.x) * (r.max.y - r.min.y);
        assert!(!r.intersects(&room.floor));
        for other in room.boxes.iter().skip(i + 1) {
            assert!(!r.intersects(&other.project_y()));
        }
    }
    let whole = (frame.max.x - frame.min.x) * (frame.max.y - frame.min.y);
    let floor = (room.floor.max.x - room.floor.min.x) * (room.floor.max.y - room.floor.min.y);
    assert_eq!(covered, whole - floor);
}

#[test]
fn area_is_the_floor_with_its_walls() {
    assert_eq!(seed_room().area(), rect(-8500, -8500, 8500, 8500));
}

#[test]
fn room_with_doorway() {
    let mut room = seed_room();
    let floor_slab = room.boxes[0];
    room.cut_walls(rect(-1500, 7000, 1500, 9500));
    assert_eq!(
        room.boxes,
        vec![
            floor_slab,
            wall(-8000, 8000, -1500, 8500),
            wall(8000, -8500, 8500, 8000),
            wall(-8500, -8500, 8000, -8000),
            wall(-8500, -8000, -8000, 8500),
            wall(1500, 8000, 8500, 8500),
        ]
    );
    assert_eq!(room.floor, rect(-8000, -8000, 8000, 8000));
    assert!(!room.explored);
}

#[test]
fn cut_walls_drops_a_wall_that_is_cut_away() {
    let mut room = seed_room();
    room.cut_walls(rect(7000, -9000, 9000, 8200));
    assert_eq!(
        room.boxes,
        vec![
            room.boxes[0],
            wall(-8000, 8000, 7000, 8500),
            wall(-8500, -8500, 7000, -8000),
            wall(-8500, -8000, -8000, 8500),
            wall(7000, 8200, 8500, 8500),
        ]
    );
    assert_eq!(room.boxes[0].max, Vec3::new(8000, 0, 8000));
}

#[test]
fn cut_walls_leaves_the_floor_slab_even_under_the_mask() {
    let mut room = seed_room();
    let floor_slab = room.boxes[0];
    room.cut_walls(rect(-20000, -20000, 20000, 20000));
    assert_eq!(room.boxes, vec![floor_slab]);
}

#[test]
fn cut_walls_does_not_cut_the_pieces_it_added() {
    let boxes = vec![
        wall(0, 0, 1, 1),
        wall(0, 0, 10000, 500),
        wall(0, 1000, 10000, 1500),
    ];
    let cut = cut_wall_boxes(&boxes, rect(4000, -100, 6000, 2000));
    assert_eq!(
        cut,
        vec![
            wall(0, 0, 1, 1),
            wall(0, 0, 4000, 500),
            wall(0, 1000, 4000, 1500),
            wall(6000, 0, 10000, 500),
            wall(6000, 1000, 10000, 1500),
        ]
    );
    assert_eq!(cut_wall_boxes(&Vec::new(), rect(0, 0, 1, 1)), Vec::<BoundingBox>::new());
}

#[test]
fn cut_walls_raises_every_piece_to_full_height() {
    let boxes = vec![
        wall(0, 0, 1, 1),
        BoundingBox {
            min: Vec3::new(0, 70, 0),
            max: Vec3::new(1000, 90, 1000),
            color: Some(Color::new(9, 9, 9, 9)),
        },
    ];
    let cut = cut_wall_boxes(&boxes, rect(5000, 5000, 6000, 6000));
    assert_eq!(cut, vec![wall(0, 0, 1, 1), wall(0, 0, 1000, 1000)]);
}

#[test]
fn mark_explored_tints_the_floor_slab() {
    let mut room = seed_room();
    room.mark_explored();
    assert!(room.explored);
    assert_eq!(room.boxes[0].color, Some(Color::new(0, 255, 0, 255)));
    assert_eq!(room.boxes[0].min, Vec3::new(-8000, -1000, -8000));
    assert_eq!(room.boxes[1], wall(-8000, 8000, 8500, 8500));
    assert_eq!(room.boxes.len(), 5);
}
