use aabb_world::bounding_box::{BoundingBox, Color};
use aabb_world::rectangle::Rectangle;
use aabb_world::room::{cut_wall_boxes, Room};
use aabb_world::vector::{Vec2, Vec3};
use aabb_world::world::{
    candidate, fits_world, keeps_apart, passage_floor, passage_slack, slide_range, World, MARGIN,
};

fn rect(x0: i64, y0: i64, x1: i64, y1: i64) -> Rectangle {
    Rectangle { min: Vec2::new(x0, y0), max: Vec2::new(x1, y1) }
}

fn grown(r: &Rectangle, by: i64) -> Rectangle {
    rect(r.min.x - by, r.min.y - by, r.max.x + by, r.max.y + by)
}

fn wall(x0: i64, z0: i64, x1: i64, z1: i64) -> BoundingBox {
    BoundingBox { min: Vec3::new(x0, -1000, z0), max: Vec3::new(x1, 5000, z1), color: None }
}

fn check_margins(world: &World) {
    for (i, a) in world.rooms.iter().enumerate() {
        for (j, b) in world.rooms.iter().enumerate() {
            if i != j {
                assert!(!grown(&b.floor, MARGIN).intersects(&a.floor));
                assert!(!grown(&b.area(), 799).intersects(&a.area()));
            }
        }
    }
}

fn is_neighbour(home: &Rectangle, next: &Rectangle) -> bool {
    let w = next.max.x - next.min.x;
    let h = next.max.y - next.min.y;
    let off_x = if next.min.x >= home.max.x {
        next.min.x - home.max.x
    } else {
        home.min.x - next.max.x
    };
    let off_y = if next.min.y >= home.max.y {
        next.min.y - home.max.y
    } else {
        home.min.y - next.max.y
    };
    let along_x = (3000..7000).contains(&off_x)
        && next.max.y >= home.min.y + 4000
        && next.min.y < home.max.y - 4000;
    let along_y = (3000..7000).contains(&off_y)
        && next.max.x >= home.min.x + 4000
        && next.min.x < home.max.x - 4000;
    (8000..24000).contains(&w) && (8000..24000).contains(&h) && (along_x || along_y)
}

#[test]
fn new_world_has_one_seed_room() {
    let world = World::new();
    assert_eq!(world.rooms.len(), 1);
    assert_eq!(world.passages.len(), 0);
    assert_eq!(world.rooms[0].floor, rect(-8000, -8000, 8000, 8000));
    assert!(!world.rooms[0].explored);
    assert_eq!(world.rooms[0].boxes.len(), 5);
}

#[test]
fn colliders_come_room_by_room_then_passage_by_passage() {
    let mut world = World::new();
    assert_eq!(world.get_colliders(), world.rooms[0].boxes);
    assert!(world.spawn(0, 0, 3000, Vec2::new(8000, 8000), -4000));
    world.connect(0, 1, 0);
    let mut expected = Vec::new();
    expected.extend(world.rooms[0].boxes.iter().copied());
    expected.extend(world.rooms[1].boxes.iter().copied());
    expected.extend(world.passages[0].boxes.iter().copied());
    assert_eq!(world.get_colliders(), expected);
    assert_eq!(world.get_colliders()[0], world.rooms[0].boxes[0]);
}

#[test]
fn find_room_index_is_strict_and_ignores_height() {
    let world = World::new();
    assert_eq!(world.find_room_index(Vec3::new(0, 1000, 0)), Some(0));
    assert_eq!(world.find_room_index(Vec3::new(7999, -50000, -7999)), Some(0));
    assert_eq!(world.find_room_index(Vec3::new(8000, 1000, 0)), None);
    assert_eq!(world.find_room_index(Vec3::new(0, 1000, -8000)), None);
    assert_eq!(world.find_room_index(Vec3::new(90000, 0, 0)), None);
}

#[test]
fn candidate_sits_beyond_the_far_edge() {
    let home = rect(-8000, -8000, 8000, 8000);
    let size = Vec2::new(10000, 12000);
    assert_eq!(candidate(&home, 0, 3000, size, -5000), rect(11000, -5000, 21000, 7000));
    assert_eq!(candidate(&home, 1, 3500, size, -5000), rect(-5000, 11500, 5000, 23500));
    assert_eq!(candidate(&home, 2, 6999, size, 100), rect(-24999, 100, -14999, 12100));
    assert_eq!(candidate(&home, 3, 3000, size, 3999), rect(3999, -23000, 13999, -11000));
}

#[test]
fn slide_range_keeps_a_passage_width_and_one_unit_alongside() {
    let home = rect(-8000, -6000, 8000, 6000);
    assert_eq!(slide_range(&home, 0, Vec2::new(10000, 12000)), (-14000, 2000));
    assert_eq!(slide_range(&home, 2, Vec2::new(10000, 12000)), (-14000, 2000));
    assert_eq!(slide_range(&home, 1, Vec2::new(10000, 12000)), (-14000, 4000));
    assert_eq!(slide_range(&home, 3, Vec2::new(10000, 12000)), (-14000, 4000));
}

#[test]
fn margin_test_is_strict_and_symmetric() {
    let a = rect(0, 0, 8000, 8000);
    let near = rect(9799, 0, 17799, 8000);
    let clear = rect(9800, 0, 17800, 8000);
    assert!(!keeps_apart(&a, &near));
    assert!(!keeps_apart(&near, &a));
    assert!(keeps_apart(&a, &clear));
    assert!(keeps_apart(&clear, &a));
    assert_eq!(MARGIN, 1800);
}

#[test]
fn fits_world_asks_for_room_for_the_walls() {
    let edge = 1_000_000_000_000_000 - 500;
    assert!(fits_world(&rect(0, 0, edge, edge)));
    assert!(!fits_world(&rect(0, 0, edge + 1, 8000)));
    assert!(!fits_world(&rect(-edge - 1, 0, 0, 8000)));
    assert!(!fits_world(&rect(10, 0, 0, 8000)));
}

#[test]
fn passage_floor_bridges_the_gap() {
    let home = rect(-8000, -8000, 8000, 8000);
    let east = rect(11000, -4000, 19000, 4000);
    assert_eq!(passage_slack(&home, &east), 5000);
    assert_eq!(passage_floor(&home, &east, 0), rect(8000, -4000, 11000, -1000));
    assert_eq!(passage_floor(&home, &east, 4999), rect(8000, 999, 11000, 3999));
    let south = rect(-12000, -20000, -4000, -12000);
    assert_eq!(passage_slack(&home, &south), 1000);
    assert_eq!(passage_floor(&home, &south, 250), rect(-7750, -12000, -4750, -8000));
}

#[test]
fn spawn_adds_an_admitted_neighbour() {
    let mut world = World::new();
    assert!(world.spawn(0, 0, 3000, Vec2::new(8000, 9000), -4000));
    assert_eq!(world.rooms.len(), 2);
    assert_eq!(world.passages.len(), 0);
    assert_eq!(world.rooms[1].floor, rect(11000, -4000, 19000, 5000));
    assert!(!world.rooms[1].explored);
    assert_eq!(world.rooms[1].boxes, Room::new(rect(11000, -4000, 19000, 5000)).boxes);
    check_margins(&world);
}

#[test]
fn spawn_refuses_a_neighbour_within_the_margin() {
    let mut world = World::new();
    assert!(world.spawn(0, 0, 3000, Vec2::new(8000, 8000), -4000));
    assert!(!world.spawn(0, 0, 6999, Vec2::new(8000, 8000), -12000));
    assert!(!world.spawn(0, 0, 3000, Vec2::new(8000, 8000), 3999));
    assert_eq!(world.rooms.len(), 2);
    assert!(world.spawn(0, 2, 3000, Vec2::new(8000, 8000), -4000));
    assert!(!world.spawn(1, 2, 3000, Vec2::new(8000, 8000), -4000));
    assert_eq!(world.rooms.len(), 3);
    check_margins(&world);
}

#[test]
fn connect_carves_the_passage_and_both_doorways() {
    let mut world = World::new();
    assert!(world.spawn(0, 0, 3000, Vec2::new(8000, 8000), -4000));
    world.connect(0, 1, 1000);
    assert_eq!(world.passages.len(), 1);
    let way = &world.passages[0];
    assert_eq!(way.floor, rect(8000, -3000, 11000, 0));
    assert!(!way.explored);
    assert_eq!(
        way.boxes,
        vec![
            BoundingBox {
                min: Vec3::new(8000, -1000, -3000),
                max: Vec3::new(11000, 0, 0),
                color: None,
            },
            wall(8500, 0, 10500, 500),
            wall(8500, -3500, 10500, -3000),
        ]
    );
    assert_eq!(
        world.rooms[0].boxes[1..],
        [
            wall(-8000, 8000, 8500, 8500),
            wall(8000, -8500, 8500, -3000),
            wall(-8500, -8500, 8000, -8000),
            wall(-8500, -8000, -8000, 8500),
            wall(8000, 0, 8500, 8000),
        ]
    );
    assert_eq!(
        world.rooms[1].boxes[1..],
        [
            wall(11000, 4000, 19500, 4500),
            wall(19000, -4500, 19500, 4000),
            wall(10500, -4500, 19000, -4000),
            wall(10500, -4000, 11000, -3000),
            wall(10500, 0, 11000, 4500),
        ]
    );
    assert_eq!(world.rooms[0].floor, rect(-8000, -8000, 8000, 8000));
    assert_eq!(world.rooms[1].floor, rect(11000, -4000, 19000, 4000));
}

#[test]
fn explore_expands() {
    for _ in 0..200 {
        let mut world = World::new();
        world.explore(Vec3::new(0, 1000, 0));
        let k = world.rooms.len() - 1;
        assert!(1 <= k && k <= 4);
        assert_eq!(world.passages.len(), k);
        assert!(world.rooms[0].explored);
        assert_eq!(world.rooms[0].boxes[0].color, Some(Color::new(0, 255, 0, 255)));
        assert_eq!(world.rooms[0].floor, rect(-8000, -8000, 8000, 8000));
        check_margins(&world);
        for i in 0..k {
            let next = &world.rooms[1 + i];
            assert!(!next.explored);
            assert!(is_neighbour(&world.rooms[0].floor, &next.floor));
            let way = &world.passages[i].floor;
            let slack = passage_slack(&world.rooms[0].floor, &next.floor);
            assert!(slack >= 1000);
            let first = passage_floor(&world.rooms[0].floor, &next.floor, 0);
            let shift = (way.min.x - first.min.x) + (way.min.y - first.min.y);
            assert!(0 <= shift && shift < slack);
            assert_eq!(*way, passage_floor(&world.rooms[0].floor, &next.floor, shift));
            assert_eq!(next.boxes, cut_wall_boxes(&Room::new(next.floor).boxes, *way));
            let ends_cut = cut_wall_boxes(
                &cut_wall_boxes(&Room::new(*way).boxes, world.rooms[0].area()),
                next.area(),
            );
            assert_eq!(world.passages[i].boxes, ends_cut);
            assert!(!world.passages[i].explored);
        }
        let mut home = Room::new(rect(-8000, -8000, 8000, 8000));
        home.mark_explored();
        for way in world.passages.iter() {
            home.cut_walls(way.floor);
        }
        assert_eq!(world.rooms[0].boxes, home.boxes);
        for b in world.get_colliders().iter().filter(|b| b.max.y != 0) {
            assert_eq!((b.min.y, b.max.y), (-1000, 5000));
        }
    }
}

#[test]
fn doorways_are_free_of_walls() {
    for _ in 0..50 {
        let mut world = World::new();
        world.explore(Vec3::new(0, 1000, 0));
        for way in world.passages.iter() {
            let inner = rect(
                way.floor.min.x,
                way.floor.min.y,
                way.floor.max.x,
                way.floor.max.y,
            );
            for room in world.rooms.iter() {
                for b in room.boxes.iter().skip(1) {
                    assert!(!b.project_y().intersects(&inner));
                }
            }
        }
    }
}

#[test]
fn explore_draws_differ_between_worlds() {
    let mut floors = Vec::new();
    for _ in 0..50 {
        let mut world = World::new();
        world.explore(Vec3::new(0, 0, 0));
        for room in world.rooms.iter().skip(1) {
            if !floors.contains(&room.floor) {
                floors.push(room.floor);
            }
        }
    }
    assert!(floors.len() > 10);
    assert!(floors.iter().any(|f| f.max.x - f.min.x != 8000 && f.max.x - f.min.x != 23999));
}

#[test]
fn explore_outside_every_room_changes_nothing() {
    let mut world = World::new();
    world.explore(Vec3::new(50000, 1000, 0));
    world.explore(Vec3::new(8000, 1000, 0));
    assert_eq!(world.rooms.len(), 1);
    assert_eq!(world.passages.len(), 0);
    assert!(!world.rooms[0].explored);
    assert_eq!(world.rooms[0].boxes, Room::new(rect(-8000, -8000, 8000, 8000)).boxes);
}

#[test]
fn explore_of_an_explored_room_changes_nothing() {
    let mut world = World::new();
    world.explore(Vec3::new(0, 1000, 0));
    let rooms = world.rooms.len();
    let colliders = world.get_colliders();
    world.explore(Vec3::new(100, 1000, -100));
    assert_eq!(world.rooms.len(), rooms);
    assert_eq!(world.passages.len() + 1, rooms);
    assert_eq!(world.get_colliders(), colliders);
}

#[test]
fn explore_never_takes_rooms_or_passages_away() {
    let mut world = World::new();
    let mut spots = vec![Vec3::new(0, 1000, 0)];
    let mut visited = 0;
    while visited < spots.len() && visited < 12 {
        let rooms = world.rooms.len();
        let passages = world.passages.len();
        let floors: Vec<Rectangle> = world.rooms.iter().map(|r| r.floor).collect();
        let ways: Vec<Rectangle> = world.passages.iter().map(|r| r.floor).collect();
        world.explore(spots[visited]);
        assert!(world.rooms.len() >= rooms);
        assert!(world.passages.len() >= passages);
        assert_eq!(world.rooms.len() - rooms, world.passages.len() - passages);
        for (i, f) in floors.iter().enumerate() {
            assert_eq!(world.rooms[i].floor, *f);
        }
        for (i, f) in ways.iter().enumerate() {
            assert_eq!(world.passages[i].floor, *f);
        }
        check_margins(&world);
        for room in world.rooms.iter().skip(rooms) {
            let c = room.floor.center();
            spots.push(Vec3::new(c.x, 1000, c.y));
        }
        visited += 1;
    }
}
