use aabb_world::bounding_box::{triangles, BoundingBox, Color};
use aabb_world::ray::{Bound, HitTime};
use aabb_world::vector::Vec3;

fn cuboid(min: (i64, i64, i64), max: (i64, i64, i64)) -> BoundingBox {
    BoundingBox {
        min: Vec3::new(min.0, min.1, min.2),
        max: Vec3::new(max.0, max.1, max.2),
        color: None,
    }
}

fn unit_box() -> BoundingBox {
    cuboid((0, 0, 0), (1000, 1000, 1000))
}

fn shift(b: &BoundingBox, by: Vec3) -> BoundingBox {
    BoundingBox {
        min: Vec3::new(b.min.x + by.x, b.min.y + by.y, b.min.z + by.z),
        max: Vec3::new(b.max.x + by.x, b.max.y + by.y, b.max.z + by.z),
        color: b.color,
    }
}

#[test]
fn cube_reaches_half_extent_to_each_side() {
    let b = BoundingBox::cube(Vec3::new(1000, 2000, 3000), 250);
    assert_eq!(b.min, Vec3::new(750, 1750, 2750));
    assert_eq!(b.max, Vec3::new(1250, 2250, 3250));
    assert_eq!(b.color, None);
}

#[test]
fn box_center_and_size() {
    let b = cuboid((-1000, 0, 2000), (3000, 500, 2001));
    assert_eq!(b.center(), Vec3::new(1000, 250, 2000));
    assert_eq!(b.size(), Vec3::new(4000, 500, 1));
}

#[test]
fn intersect_is_symmetric() {
    let a = unit_box();
    let others = [
        cuboid((800, 0, 0), (1800, 1000, 1000)),
        cuboid((1000, 0, 0), (2000, 1000, 1000)),
        cuboid((-500, -500, -500), (1, 1, 1)),
        cuboid((5000, 5000, 5000), (6000, 6000, 6000)),
        cuboid((200, 200, 200), (300, 300, 300)),
    ];
    for b in others.iter() {
        assert_eq!(a.intersect(b), b.intersect(&a));
    }
    assert!(a.intersect(&others[0]));
    assert!(a.intersect(&others[2]));
    assert!(a.intersect(&others[4]));
    assert!(!a.intersect(&others[3]));
}

#[test]
fn touching_boxes_do_not_intersect() {
    let a = unit_box();
    assert!(!a.intersect(&cuboid((1000, 0, 0), (2000, 1000, 1000))));
    assert!(!a.intersect(&cuboid((0, 1000, 0), (1000, 2000, 1000))));
    assert!(!a.intersect(&cuboid((0, 0, -1000), (1000, 1000, 0))));
    assert_eq!(a.overlap(&cuboid((1000, 0, 0), (2000, 1000, 1000))), None);
}

#[test]
fn cube_cube_overlap() {
    let a = unit_box();
    let b = cuboid((800, 0, 0), (1800, 1000, 1000));
    assert_eq!(a.overlap(&b), Some(Vec3::new(-200, 0, 0)));
    assert_eq!(b.overlap(&a), Some(Vec3::new(200, 0, 0)));
}

#[test]
fn overlap_picks_the_strictly_shortest_axis() {
    let a = unit_box();
    let b = cuboid((-5000, 900, -5000), (5000, 3000, 5000));
    assert_eq!(a.overlap(&b), Some(Vec3::new(0, -100, 0)));
    let c = cuboid((-5000, -3000, -5000), (5000, 100, 5000));
    assert_eq!(a.overlap(&c), Some(Vec3::new(0, 100, 0)));
}

#[test]
fn overlap_tie_falls_through_to_z() {
    let a = unit_box();
    assert_eq!(a.overlap(&a), Some(Vec3::new(0, 0, 1000)));
    let b = cuboid((900, 900, -4000), (1900, 1900, 5000));
    assert_eq!(a.overlap(&b), Some(Vec3::new(0, 0, 5000)));
}

#[test]
fn overlap_of_boxes_apart_is_none() {
    let a = unit_box();
    assert_eq!(a.overlap(&cuboid((3000, 0, 0), (4000, 1000, 1000))), None);
}

#[test]
fn overlap_push_leaves_boxes_touching_on_one_axis() {
    let a = cuboid((0, 0, 0), (2000, 1000, 3000));
    let others = [
        cuboid((1500, -200, 100), (2500, 700, 900)),
        cuboid((-700, 400, -300), (300, 1400, 200)),
        cuboid((100, 100, 2900), (1900, 900, 9000)),
        cuboid((-100, -100, -100), (2100, 1100, 3100)),
    ];
    for b in others.iter() {
        let push = a.overlap(b).unwrap();
        let zeros = [push.x, push.y, push.z].iter().filter(|c| **c == 0).count();
        assert_eq!(zeros, 2);
        let moved = shift(&a, push);
        assert!(!moved.intersect(b));
        let touch_x = moved.max.x == b.min.x || moved.min.x == b.max.x;
        let touch_y = moved.max.y == b.min.y || moved.min.y == b.max.y;
        let touch_z = moved.max.z == b.min.z || moved.min.z == b.max.z;
        assert_eq!([touch_x, touch_y, touch_z].iter().filter(|t| **t).count(), 1);
    }
}

#[test]
fn project_y_drops_the_height() {
    let b = cuboid((1, 2, 3), (4, 5, 6));
    let r = b.project_y();
    assert_eq!((r.min.x, r.min.y, r.max.x, r.max.y), (1, 3, 4, 6));
}

#[test]
fn project_then_extrude_round_trip() {
    let b = cuboid((-300, -1000, 40), (700, 5000, 90));
    let back = b.project_y().extrude_y(b.min.y, b.max.y);
    assert_eq!(back, b);
    let tinted = BoundingBox { color: Some(Color::new(1, 2, 3, 4)), ..b };
    let plain = tinted.project_y().extrude_y(tinted.min.y, tinted.max.y);
    assert_eq!(plain.min, tinted.min);
    assert_eq!(plain.max, tinted.max);
    assert_eq!(plain.color, None);
}

#[test]
fn ray_hit_from_outside() {
    let hit = unit_box().hit_scan(Vec3::new(-1000, 500, 500), Vec3::new(1000, 0, 0));
    assert_eq!(hit, Some((HitTime { num: 1000, den: 1000 }, Vec3::new(-1, 0, 0))));
}

#[test]
fn ray_time_is_in_lengths_of_the_direction() {
    let hit = unit_box().hit_scan(Vec3::new(-1000, 500, 500), Vec3::new(4, 0, 0));
    assert_eq!(hit, Some((HitTime { num: 1000, den: 4 }, Vec3::new(-1, 0, 0))));
    let back = unit_box().hit_scan(Vec3::new(3000, 500, 500), Vec3::new(-500, 0, 0));
    assert_eq!(back, Some((HitTime { num: 2000, den: 500 }, Vec3::new(1, 0, 0))));
}

#[test]
fn ray_parallel_miss() {
    let hit = unit_box().hit_scan(Vec3::new(-1000, 2000, 500), Vec3::new(1000, 0, 0));
    assert_eq!(hit, None);
}

#[test]
fn ray_parallel_on_the_face_plane_misses() {
    let hit = unit_box().hit_scan(Vec3::new(-1000, 1000, 500), Vec3::new(1000, 0, 0));
    assert_eq!(hit, None);
}

#[test]
fn ray_from_inside_does_not_hit() {
    let b = unit_box();
    let origin = Vec3::new(500, 500, 500);
    let directions = [
        Vec3::new(1, 0, 0),
        Vec3::new(0, -7, 0),
        Vec3::new(3, 4, 5),
        Vec3::new(-1, -1, -1),
        Vec3::new(1000, -1, 0),
    ];
    for d in directions.iter() {
        assert_eq!(b.hit_scan(origin, *d), None);
    }
}

#[test]
fn ray_pointing_away_does_not_hit() {
    let b = unit_box();
    assert_eq!(b.hit_scan(Vec3::new(-1000, 500, 500), Vec3::new(-1000, 0, 0)), None);
    assert_eq!(b.hit_scan(Vec3::new(500, 3000, 500), Vec3::new(10, 10, 10)), None);
    assert_eq!(b.hit_scan(Vec3::new(-1000, -1000, -5000), Vec3::new(-1, -1, 1)), None);
    assert_eq!(b.hit_scan(Vec3::new(0, 500, 500), Vec3::new(-1, 0, 0)), None);
}

#[test]
fn ray_diagonal_enters_through_the_latest_face() {
    let hit = unit_box().hit_scan(Vec3::new(-1000, -500, 500), Vec3::new(1000, 1000, 0));
    assert_eq!(hit, Some((HitTime { num: 1000, den: 1000 }, Vec3::new(-1, 0, 0))));
    let up = unit_box().hit_scan(Vec3::new(500, -2000, 250), Vec3::new(0, 8, 1));
    assert_eq!(up, Some((HitTime { num: 2000, den: 8 }, Vec3::new(0, -1, 0))));
}

#[test]
fn ray_entry_tie_gives_the_z_normal() {
    let hit = unit_box().hit_scan(Vec3::new(-1000, -1000, 500), Vec3::new(1000, 1000, 0));
    assert_eq!(hit, Some((HitTime { num: 1000, den: 1000 }, Vec3::new(0, 0, 1))));
    let all = unit_box().hit_scan(Vec3::new(-1000, -1000, -1000), Vec3::new(1, 1, 1));
    assert_eq!(all, Some((HitTime { num: 1000, den: 1 }, Vec3::new(0, 0, -1))));
}

#[test]
fn ray_that_passes_beside_the_box_misses() {
    let hit = unit_box().hit_scan(Vec3::new(-1000, -1000, 500), Vec3::new(1000, 3000, 0));
    assert_eq!(hit, None);
}

#[test]
fn hit_times_compare_as_fractions() {
    let half = HitTime { num: 1, den: 2 };
    let two_quarters = HitTime { num: 2, den: 4 };
    let third = HitTime { num: 1, den: 3 };
    assert!(third.before(&half));
    assert!(!half.before(&third));
    assert!(!half.before(&two_quarters));
    assert!(!two_quarters.before(&half));
    let big = HitTime { num: i64::MAX, den: 1 };
    let small = HitTime { num: i64::MIN, den: i64::MAX };
    assert!(small.before(&big));
}

#[test]
fn bounds_order_with_infinities() {
    let one = Bound::Finite(HitTime { num: 1, den: 1 });
    let two = Bound::Finite(HitTime { num: 4, den: 2 });
    assert!(Bound::NegInf.lt(&one));
    assert!(one.lt(&Bound::PosInf));
    assert!(Bound::NegInf.lt(&Bound::PosInf));
    assert!(!Bound::NegInf.lt(&Bound::NegInf));
    assert!(!Bound::PosInf.lt(&Bound::PosInf));
    assert!(!Bound::PosInf.lt(&one));
    assert!(!one.lt(&Bound::NegInf));
    assert!(one.lt(&two));
    assert_eq!(one.min_with(two), one);
    assert_eq!(one.max_with(two), two);
    assert_eq!(two.min_with(Bound::NegInf), Bound::NegInf);
    assert_eq!(two.max_with(Bound::PosInf), Bound::PosInf);
}

#[test]
fn corners_come_in_a_fixed_order() {
    let b = cuboid((1, 2, 3), (4, 5, 6));
    assert_eq!(
        b.corners(),
        vec![
            Vec3::new(1, 2, 3),
            Vec3::new(4, 2, 3),
            Vec3::new(1, 5, 3),
            Vec3::new(4, 5, 3),
            Vec3::new(1, 2, 6),
            Vec3::new(4, 2, 6),
            Vec3::new(1, 5, 6),
            Vec3::new(4, 5, 6),
        ]
    );
}

#[test]
fn surface_is_twelve_triangles_two_to_a_face() {
    let indices = triangles();
    assert_eq!(indices.len(), 36);
    assert_eq!(indices[..9], [0, 1, 2, 0, 2, 4, 0, 4, 1]);
    assert_eq!(indices[27..], [6, 7, 4, 6, 4, 2, 6, 2, 7]);
    let corners = unit_box().corners();
    let mut per_face = [0; 6];
    for triangle in indices.chunks(3) {
        let points: Vec<Vec3> = triangle.iter().map(|k| corners[*k as usize]).collect();
        let faces = [
            points.iter().all(|p| p.x == 0),
            points.iter().all(|p| p.x == 1000),
            points.iter().all(|p| p.y == 0),
            points.iter().all(|p| p.y == 1000),
            points.iter().all(|p| p.z == 0),
            points.iter().all(|p| p.z == 1000),
        ];
        assert_eq!(faces.iter().filter(|f| **f).count(), 1);
        for (count, on) in per_face.iter_mut().zip(faces.iter()) {
            if *on {
                *count += 1;
            }
        }
    }
    assert_eq!(per_face, [2; 6]);
}

#[test]
fn reflect_turns_the_part_along_the_normal() {
    let d = Vec3::new(300, -400, 500);
    assert_eq!(d.reflect(Vec3::new(-1, 0, 0)), Vec3::new(-300, -400, 500));
    assert_eq!(d.reflect(Vec3::new(0, 1, 0)), Vec3::new(300, 400, 500));
    assert_eq!(d.reflect(Vec3::new(0, 0, -1)), Vec3::new(300, -400, -500));
    assert_eq!(d.reflect(Vec3::new(0, 0, 0)), d);
    assert_eq!(d.reflect(Vec3::new(1, 1, 0)), Vec3::new(500, -200, 500));
}

#[test]
fn hit_point_lies_on_the_box() {
    let b = cuboid((-700, 100, 250), (900, 1300, 2000));
    let origins = [
        Vec3::new(-5000, 200, 300),
        Vec3::new(0, 9000, 1000),
        Vec3::new(4000, 4000, 4000),
        Vec3::new(-3000, -3000, -3000),
        Vec3::new(100, 700, -10),
    ];
    let directions = [
        Vec3::new(1, 0, 0),
        Vec3::new(0, -3, 0),
        Vec3::new(-7, -6, -5),
        Vec3::new(13, 17, 19),
        Vec3::new(1, -1, 40),
        Vec3::new(1000, 3, -2),
    ];
    let mut hits = 0;
    for o in origins.iter() {
        for d in directions.iter() {
            if let Some((t, normal)) = b.hit_scan(*o, *d) {
                hits += 1;
                assert!(t.num > 0 && t.den > 0);
                let at = [o.x * t.den + t.num * d.x, o.y * t.den + t.num * d.y, o.z * t.den
                    + t.num * d.z];
                let low = [b.min.x * t.den, b.min.y * t.den, b.min.z * t.den];
                let high = [b.max.x * t.den, b.max.y * t.den, b.max.z * t.den];
                for k in 0..3 {
                    assert!(low[k] <= at[k] && at[k] <= high[k]);
                }
                assert!((0..3).any(|k| at[k] == low[k] || at[k] == high[k]));
                assert_eq!(normal.x.abs() + normal.y.abs() + normal.z.abs(), 1);
                assert!(normal.x * d.x + normal.y * d.y + normal.z * d.z <= 0);
            }
        }
    }
    assert!(hits >= 4);
}
