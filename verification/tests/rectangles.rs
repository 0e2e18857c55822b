use aabb_world::rectangle::Rectangle;
use aabb_world::vector::{Vec2, Vec3};

fn rect(x0: i64, y0: i64, x1: i64, y1: i64) -> Rectangle {
    Rectangle { min: Vec2::new(x0, y0), max: Vec2::new(x1, y1) }
}

fn area(r: &Rectangle) -> i64 {
    (r.max.x - r.min.x) * (r.max.y - r.min.y)
}

fn common_area(a: &Rectangle, b: &Rectangle) -> i64 {
    let w = a.max.x.min(b.max.x) - a.min.x.max(b.min.x);
    let h = a.max.y.min(b.max.y) - a.min.y.max(b.min.y);
    if w > 0 && h > 0 {
        w * h
    } else {
        0
    }
}

fn check_cut(r: Rectangle, m: Rectangle) -> Vec<Rectangle> {
    let pieces = r.cut_by(m);
    assert!(pieces.len() <= 4);
    let mut total = 0;
    for (i, p) in pieces.iter().enumerate() {
        assert!(p.min.x <= p.max.x && p.min.y <= p.max.y);
        assert!(r.min.x <= p.min.x && p.max.x <= r.max.x);
        assert!(r.min.y <= p.min.y && p.max.y <= r.max.y);
        assert_eq!(common_area(p, &m), 0);
        for q in pieces.iter().skip(i + 1) {
            assert!(!p.intersects(q));
        }
        total += area(p);
    }
    assert_eq!(total, area(&r) - common_area(&r, &m));
    pieces
}

#[test]
fn new_normalises_the_corners() {
    let r = Rectangle::new(Vec2::new(5, -2), Vec2::new(-3, 7));
    assert_eq!(r, rect(-3, -2, 5, 7));
    assert_eq!(Rectangle::new(Vec2::new(1, 2), Vec2::new(3, 4)), rect(1, 2, 3, 4));
}

#[test]
fn centered_center_and_size() {
    let r = Rectangle::centered(Vec2::new(1000, -1000), Vec2::new(400, 600));
    assert_eq!(r, rect(800, -1300, 1200, -700));
    assert_eq!(r.center(), Vec2::new(1000, -1000));
    assert_eq!(r.size(), Vec2::new(400, 600));
    let odd = Rectangle::centered(Vec2::new(0, 0), Vec2::new(5, 1));
    assert_eq!(odd, rect(-2, 0, 2, 0));
    assert_eq!(rect(0, 0, 3, 5).center(), Vec2::new(1, 2));
}

#[test]
fn contains_is_strict() {
    let r = rect(0, 0, 10, 10);
    assert!(r.contains(Vec2::new(5, 5)));
    assert!(r.contains(Vec2::new(1, 9)));
    assert!(!r.contains(Vec2::new(0, 5)));
    assert!(!r.contains(Vec2::new(10, 5)));
    assert!(!r.contains(Vec2::new(5, 0)));
    assert!(!r.contains(Vec2::new(5, 10)));
    assert!(!r.contains(Vec2::new(11, 5)));
}

#[test]
fn degenerate_rectangle_contains_no_point() {
    let flat = rect(0, 0, 10, 0);
    assert!(!flat.contains(Vec2::new(5, 0)));
    let thin = rect(3, 0, 3, 10);
    assert!(!thin.contains(Vec2::new(3, 5)));
}

#[test]
fn intersects_is_strict_and_symmetric() {
    let r = rect(0, 0, 10, 10);
    let touching = rect(10, 0, 20, 10);
    let crossing = rect(9, 9, 20, 20);
    let apart = rect(30, 30, 40, 40);
    assert!(!r.intersects(&touching));
    assert!(!touching.intersects(&r));
    assert!(r.intersects(&crossing));
    assert!(crossing.intersects(&r));
    assert!(!r.intersects(&apart));
    assert!(!apart.intersects(&r));
}

#[test]
fn extrude_y_lifts_the_rectangle() {
    let b = rect(1, 2, 3, 4).extrude_y(-1000, 5000);
    assert_eq!(b.min, Vec3::new(1, -1000, 2));
    assert_eq!(b.max, Vec3::new(3, 5000, 4));
    assert_eq!(b.color, None);
}

#[test]
fn cut_in_the_middle_of_one_side() {
    let pieces = rect(0, 0, 10, 10).cut_by(rect(4, -1, 6, 11));
    assert_eq!(pieces, vec![rect(0, 0, 4, 10), rect(6, 0, 10, 10)]);
}

#[test]
fn cut_by_a_mask_apart_returns_the_rectangle() {
    let r = rect(0, 0, 10, 10);
    assert_eq!(r.cut_by(rect(20, 20, 30, 30)), vec![r]);
    assert_eq!(r.cut_by(rect(10, 0, 20, 10)), vec![r]);
}

#[test]
fn cut_by_a_covering_mask_leaves_nothing() {
    let r = rect(0, 0, 10, 10);
    assert_eq!(r.cut_by(rect(-1, -1, 11, 11)), Vec::<Rectangle>::new());
    assert_eq!(r.cut_by(r), Vec::<Rectangle>::new());
}

#[test]
fn cut_by_a_mask_in_the_interior_gives_four_pieces() {
    let pieces = check_cut(rect(0, 0, 10, 10), rect(3, 4, 6, 8));
    assert_eq!(
        pieces,
        vec![rect(0, 0, 3, 10), rect(6, 0, 10, 10), rect(3, 0, 6, 4), rect(3, 8, 6, 10)]
    );
}

#[test]
fn cut_edges_come_in_the_order_min_x_max_x_min_y_max_y() {
    let corner = check_cut(rect(0, 0, 10, 10), rect(5, 5, 20, 20));
    assert_eq!(corner, vec![rect(0, 0, 5, 10), rect(5, 0, 10, 5)]);
    let other = check_cut(rect(0, 0, 10, 10), rect(-5, -5, 5, 5));
    assert_eq!(other, vec![rect(5, 0, 10, 10), rect(0, 5, 5, 10)]);
    let band = check_cut(rect(0, 0, 10, 10), rect(-1, 2, 11, 3));
    assert_eq!(band, vec![rect(0, 0, 10, 2), rect(0, 3, 10, 10)]);
    let notch = check_cut(rect(0, 0, 10, 10), rect(2, -5, 4, 5));
    assert_eq!(notch, vec![rect(0, 0, 2, 10), rect(4, 0, 10, 10), rect(2, 5, 4, 10)]);
}

#[test]
fn cut_pieces_cover_the_difference_without_overlap() {
    let r = rect(-7, -3, 9, 12);
    for x0 in [-10, -7, -2, 9, 11] {
        for x1 in [-8, -1, 4, 9, 15] {
            for y0 in [-5, -3, 0, 12] {
                for y1 in [-4, 1, 12, 14] {
                    if x0 < x1 && y0 < y1 {
                        check_cut(r, rect(x0, y0, x1, y1));
                    }
                }
            }
        }
    }
}

#[test]
fn cut_has_four_pieces_only_for_a_mask_in_the_interior() {
    let r = rect(0, 0, 10, 10);
    for x0 in [-1, 0, 3] {
        for x1 in [6, 10, 11] {
            for y0 in [-1, 0, 3] {
                for y1 in [6, 10, 11] {
                    let m = rect(x0, y0, x1, y1);
                    let inside = 0 < x0 && x1 < 10 && 0 < y0 && y1 < 10;
                    assert_eq!(check_cut(r, m).len() == 4, inside);
                }
            }
        }
    }
}

#[test]
fn cut_by_a_mask_without_width_still_splits_along_its_line() {
    let pieces = rect(0, 0, 10, 10).cut_by(rect(5, -1, 5, 11));
    assert_eq!(pieces, vec![rect(0, 0, 5, 10)]);
    let flat = rect(0, 0, 10, 10).cut_by(rect(-1, 4, 11, 4));
    assert_eq!(flat, vec![rect(0, 0, 10, 4)]);
}
