use roguelike::direction::Direction;
use roguelike::point::Point;
use roguelike::rectangle::Rectangle;

#[test]
fn point_new_keeps_coordinates() {
    let p = Point::new(3, -4);
    assert_eq!(p.x, 3);
    assert_eq!(p.y, -4);
}

#[test]
fn points_add_and_subtract_by_coordinate() {
    let a = Point::new(7, -2);
    let b = Point::new(-3, 10);
    assert_eq!(a + b, Point::new(4, 8));
    assert_eq!(a - b, Point::new(10, -12));
    assert_eq!((a + b) - b, a);
}

#[test]
fn sqr_radius_is_the_squared_length() {
    assert_eq!(Point::new(3, 4).sqr_radius(), 25);
    assert_eq!(Point::new(-3, 4).sqr_radius(), 25);
    assert_eq!(Point::new(0, 0).sqr_radius(), 0);
    assert_eq!(Point::new(i16::MIN, i16::MIN).sqr_radius(), 2 * 32768 * 32768);
}

#[test]
fn directions_are_unit_steps_with_y_downwards() {
    assert_eq!(Direction::Up.to_rel_point(), Point::new(0, -1));
    assert_eq!(Direction::Down.to_rel_point(), Point::new(0, 1));
    assert_eq!(Direction::Left.to_rel_point(), Point::new(-1, 0));
    assert_eq!(Direction::Right.to_rel_point(), Point::new(1, 0));
}

#[test]
fn rectangle_new_spans_width_and_height() {
    let r = Rectangle::new(Point::new(2, 3), (6, 9));
    assert_eq!(r.top_left, Point::new(2, 3));
    assert_eq!(r.bottom_right, Point::new(8, 12));
}

#[test]
fn centre_is_the_midpoint_rounded_towards_zero() {
    assert_eq!(Rectangle::new(Point::new(2, 3), (6, 9)).centre(), Point::new(5, 7));
    assert_eq!(Rectangle::new(Point::new(0, 0), (7, 7)).centre(), Point::new(3, 3));
    // The sum of the corners is -7: half of it is -3, not -4.
    assert_eq!(Rectangle::new(Point::new(-5, -5), (3, 3)).centre(), Point::new(-3, -3));
}

#[test]
fn rectangles_that_touch_intersect() {
    let a = Rectangle::new(Point::new(0, 0), (5, 5));
    let touching = Rectangle::new(Point::new(5, 5), (3, 3));
    let apart = Rectangle::new(Point::new(6, 0), (3, 3));
    let below = Rectangle::new(Point::new(0, 6), (5, 2));
    let inside = Rectangle::new(Point::new(1, 1), (2, 2));
    assert!(a.is_intersecting(&touching));
    assert!(touching.is_intersecting(&a));
    assert!(!a.is_intersecting(&apart));
    assert!(!apart.is_intersecting(&a));
    assert!(!a.is_intersecting(&below));
    assert!(a.is_intersecting(&inside));
    assert!(a.is_intersecting(&a));
}

#[test]
fn clamp_leaves_a_rectangle_within_bounds_alone() {
    let mut r = Rectangle::new(Point::new(10, 10), (20, 5));
    r.clamp_to((0, 0), (100, 100));
    assert_eq!(r, Rectangle::new(Point::new(10, 10), (20, 5)));
}

#[test]
fn clamp_slides_a_rectangle_back_from_the_left_and_top() {
    let mut r = Rectangle::new(Point::new(-7, -3), (20, 5));
    r.clamp_to((0, 0), (100, 100));
    assert_eq!(r, Rectangle::new(Point::new(0, 0), (20, 5)));
}

#[test]
fn clamp_slides_a_rectangle_back_from_the_right_and_bottom() {
    let mut r = Rectangle::new(Point::new(90, 98), (20, 5));
    r.clamp_to((0, 0), (100, 100));
    assert_eq!(r.top_left, Point::new(80, 95));
    assert_eq!(r.bottom_right, Point::new(100, 100));
}

#[test]
fn clamp_puts_a_rectangle_that_is_too_large_flush_with_the_far_bound() {
    let mut r = Rectangle::new(Point::new(-5, 2), (50, 3));
    r.clamp_to((0, 0), (30, 10));
    assert_eq!(r.top_left, Point::new(-20, 2));
    assert_eq!(r.bottom_right, Point::new(30, 5));
}

#[test]
fn clamp_twice_is_clamp_once() {
    let mut once = Rectangle::new(Point::new(-12, 40), (30, 20));
    once.clamp_to((0, 0), (50, 50));
    let mut twice = once;
    twice.clamp_to((0, 0), (50, 50));
    assert_eq!(once, twice);
    assert_eq!(once, Rectangle::new(Point::new(0, 30), (30, 20)));
}

#[test]
fn random_position_lies_inside_the_rectangle() {
    let mut rng = rand::thread_rng();
    let r = Rectangle::new(Point::new(4, 9), (6, 7));
    for _ in 0..500 {
        let p = r.get_random_position(&mut rng);
        assert!(4 < p.x && p.x < 10);
        assert!(9 < p.y && p.y < 16);
    }
}
