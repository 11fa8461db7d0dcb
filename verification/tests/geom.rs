use iris_ui::geom::{Bounds, Insets, Point, Size};

#[test]
fn points() {
    let p1 = Point::new(20, 30);
    let p2 = Point::new(40, 50);
    assert_eq!(p1 + p2, Point::new(60, 80));
    assert_eq!(p1 - p2, Point::new(-20, -20));
    assert_eq!(Point::new(20, 30).to_string(), "20,30");
}

#[test]
fn sizes() {
    let a = Size::new(10, 10);
    let b = Size::new(10, 10);
    let c = Size::new(20, 20);
    assert_eq!(a + b, c);
    let d = Insets::new_same(10);
    assert_eq!(a + d, Size::new(30, 30));
    assert_eq!(Size::new(10, 20).to_string(), "10x20");
}

#[test]
fn bounds() {
    let a = Bounds::new(10, 20, 30, 40);
    let pt = Point::new(1, 1);
    assert_eq!(a.to_string(), "10,20 30x40");
    assert_eq!(a + pt, Bounds::new(11, 21, 30, 40));
    assert_eq!(a - pt, Bounds::new(9, 19, 30, 40));
    assert_eq!(Bounds::new_from(Point::new(5, 6), Size::new(7, 8)), Bounds::new(5, 6, 7, 8));
}

#[test]
fn test_geometry() {
    let bounds = Bounds::new(0, 0, 100, 100);
    assert_eq!(bounds.contains(&Point::new(10, 10)), true);
    assert_eq!(bounds.contains(&Point::new(-1, -1)), false);

    let b2 = Bounds::new(140, 180, 80, 30);
    let b3 = Bounds::new(140, 180, 80, 30);
    assert_eq!(b2.union(b3), b2.clone());
}

#[test]
fn test_point() {
    let pt1 = Point::new(8, 9);
    let pt2 = Point::new(10, 11);
    let pt3 = pt1 + pt2;
    assert_eq!(pt3, Point::new(18, 20));
    let bounds = Bounds::new(1, 2, 3, 4);
    assert_eq!(bounds.position, Point::new(1, 2));

    let pt4 = pt1 - pt2;
    assert_eq!(pt4, Point::new(-2, -2));
}

#[test]
fn negative_numbers_print_with_their_sign() {
    assert_eq!(Point::new(-5, 0).to_string(), "-5,0");
    assert_eq!(Size::new(-99, -99).to_string(), "-99x-99");
    assert_eq!(Bounds::new(-1, -2, 3, 4).to_string(), "-1,-2 3x4");
}

#[test]
fn size_less_insets() {
    let s = Size::new(100, 50);
    let i = Insets::new(1, 2, 3, 4);
    assert_eq!(s - i, Size::new(94, 46));
    assert_eq!(s.sub(&i), Size::new(94, 46));
    assert_eq!(s.add(&i), Size::new(106, 54));
    assert_eq!(s + &i, Size::new(106, 54));
}

#[test]
fn grow_then_shrink_gives_the_size_back() {
    let s = Size::new(37, -12);
    let i = Insets::new(5, 6, 7, 8);
    assert_eq!((s + i) - i, s);
}

#[test]
fn point_negate_and_subtract() {
    let p = Point::new(3, -4);
    assert_eq!(p.negate(), Point::new(-3, 4));
    assert_eq!(p.subtract(&Point::new(1, 1)), Point::new(2, -5));
    assert_eq!(Point::zero(), Point::new(0, 0));
    assert_eq!((p + Point::new(7, 9)) - Point::new(7, 9), p);
}

#[test]
fn contains_excludes_the_far_edges() {
    let b = Bounds::new(10, 10, 20, 20);
    assert!(b.contains(&Point::new(10, 10)));
    assert!(b.contains(&Point::new(29, 29)));
    assert!(!b.contains(&Point::new(30, 29)));
    assert!(!b.contains(&Point::new(29, 30)));
    assert!(!b.contains(&Point::new(9, 15)));
}

#[test]
fn contains_near_the_limits_of_i32() {
    let b = Bounds::new(i32::MAX - 1, 0, 10, 10);
    assert!(b.contains(&Point::new(i32::MAX, 5)));
    let c = Bounds::new(i32::MIN, i32::MIN, i32::MAX, i32::MAX);
    assert!(c.contains(&Point::new(i32::MIN, -2)));
    assert!(!c.contains(&Point::new(0, 0)));
}

#[test]
fn empty_bounds() {
    let e = Bounds::new_empty();
    assert!(e.is_empty());
    assert_eq!(e, Bounds::new(0, 0, -99, -99));
    assert!(!e.contains(&Point::new(0, 0)));
    assert!(Bounds::new(0, 0, 0, 10).is_empty());
    assert!(!Bounds::new(0, 0, 1, 1).is_empty());
    assert_eq!(Bounds::default(), Bounds::new(0, 0, 100, 100));
}

#[test]
fn union_covers_both() {
    let a = Bounds::new(0, 0, 10, 10);
    let b = Bounds::new(20, 5, 10, 20);
    let u = a.union(b);
    assert_eq!(u, Bounds::new(0, 0, 30, 25));
    assert_eq!(b.union(a), u);
    assert!(u.contains(&Point::new(5, 5)));
    assert!(u.contains(&Point::new(25, 20)));
}

#[test]
fn union_with_empty_is_the_other() {
    let a = Bounds::new(3, 4, 5, 6);
    let e = Bounds::new_empty();
    assert_eq!(e.union(a), a);
    assert_eq!(a.union(e), a);
    assert_eq!(a.union(a), a);
}

#[test]
fn edges_center_and_contract() {
    let b = Bounds::new(10, 20, 31, 41);
    assert_eq!(b.x2(), 41);
    assert_eq!(b.y2(), 61);
    assert_eq!(b.center(), Point::new(25, 40));
    assert_eq!(b.contract(2), Bounds::new(12, 22, 27, 37));
    assert_eq!(b.x(), 10);
    assert_eq!(b.y(), 20);
    assert_eq!(b.w(), 31);
    assert_eq!(b.h(), 41);
}

#[test]
fn center_with_negative_size_rounds_toward_zero() {
    let b = Bounds::new(0, 0, -5, -3);
    assert_eq!(b.center(), Point::new(-2, -1));
}

#[test]
fn center_at_puts_the_center_there() {
    let b = Bounds::new(0, 0, 40, 20);
    let c = b.center_at(100, 50);
    assert_eq!(c, Bounds::new(80, 40, 40, 20));
    assert_eq!(c.center(), Point::new(100, 50));
}
