//! Integer screen geometry: sizes, insets, points and rectangles.
//!
//! All coordinates are `i32`. Every operation that adds or subtracts
//! coordinates states, in its `requires`, that the intermediate results stay
//! inside `i32`; the predicates that decide containment and emptiness are
//! total and exact.
use vstd::prelude::*;
use vstd::std_specs::ops::{AddSpecImpl, SubSpecImpl};
use core::ops::{Add, Sub};
use crate::text::{decimal, i32_to_text, join_with};

verus! {

/// `v` is representable as an `i32`.
pub open spec fn fits(v: int) -> bool {
    i32::MIN <= v <= i32::MAX
}

/// Rust's integer division on `i32`, which rounds toward zero.
pub open spec fn tdiv(a: int, b: int) -> int {
    if a >= 0 {
        a / b
    } else {
        -((-a) / b)
    }
}

/// `i32` division, which rounds toward zero.
pub fn div_i32(a: i32, b: i32) -> (r: i32)
    requires
        b != 0,
        !(a == i32::MIN && b == -1),
    ensures
        r == tdiv(a as int, b as int),
{
    let r = core::ops::Div::div(a, b);
    proof {
        lemma_tdiv_fits(a as int, b as int);
    }
    r
}

/// The quotient of two `i32` values, rounded toward zero, is an `i32`
/// unless it is `i32::MIN / -1`.
proof fn lemma_tdiv_fits(a: int, b: int)
    requires
        fits(a),
        fits(b),
        b != 0,
        !(a == i32::MIN && b == -1),
    ensures
        fits(tdiv(a, b)),
{
    if a >= 0 {
        if b > 0 {
            assert(0 <= a / b <= a) by (nonlinear_arith)
                requires
                    a >= 0,
                    b > 0,
            ;
        } else {
            assert(-a <= a / b <= 0) by (nonlinear_arith)
                requires
                    a >= 0,
                    b < 0,
            ;
        }
    } else {
        if b > 0 {
            assert(0 <= (-a) / b <= -a) by (nonlinear_arith)
                requires
                    -a > 0,
                    b > 0,
            ;
        } else {
            if b == -1 {
                assert((-a) / b == a) by (nonlinear_arith)
                    requires
                        b == -1,
                ;
            } else {
                assert(a <= 2 * ((-a) / b) && (-a) / b <= 0) by (nonlinear_arith)
                    requires
                        -a > 0,
                        b <= -2,
                ;
            }
        }
    }
}

/// A width and a height.
#[derive(Copy, Clone, Debug, PartialEq, Eq, Structural)]
pub struct Size {
    pub w: i32,
    pub h: i32,
}

/// Distances that shrink or grow a rectangle on each of its four sides.
#[derive(Copy, Clone, Debug, PartialEq, Eq, Structural)]
pub struct Insets {
    pub left: i32,
    pub right: i32,
    pub top: i32,
    pub bottom: i32,
}

/// A position on the screen.
#[derive(Copy, Clone, Debug, PartialEq, Eq, Structural)]
pub struct Point {
    pub x: i32,
    pub y: i32,
}

/// A rectangle: its top-left corner and its size.
#[derive(Copy, Clone, Debug, PartialEq, Eq, Structural)]
pub struct Bounds {
    pub position: Point,
    pub size: Size,
}

/// `s` shrunk by the insets `b`, when every step fits in `i32`.
pub open spec fn size_minus_insets_ok(s: Size, b: Insets) -> bool {
    &&& fits(s.w - b.left)
    &&& fits(s.w - b.left - b.right)
    &&& fits(s.h - b.top)
    &&& fits(s.h - b.top - b.bottom)
}

pub open spec fn size_minus_insets(s: Size, b: Insets) -> Size {
    Size { w: (s.w - b.left - b.right) as i32, h: (s.h - b.top - b.bottom) as i32 }
}

/// `s` grown by the insets `b`, when every step fits in `i32`.
pub open spec fn size_plus_insets_ok(s: Size, b: Insets) -> bool {
    &&& fits(s.w + b.left)
    &&& fits(s.w + b.left + b.right)
    &&& fits(s.h + b.top)
    &&& fits(s.h + b.top + b.bottom)
}

pub open spec fn size_plus_insets(s: Size, b: Insets) -> Size {
    Size { w: (s.w + b.left + b.right) as i32, h: (s.h + b.top + b.bottom) as i32 }
}

pub open spec fn point_plus_ok(a: Point, b: Point) -> bool {
    fits(a.x + b.x) && fits(a.y + b.y)
}

pub open spec fn point_plus(a: Point, b: Point) -> Point {
    Point { x: (a.x + b.x) as i32, y: (a.y + b.y) as i32 }
}

pub open spec fn point_minus_ok(a: Point, b: Point) -> bool {
    fits(a.x - b.x) && fits(a.y - b.y)
}

pub open spec fn point_minus(a: Point, b: Point) -> Point {
    Point { x: (a.x - b.x) as i32, y: (a.y - b.y) as i32 }
}

impl Size {
    /// The placeholder size of an empty rectangle.
    fn empty() -> (r: Size)
        ensures
            r == (Size { w: -99i32, h: -99i32 }),
    {
        Size { w: -99, h: -99 }
    }

    pub fn new(w: i32, h: i32) -> (r: Size)
        ensures
            r == (Size { w, h }),
    {
        Size { w: w, h: h }
    }

    /// This size with the insets taken off each side.
    pub fn sub(&self, b: &Insets) -> (r: Size)
        requires
            size_minus_insets_ok(*self, *b),
        ensures
            r == size_minus_insets(*self, *b),
    {
        Size { w: self.w - b.left - b.right, h: self.h - b.top - b.bottom }
    }

    /// This size with the insets added on each side.
    pub fn add(&self, b: &Insets) -> (r: Size)
        requires
            size_plus_insets_ok(*self, *b),
        ensures
            r == size_plus_insets(*self, *b),
    {
        Size { w: self.w + b.left + b.right, h: self.h + b.top + b.bottom }
    }
}

impl Add<Size> for Size {
    type Output = Size;

    fn add(self, rhs: Size) -> (r: Size) {
        Size { w: self.w + rhs.w, h: self.h + rhs.h }
    }
}

impl AddSpecImpl<Size> for Size {
    open spec fn obeys_add_spec() -> bool {
        true
    }

    open spec fn add_req(self, rhs: Size) -> bool {
        fits(self.w + rhs.w) && fits(self.h + rhs.h)
    }

    open spec fn add_spec(self, rhs: Size) -> Size {
        Size { w: (self.w + rhs.w) as i32, h: (self.h + rhs.h) as i32 }
    }
}

impl Add<Insets> for Size {
    type Output = Size;

    fn add(self, rhs: Insets) -> (r: Size) {
        Size { w: self.w + rhs.left + rhs.right, h: self.h + rhs.top + rhs.bottom }
    }
}

impl AddSpecImpl<Insets> for Size {
    open spec fn obeys_add_spec() -> bool {
        true
    }

    open spec fn add_req(self, rhs: Insets) -> bool {
        size_plus_insets_ok(self, rhs)
    }

    open spec fn add_spec(self, rhs: Insets) -> Size {
        size_plus_insets(self, rhs)
    }
}

impl Sub<Insets> for Size {
    type Output = Size;

    fn sub(self, rhs: Insets) -> (r: Size) {
        Size { w: self.w - rhs.left - rhs.right, h: self.h - rhs.top - rhs.bottom }
    }
}

impl SubSpecImpl<Insets> for Size {
    open spec fn obeys_sub_spec() -> bool {
        true
    }

    open spec fn sub_req(self, rhs: Insets) -> bool {
        size_minus_insets_ok(self, rhs)
    }

    open spec fn sub_spec(self, rhs: Insets) -> Size {
        size_minus_insets(self, rhs)
    }
}

impl Insets {
    pub fn new(top: i32, right: i32, bottom: i32, left: i32) -> (r: Insets)
        ensures
            r == (Insets { top, right, bottom, left }),
    {
        Insets { top, right, bottom, left }
    }

    /// Insets that are `size` on every side.
    pub fn new_same(size: i32) -> (r: Insets)
        ensures
            r == (Insets { top: size, bottom: size, left: size, right: size }),
    {
        Insets { top: size, bottom: size, left: size, right: size }
    }
}

impl Point {
    pub fn negate(&self) -> (r: Point)
        requires
            self.x != i32::MIN,
            self.y != i32::MIN,
        ensures
            r == (Point { x: (-self.x) as i32, y: (-self.y) as i32 }),
    {
        Point { x: -self.x, y: -self.y }
    }

    /// This point relative to `p0`.
    pub fn subtract(&self, p0: &Point) -> (r: Point)
        requires
            point_minus_ok(*self, *p0),
        ensures
            r == point_minus(*self, *p0),
    {
        Point { x: self.x - p0.x, y: self.y - p0.y }
    }

    pub fn new(x: i32, y: i32) -> (r: Point)
        ensures
            r == (Point { x, y }),
    {
        Point { x, y }
    }

    pub fn zero() -> (r: Point)
        ensures
            r == (Point { x: 0, y: 0 }),
    {
        Point::new(0, 0)
    }
}

impl Add<Point> for Point {
    type Output = Point;

    fn add(self, rhs: Point) -> (r: Point) {
        Point { x: self.x + rhs.x, y: self.y + rhs.y }
    }
}

impl AddSpecImpl<Point> for Point {
    open spec fn obeys_add_spec() -> bool {
        true
    }

    open spec fn add_req(self, rhs: Point) -> bool {
        point_plus_ok(self, rhs)
    }

    open spec fn add_spec(self, rhs: Point) -> Point {
        point_plus(self, rhs)
    }
}

impl Sub<Point> for Point {
    type Output = Point;

    fn sub(self, rhs: Point) -> (r: Point) {
        Point { x: self.x - rhs.x, y: self.y - rhs.y }
    }
}

impl SubSpecImpl<Point> for Point {
    open spec fn obeys_sub_spec() -> bool {
        true
    }

    open spec fn sub_req(self, rhs: Point) -> bool {
        point_minus_ok(self, rhs)
    }

    open spec fn sub_spec(self, rhs: Point) -> Point {
        point_minus(self, rhs)
    }
}


/// `pt` lies inside `b`: on or after its left and top edges and strictly
/// before its right and bottom edges.
pub open spec fn bounds_hold(b: Bounds, pt: Point) -> bool {
    &&& b.position.x <= pt.x
    &&& b.position.y <= pt.y
    &&& b.position.x + b.size.w > pt.x
    &&& b.position.y + b.size.h > pt.y
}

/// The empty rectangle that dirty-region tracking starts from.
pub open spec fn empty_bounds() -> Bounds {
    Bounds { position: Point { x: 0, y: 0 }, size: Size { w: -99i32, h: -99i32 } }
}

/// A rectangle is empty when its width or its height is below one.
pub open spec fn bounds_empty(b: Bounds) -> bool {
    b.size.w < 1 || b.size.h < 1
}

pub open spec fn right_edge(b: Bounds) -> int {
    b.position.x + b.size.w
}

pub open spec fn bottom_edge(b: Bounds) -> int {
    b.position.y + b.size.h
}

pub open spec fn min_int(a: int, b: int) -> int {
    if a <= b { a } else { b }
}

pub open spec fn max_int(a: int, b: int) -> int {
    if a >= b { a } else { b }
}

/// The smallest rectangle covering two non-empty rectangles, as integers.
pub open spec fn cover_x(a: Bounds, b: Bounds) -> int {
    min_int(a.position.x as int, b.position.x as int)
}

pub open spec fn cover_y(a: Bounds, b: Bounds) -> int {
    min_int(a.position.y as int, b.position.y as int)
}

pub open spec fn cover_w(a: Bounds, b: Bounds) -> int {
    max_int(right_edge(a), right_edge(b)) - cover_x(a, b)
}

pub open spec fn cover_h(a: Bounds, b: Bounds) -> int {
    max_int(bottom_edge(a), bottom_edge(b)) - cover_y(a, b)
}

/// Every value that `union` computes fits in `i32`.
pub open spec fn union_ok(a: Bounds, b: Bounds) -> bool {
    bounds_empty(a) || bounds_empty(b) || {
        &&& fits(right_edge(a))
        &&& fits(right_edge(b))
        &&& fits(bottom_edge(a))
        &&& fits(bottom_edge(b))
        &&& fits(cover_w(a, b))
        &&& fits(cover_h(a, b))
    }
}

/// What `union` returns.
pub open spec fn union_of(a: Bounds, b: Bounds) -> Bounds {
    if bounds_empty(a) {
        b
    } else if bounds_empty(b) {
        a
    } else {
        Bounds {
            position: Point { x: cover_x(a, b) as i32, y: cover_y(a, b) as i32 },
            size: Size { w: cover_w(a, b) as i32, h: cover_h(a, b) as i32 },
        }
    }
}

impl Bounds {
    pub fn x(&self) -> (r: i32)
        ensures
            r == self.position.x,
    {
        self.position.x
    }

    pub fn y(&self) -> (r: i32)
        ensures
            r == self.position.y,
    {
        self.position.y
    }

    pub fn w(&self) -> (r: i32)
        ensures
            r == self.size.w,
    {
        self.size.w
    }

    pub fn h(&self) -> (r: i32)
        ensures
            r == self.size.h,
    {
        self.size.h
    }

    /// This rectangle shrunk by `i` on every side.
    pub fn contract(&self, i: i32) -> (r: Bounds)
        requires
            fits(self.position.x + i),
            fits(self.position.y + i),
            fits(self.size.w - i),
            fits(self.size.w - i - i),
            fits(self.size.h - i),
            fits(self.size.h - i - i),
        ensures
            r == (Bounds {
                position: Point { x: (self.position.x + i) as i32, y: (self.position.y + i) as i32 },
                size: Size { w: (self.size.w - i - i) as i32, h: (self.size.h - i - i) as i32 },
            }),
    {
        Bounds {
            position: Point { x: self.position.x + i, y: self.position.y + i },
            size: Size { w: self.size.w - i - i, h: self.size.h - i - i },
        }
    }

    pub fn new(x: i32, y: i32, w: i32, h: i32) -> (r: Bounds)
        ensures
            r == (Bounds { position: Point { x, y }, size: Size { w, h } }),
    {
        Bounds { position: Point::new(x, y), size: Size::new(w, h) }
    }

    pub fn new_from(position: Point, size: Size) -> (r: Bounds)
        ensures
            r == (Bounds { position, size }),
    {
        Bounds { position: position, size: size }
    }

    /// The smallest rectangle that covers both rectangles. An empty rectangle
    /// covers nothing: the union with it is the other rectangle.
    pub fn union(&self, b: Bounds) -> (r: Bounds)
        requires
            union_ok(*self, b),
        ensures
            r == union_of(*self, b),
    {
        if self.is_empty() {
            return b;
        }
        if b.is_empty() {
            return *self;
        }
        let x = if self.position.x <= b.position.x { self.position.x } else { b.position.x };
        let y = if self.position.y <= b.position.y { self.position.y } else { b.position.y };
        let ax2 = self.x2();
        let bx2 = b.x2();
        let ay2 = self.y2();
        let by2 = b.y2();
        let x2 = if ax2 >= bx2 { ax2 } else { bx2 };
        let y2 = if ay2 >= by2 { ay2 } else { by2 };
        Bounds::from_xyxy2(x, y, x2, y2)
    }

    /// The point at the middle of the rectangle (halves round toward zero).
    pub fn center(&self) -> (r: Point)
        requires
            fits(self.position.x + tdiv(self.size.w as int, 2)),
            fits(self.position.y + tdiv(self.size.h as int, 2)),
        ensures
            r == (Point {
                x: (self.position.x + tdiv(self.size.w as int, 2)) as i32,
                y: (self.position.y + tdiv(self.size.h as int, 2)) as i32,
            }),
    {
        Point::new(self.position.x + self.size.w / 2, self.position.y + self.size.h / 2)
    }

    /// The rectangle with corners `(x, y)` and `(x2, y2)`.
    fn from_xyxy2(x: i32, y: i32, x2: i32, y2: i32) -> (r: Bounds)
        requires
            fits(x2 - x),
            fits(y2 - y),
        ensures
            r == (Bounds { position: Point { x, y }, size: Size { w: (x2 - x) as i32, h: (y2 - y) as i32 } }),
    {
        Bounds { position: Point::new(x, y), size: Size::new(x2 - x, y2 - y) }
    }

    /// The x coordinate just past the right edge.
    pub fn x2(&self) -> (r: i32)
        requires
            fits(right_edge(*self)),
        ensures
            r == right_edge(*self),
    {
        self.position.x + self.size.w
    }

    /// The y coordinate just past the bottom edge.
    pub fn y2(&self) -> (r: i32)
        requires
            fits(bottom_edge(*self)),
        ensures
            r == bottom_edge(*self),
    {
        self.position.y + self.size.h
    }

    /// A rectangle of the same size whose center is `(x, y)`.
    pub fn center_at(&self, x: i32, y: i32) -> (r: Bounds)
        requires
            fits(x - tdiv(self.size.w as int, 2)),
            fits(y - tdiv(self.size.h as int, 2)),
        ensures
            r == (Bounds {
                position: Point {
                    x: (x - tdiv(self.size.w as int, 2)) as i32,
                    y: (y - tdiv(self.size.h as int, 2)) as i32,
                },
                size: self.size,
            }),
    {
        Bounds { position: Point::new(x - self.size.w / 2, y - self.size.h / 2), size: self.size }
    }

    /// The empty rectangle that dirty-region tracking starts from.
    pub fn new_empty() -> (r: Bounds)
        ensures
            r == (Bounds { position: Point { x: 0, y: 0 }, size: Size { w: -99i32, h: -99i32 } }),
            bounds_empty(r),
    {
        Bounds { position: Point::zero(), size: Size::empty() }
    }

    pub fn is_empty(&self) -> (r: bool)
        ensures
            r == bounds_empty(*self),
    {
        self.size.w < 1 || self.size.h < 1
    }

    /// Whether `pt` lies inside the rectangle. The edges are compared as
    /// integers, so the answer is exact for every rectangle.
    pub fn contains(&self, pt: &Point) -> (r: bool)
        ensures
            r == bounds_hold(*self, *pt),
    {
        if self.position.x <= pt.x && self.position.y <= pt.y {
            let x2 = self.position.x as i64 + self.size.w as i64;
            let y2 = self.position.y as i64 + self.size.h as i64;
            if x2 > pt.x as i64 && y2 > pt.y as i64 {
                return true;
            }
        }
        false
    }
}

impl Default for Bounds {
    fn default() -> (r: Bounds)
        ensures
            r == (Bounds { position: Point { x: 0, y: 0 }, size: Size { w: 100, h: 100 } }),
    {
        Bounds::new(0, 0, 100, 100)
    }
}

impl Add<Point> for Bounds {
    type Output = Bounds;

    fn add(self, rhs: Point) -> (r: Bounds) {
        Bounds { position: self.position + rhs, size: self.size }
    }
}

impl AddSpecImpl<Point> for Bounds {
    open spec fn obeys_add_spec() -> bool {
        true
    }

    open spec fn add_req(self, rhs: Point) -> bool {
        point_plus_ok(self.position, rhs)
    }

    open spec fn add_spec(self, rhs: Point) -> Bounds {
        Bounds { position: point_plus(self.position, rhs), size: self.size }
    }
}

impl Sub<Point> for Bounds {
    type Output = Bounds;

    fn sub(self, rhs: Point) -> (r: Bounds) {
        Bounds { position: self.position - rhs, size: self.size }
    }
}

impl SubSpecImpl<Point> for Bounds {
    open spec fn obeys_sub_spec() -> bool {
        true
    }

    open spec fn sub_req(self, rhs: Point) -> bool {
        point_minus_ok(self.position, rhs)
    }

    open spec fn sub_spec(self, rhs: Point) -> Bounds {
        Bounds { position: point_minus(self.position, rhs), size: self.size }
    }
}


impl<'a> Add<&'a Insets> for Size {
    type Output = Size;

    fn add(self, rhs: &'a Insets) -> (r: Size) {
        Size { w: self.w + rhs.left + rhs.right, h: self.h + rhs.top + rhs.bottom }
    }
}

impl<'a> AddSpecImpl<&'a Insets> for Size {
    open spec fn obeys_add_spec() -> bool {
        true
    }

    open spec fn add_req(self, rhs: &'a Insets) -> bool {
        size_plus_insets_ok(self, *rhs)
    }

    open spec fn add_spec(self, rhs: &'a Insets) -> Size {
        size_plus_insets(self, *rhs)
    }
}

/// Moving a point by `q` and then back by `q` returns it unchanged.
pub proof fn lemma_point_add_then_sub(p: Point, q: Point)
    requires
        point_plus_ok(p, q),
    ensures
        point_minus_ok(point_plus(p, q), q),
        point_minus(point_plus(p, q), q) == p,
{
}

/// Translating a rectangle by `q` and then back by `q` returns it unchanged.
pub proof fn lemma_bounds_translate_roundtrip(b: Bounds, q: Point)
    requires
        point_plus_ok(b.position, q),
    ensures
        point_minus_ok(point_plus(b.position, q), q),
        (Bounds { position: point_minus(point_plus(b.position, q), q), size: b.size }) == b,
{
}

/// Growing a size by some insets and shrinking it by the same insets
/// returns it unchanged (where the shrinking, done left side first, stays
/// inside `i32`).
pub proof fn lemma_size_grow_then_shrink(s: Size, i: Insets)
    requires
        size_plus_insets_ok(s, i),
        fits(s.w + i.right),
        fits(s.h + i.bottom),
    ensures
        size_minus_insets_ok(size_plus_insets(s, i), i),
        size_minus_insets(size_plus_insets(s, i), i) == s,
{
}

/// An empty rectangle contains no point.
pub proof fn lemma_empty_contains_nothing(b: Bounds, pt: Point)
    requires
        bounds_empty(b),
    ensures
        !bounds_hold(b, pt),
{
}

/// The union of two rectangles contains every point of either rectangle.
pub proof fn lemma_union_covers(a: Bounds, b: Bounds, pt: Point)
    requires
        union_ok(a, b),
        bounds_hold(a, pt) || bounds_hold(b, pt),
    ensures
        bounds_hold(union_of(a, b), pt),
{
}

/// A point of the union of two non-empty rectangles lies within the
/// extreme edges of the two: the union adds nothing beyond them.
pub proof fn lemma_union_is_tight(a: Bounds, b: Bounds, pt: Point)
    requires
        union_ok(a, b),
        !bounds_empty(a),
        !bounds_empty(b),
        bounds_hold(union_of(a, b), pt),
    ensures
        min_int(a.position.x as int, b.position.x as int) <= pt.x < max_int(right_edge(a), right_edge(b)),
        min_int(a.position.y as int, b.position.y as int) <= pt.y < max_int(bottom_edge(a), bottom_edge(b)),
{
}

/// Union of non-empty rectangles does not depend on the order.
pub proof fn lemma_union_commutes(a: Bounds, b: Bounds)
    requires
        !bounds_empty(a),
        !bounds_empty(b),
    ensures
        union_ok(a, b) == union_ok(b, a),
        union_of(a, b) == union_of(b, a),
{
}

/// The union of a non-empty rectangle with itself is that rectangle.
pub proof fn lemma_union_idempotent(a: Bounds)
    requires
        union_ok(a, a),
    ensures
        union_of(a, a) == a,
{
}

/// An empty rectangle is neutral for union, on either side.
pub proof fn lemma_union_empty_neutral(e: Bounds, a: Bounds)
    requires
        bounds_empty(e),
    ensures
        union_ok(e, a),
        union_of(e, a) == a,
        !bounds_empty(a) ==> union_ok(a, e) && union_of(a, e) == a,
{
}

/// Centering a rectangle at a point puts its center on that point.
pub proof fn lemma_center_at_centers(b: Bounds, x: i32, y: i32)
    requires
        fits(x - tdiv(b.size.w as int, 2)),
        fits(y - tdiv(b.size.h as int, 2)),
    ensures
        (x - tdiv(b.size.w as int, 2)) + tdiv(b.size.w as int, 2) == x,
        (y - tdiv(b.size.h as int, 2)) + tdiv(b.size.h as int, 2) == y,
{
}


impl Size {
    /// The size written as `WxH`, as its `Display` form.
    pub fn to_string(&self) -> (r: String)
        ensures
            r@ == decimal(self.w as int).push('x') + decimal(self.h as int),
    {
        join_with(i32_to_text(self.w), 'x', &i32_to_text(self.h))
    }
}

impl Point {
    /// The point written as `X,Y`, as its `Display` form.
    pub fn to_string(&self) -> (r: String)
        ensures
            r@ == decimal(self.x as int).push(',') + decimal(self.y as int),
    {
        join_with(i32_to_text(self.x), ',', &i32_to_text(self.y))
    }
}

impl Bounds {
    /// The rectangle written as `X,Y WxH`, as its `Display` form.
    pub fn to_string(&self) -> (r: String)
        ensures
            r@ == (decimal(self.position.x as int).push(',') + decimal(self.position.y as int)).push(' ')
                + (decimal(self.size.w as int).push('x') + decimal(self.size.h as int)),
    {
        join_with(self.position.to_string(), ' ', &self.size.to_string())
    }
}

} // verus!
