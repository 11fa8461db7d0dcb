//! A vertical menu: a column of items, one of them selected, built on the
//! library's support for views of the application's own making.
use vstd::prelude::*;
use vstd::view::View as _;
use crate::geom::{bounds_hold, fits, Bounds, Point, Size};
use crate::input::InputEvent;
use crate::util::LayoutTheme;
use crate::view::{CustomView, DrawKind, InputKind, LayoutKind, PaintOp, Tone, View, ViewId, ViewState};

verus! {

/// The height of one row of a menu.
pub const ROW_HEIGHT: i32 = 30;

/// The items of a menu and which of them is selected. The column of all
/// rows is never taller than `i32` counts.
pub struct MenuView {
    data: Vec<String>,
    selected: usize,
}

/// Whether a column of `n` menu rows has a height that `i32` holds.
pub open spec fn rows_fit(n: nat) -> bool {
    n * 30 <= i32::MAX
}

/// The row of a menu at `bounds` that a tap at `pt` falls in, counted from
/// the top; none when the tap is outside the menu.
pub open spec fn row_at(bounds: Bounds, pt: Point) -> Option<int> {
    if bounds_hold(bounds, pt) {
        Some((pt.y - bounds.position.y) / 30)
    } else {
        None
    }
}

/// The rectangle of row `i` of a menu at `b`: inset by a pixel from the
/// left, right and top of the row, and as tall as a row; none where it
/// leaves `i32`.
pub open spec fn row_rect(b: Bounds, i: int) -> Option<Bounds> {
    let x = b.position.x + 1;
    let y = b.position.y + i * 30 + 1;
    let w = b.size.w - 2;
    if i <= 0x7fff_ffff && fits(x) && fits(y) && fits(w) {
        Some(Bounds { position: Point { x: x as i32, y: y as i32 }, size: Size { w: w as i32, h: 30 } })
    } else {
        None
    }
}

/// How row `i` is painted: filled and written in the text's tone, or the
/// other way round when it is the selected row; nothing where its
/// rectangle leaves `i32`.
pub open spec fn row_ops(items: Seq<String>, selected: nat, b: Bounds, i: int) -> Seq<PaintOp> {
    match row_rect(b, i) {
        None => Seq::empty(),
        Some(c) => if i == selected {
            seq![PaintOp::FillRect(c, Tone::StandardText), PaintOp::Text(c, items[i], Tone::StandardFill)]
        } else {
            seq![PaintOp::FillRect(c, Tone::StandardFill), PaintOp::Text(c, items[i], Tone::StandardText)]
        },
    }
}

/// The painting of the first `n` rows, top down.
pub open spec fn rows_ops(items: Seq<String>, selected: nat, b: Bounds, n: nat) -> Seq<PaintOp>
    decreases n,
{
    if n == 0 {
        Seq::empty()
    } else {
        rows_ops(items, selected, b, (n - 1) as nat) + row_ops(items, selected, b, n - 1)
    }
}

impl MenuView {
    #[verifier::type_invariant]
    spec fn column_fits(&self) -> bool {
        rows_fit(self.data@.len())
    }

    /// The items, in order.
    pub closed spec fn items(&self) -> Seq<String> {
        self.data@
    }

    /// The index of the selected item.
    pub closed spec fn chosen(&self) -> nat {
        self.selected as nat
    }

    /// A menu of `data` with its first item selected.
    pub fn new(data: Vec<String>) -> (r: MenuView)
        requires
            rows_fit(data@.len()),
        ensures
            r.items() == data@,
            r.chosen() == 0,
    {
        MenuView { data, selected: 0 }
    }

    /// The index of the selected item.
    pub fn selected(&self) -> (r: usize)
        ensures
            r == self.chosen(),
    {
        self.selected
    }

    /// The height of the column of all rows.
    pub fn height(&self) -> (r: i32)
        ensures
            r == self.items().len() * 30,
    {
        proof {
            use_type_invariant(self);
        }
        (self.data.len() as i32) * ROW_HEIGHT
    }

    /// The rectangle of row `i` of the menu at `b`: inset by a pixel from
    /// the left, right and top of the row, and as tall as a row. None where
    /// it leaves `i32`.
    fn row_bounds(b: Bounds, i: usize) -> (r: Option<Bounds>)
        ensures
            r == row_rect(b, i as int),
    {
        let x = b.position.x as i64 + 1;
        if i > 0x7fff_ffffusize {
            return None;
        }
        let y = b.position.y as i64 + (i as i64) * 30 + 1;
        let w = b.size.w as i64 - 2;
        if x > i32::MAX as i64 || y > i32::MAX as i64 || y < i32::MIN as i64 || w < i32::MIN as i64 {
            return None;
        }
        Some(Bounds::new(x as i32, y as i32, w as i32, ROW_HEIGHT))
    }
}

impl CustomView for MenuView {
    /// As wide as it is, as tall as its rows.
    closed spec fn size_in(&self, title: Seq<char>, current: Size, space: Size, theme: LayoutTheme) -> Size {
        Size { w: current.w, h: (self.data@.len() * 30) as i32 }
    }

    fn layout(&self, title: &str, current: Size, space: Size, theme: &LayoutTheme) -> (r: Size) {
        Size::new(current.w, self.height())
    }

    /// A tap on a row selects it: the menu takes the focus and answers
    /// `selected`. Anything else changes nothing.
    fn input(&mut self, title: &mut String, bounds: Bounds, ev: &InputEvent) -> (r: (Option<String>, bool))
        ensures
            ({
                let row = match *ev {
                    InputEvent::Tap(pt) => row_at(bounds, pt),
                    _ => None,
                };
                match row {
                    Some(k) if k < old(self).items().len() => {
                        &&& final(self).items() == old(self).items()
                        &&& final(self).chosen() == k
                        &&& r.0 matches Some(c) && c@ == "selected"@
                        &&& r.1
                    },
                    _ => {
                        &&& *final(self) == *old(self)
                        &&& r == (None::<String>, false)
                    },
                }
            }),
            *final(title) == *old(title),
    {
        proof {
            use_type_invariant(&*self);
        }
        match ev {
            InputEvent::Tap(pt) => {
                if bounds.contains(pt) {
                    let k = (pt.y - bounds.position.y) / ROW_HEIGHT;
                    if (k as usize) < self.data.len() {
                        self.selected = k as usize;
                        return (Some(String::from_str("selected")), true);
                    }
                }
                (None, false)
            },
            _ => (None, false),
        }
    }

    /// The menu's background, then each row, the selected one inverted,
    /// then the frame. A row whose rectangle leaves `i32` is left out.
    fn paint(&self, bounds: Bounds, focused: bool) -> (r: Vec<PaintOp>)
        ensures
            r@ == seq![PaintOp::FillRect(bounds, Tone::StandardFill)] + rows_ops(
                self.items(),
                self.chosen(),
                bounds,
                self.items().len(),
            ) + seq![PaintOp::StrokeRect(bounds, Tone::StandardText)],
    {
        let mut ops: Vec<PaintOp> = Vec::new();
        ops.push(PaintOp::FillRect(bounds, Tone::StandardFill));
        let mut i: usize = 0;
        while i < self.data.len()
            invariant
                i <= self.data@.len(),
                ops@ == seq![PaintOp::FillRect(bounds, Tone::StandardFill)] + rows_ops(
                    self.data@,
                    self.selected as nat,
                    bounds,
                    i as nat,
                ),
            decreases self.data.len() - i,
        {
            let ghost before = ops@;
            if let Some(b) = MenuView::row_bounds(bounds, i) {
                let text = self.data[i].clone();
                if i == self.selected {
                    ops.push(PaintOp::FillRect(b, Tone::StandardText));
                    ops.push(PaintOp::Text(b, text, Tone::StandardFill));
                } else {
                    ops.push(PaintOp::FillRect(b, Tone::StandardFill));
                    ops.push(PaintOp::Text(b, text, Tone::StandardText));
                }
            }
            assert(ops@ =~= before + row_ops(self.data@, self.selected as nat, bounds, i as int));
            i += 1;
        }
        ops.push(PaintOp::StrokeRect(bounds, Tone::StandardText));
        ops
    }

    /// The selected item.
    fn describe(&self) -> (r: String)
        ensures
            r@ == if self.chosen() < self.items().len() {
                self.items()[self.chosen() as int]@
            } else {
                Seq::<char>::empty()
            },
    {
        if self.selected < self.data.len() {
            self.data[self.selected].clone()
        } else {
            String::new()
        }
    }
}

/// A menu view named `name` with the items `data`, the first selected: 100
/// wide at the origin and as tall as its rows, drawn, laid out and tapped
/// through its own behaviour.
pub fn make_menuview(name: &'static str, data: Vec<String>) -> (r: View)
    requires
        rows_fit(data@.len()),
    ensures
        r.name@ == name@,
        r.title@ == name@,
        r.bounds == (Bounds { position: Point { x: 0, y: 0 }, size: Size { w: 100, h: (data@.len() * 30) as i32 } }),
        r.visible,
        r.state matches Some(ViewState::Custom(_)),
        r.input == Some(InputKind::Custom),
        r.layout == Some(LayoutKind::Custom),
        r.draw == Some(DrawKind::Custom),
{
    let menu = MenuView::new(data);
    let h = menu.height();
    let mut v = View::new_default();
    v.name = ViewId::new(name);
    v.title = String::from_str(name);
    v.bounds = Bounds::new(0, 0, 100, h);
    v.state = Some(ViewState::Custom(Box::new(menu)));
    v.input = Some(InputKind::Custom);
    v.layout = Some(LayoutKind::Custom);
    v.draw = Some(DrawKind::Custom);
    v
}

/// Moving a menu and a tap down by the same amount leaves the tapped row
/// the same: the row is counted from the menu's top edge.
pub proof fn law_row_moves_with_the_menu(b: Bounds, pt: Point, d: int)
    requires
        fits(b.position.y + d),
        fits(pt.y + d),
    ensures
        row_at(
            Bounds { position: Point { x: b.position.x, y: (b.position.y + d) as i32 }, size: b.size },
            Point { x: pt.x, y: (pt.y + d) as i32 },
        ) == row_at(b, pt),
{
}

/// A tap inside a menu falls in the row that spans it: row `k` covers the
/// `30` pixels that start `30 * k` below the menu's top edge.
pub proof fn law_tap_falls_in_its_row(b: Bounds, pt: Point)
    requires
        bounds_hold(b, pt),
    ensures
        row_at(b, pt) matches Some(k) && k >= 0 && b.position.y + 30 * k <= pt.y < b.position.y + 30 * k + 30,
{
    let dy = pt.y - b.position.y;
    let k = dy / 30;
    assert(30 * k <= dy < 30 * k + 30 && k >= 0) by (nonlinear_arith)
        requires
            dy >= 0,
            k == dy / 30,
    ;
}

} // verus!
