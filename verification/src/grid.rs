//! A grid of fixed-size cells in which children are placed by row and column.
use vstd::prelude::*;
use vstd::view::View as _;
use crate::geom::{fits, Bounds, Point, Size};
use crate::input::ArithmeticFault;
use crate::tables::{constraint_entries, ConstraintTable};
use crate::view::{Align, DrawKind, Flex, LayoutKind, View, ViewId, ViewState};

verus! {

/// Where a child sits in a grid: its first cell and how many cells it spans.
#[derive(Debug, Copy, Clone, PartialEq, Eq, Structural)]
pub struct LayoutConstraint {
    pub col: usize,
    pub row: usize,
    pub col_span: usize,
    pub row_span: usize,
}

impl LayoutConstraint {
    /// The single cell at `row`, `col`.
    pub fn at_row_column(row: usize, col: usize) -> (r: LayoutConstraint)
        ensures
            r == (LayoutConstraint { col, row, col_span: 1, row_span: 1 }),
    {
        LayoutConstraint { col, row, col_span: 1, row_span: 1 }
    }
}

/// The cell sizes of a grid and the constraint of each placed child.
#[derive(Debug)]
pub struct GridLayoutState {
    pub constraints: ConstraintTable,
    pub row_count: usize,
    pub col_count: usize,
    pub col_width: usize,
    pub row_height: usize,
    pub debug: bool,
}

impl GridLayoutState {
    /// An empty grid of `row_count` rows of `row_height` and `col_count`
    /// columns of `col_width`.
    pub fn new_row_column(row_count: usize, row_height: usize, col_count: usize, col_width: usize) -> (r: GridLayoutState)
        ensures
            constraint_entries(r.constraints) == Map::<Seq<char>, LayoutConstraint>::empty(),
            r.row_count == row_count,
            r.col_count == col_count,
            r.col_width == col_width,
            r.row_height == row_height,
            !r.debug,
    {
        GridLayoutState {
            constraints: ConstraintTable::new(),
            col_count,
            row_count,
            col_width,
            row_height,
            debug: false,
        }
    }

    /// Places the view named `name` in the single cell at `row`, `col`, and
    /// hands back its previous constraint.
    pub fn place_at_row_column(&mut self, name: &ViewId, row: usize, col: usize) -> (r: Option<LayoutConstraint>)
        ensures
            constraint_entries(final(self).constraints) == constraint_entries(old(self).constraints).insert(
                name@,
                LayoutConstraint { col, row, col_span: 1, row_span: 1 },
            ),
            r == if constraint_entries(old(self).constraints).contains_key(name@) {
                Some(constraint_entries(old(self).constraints)[name@])
            } else {
                None
            },
            final(self).row_count == old(self).row_count,
            final(self).col_count == old(self).col_count,
            final(self).col_width == old(self).col_width,
            final(self).row_height == old(self).row_height,
            final(self).debug == old(self).debug,
    {
        self.constraints.insert(name.clone(), LayoutConstraint::at_row_column(row, col))
    }
}

/// A visible grid panel of two rows of `30` and two columns of `100`.
pub fn make_grid_panel(name: &ViewId) -> (r: View)
    ensures
        r.name@ == name@,
        r.title@ == name@,
        r.bounds == (Bounds { position: Point { x: 0, y: 0 }, size: Size { w: 100, h: 100 } }),
        r.visible,
        r.h_flex == Flex::Intrinsic,
        r.v_flex == Flex::Intrinsic,
        r.h_align == Align::Center,
        r.v_align == Align::Center,
        r.state matches Some(ViewState::Grid(g)) && constraint_entries(g.constraints) == Map::<
            Seq<char>,
            LayoutConstraint,
        >::empty() && g.row_count == 2 && g.col_count == 2 && g.col_width == 100 && g.row_height == 30
            && !g.debug,
        r.input is None,
        r.layout == Some(LayoutKind::Grid),
        r.draw == Some(DrawKind::Grid),
{
    let mut v = View::new_default();
    v.name = name.clone();
    v.title = String::from_str(name.as_str());
    v.state = Some(ViewState::Grid(GridLayoutState::new_row_column(2, 30, 2, 100)));
    v.layout = Some(LayoutKind::Grid);
    v.draw = Some(DrawKind::Grid);
    v
}


/// The `i`-th guide line of a grid drawn in `b` with cells `step` apart:
/// down the column edge `i` (`vertical`) from the top of `b` to its bottom
/// edge, or along the row edge `i` from the left of `b` to its right edge.
/// None where the arithmetic overflows.
pub open spec fn guide_line(b: Bounds, step: usize, i: int, vertical: bool) -> Option<(Point, Point)> {
    if i * step > usize::MAX {
        None
    } else {
        let d = ((i * step) as usize) as i32;
        if vertical {
            if !fits(d + b.position.x) || !fits(b.position.y + b.size.h) {
                None
            } else {
                let x = (d + b.position.x) as i32;
                Some((Point { x, y: b.position.y }, Point { x, y: (b.position.y + b.size.h) as i32 }))
            }
        } else {
            if !fits(d + b.position.y) || !fits(b.position.x + b.size.w) {
                None
            } else {
                let y = (d + b.position.y) as i32;
                Some((Point { x: b.position.x, y }, Point { x: (b.position.x + b.size.w) as i32, y }))
            }
        }
    }
}

/// The guide lines that a grid in debug mode draws in `b`: one down each of
/// its `col_count + 1` column edges, then one along each of its
/// `row_count + 1` row edges (see `guide_line`). The error where a count or
/// a line overflows.
pub fn guide_lines(b: Bounds, gs: &GridLayoutState) -> (r: Result<Vec<(Point, Point)>, ArithmeticFault>)
    ensures
        match r {
            Ok(v) => gs.col_count < usize::MAX && gs.row_count < usize::MAX && v@.len() == gs.col_count + 1
                + gs.row_count + 1 && (forall|i: int|
                0 <= i <= gs.col_count ==> guide_line(b, gs.col_width, i, true) == Some(#[trigger] v@[i])) && (
            forall|j: int|
                0 <= j <= gs.row_count ==> guide_line(b, gs.row_height, j, false) == Some(
                    #[trigger] v@[gs.col_count + 1 + j],
                )),
            Err(_) => gs.col_count == usize::MAX || gs.row_count == usize::MAX || (exists|i: int|
                0 <= i <= gs.col_count && #[trigger] guide_line(b, gs.col_width, i, true) is None) || (exists|j: int|
                0 <= j <= gs.row_count && #[trigger] guide_line(b, gs.row_height, j, false) is None),
        },
{
    if gs.col_count == usize::MAX || gs.row_count == usize::MAX {
        return Err(ArithmeticFault);
    }
    let mut v: Vec<(Point, Point)> = Vec::new();
    let mut i: usize = 0;
    while i < gs.col_count + 1
        invariant
            gs.col_count < usize::MAX,
            gs.row_count < usize::MAX,
            i <= gs.col_count + 1,
            v@.len() == i,
            forall|k: int| 0 <= k < i ==> guide_line(b, gs.col_width, k, true) == Some(#[trigger] v@[k]),
        decreases gs.col_count + 1 - i,
    {
        let line = match i.checked_mul(gs.col_width) {
            None => None,
            Some(d) => match ((d as i32).checked_add(b.position.x), b.position.y.checked_add(b.size.h)) {
                (Some(x), Some(y2)) => Some((Point { x, y: b.position.y }, Point { x, y: y2 })),
                _ => None,
            },
        };
        match line {
            Some(l) => {
                v.push(l);
            },
            None => {
                assert(guide_line(b, gs.col_width, i as int, true) is None);
                return Err(ArithmeticFault);
            },
        }
        i += 1;
    }
    let mut j: usize = 0;
    while j < gs.row_count + 1
        invariant
            gs.col_count < usize::MAX,
            gs.row_count < usize::MAX,
            j <= gs.row_count + 1,
            v@.len() == gs.col_count + 1 + j,
            forall|k: int| 0 <= k <= gs.col_count ==> guide_line(b, gs.col_width, k, true) == Some(#[trigger] v@[k]),
            forall|k: int|
                0 <= k < j ==> guide_line(b, gs.row_height, k, false) == Some(#[trigger] v@[gs.col_count + 1 + k]),
        decreases gs.row_count + 1 - j,
    {
        let line = match j.checked_mul(gs.row_height) {
            None => None,
            Some(d) => match ((d as i32).checked_add(b.position.y), b.position.x.checked_add(b.size.w)) {
                (Some(y), Some(x2)) => Some((Point { x: b.position.x, y }, Point { x: x2, y })),
                _ => None,
            },
        };
        match line {
            Some(l) => {
                v.push(l);
            },
            None => {
                assert(guide_line(b, gs.row_height, j as int, false) is None);
                return Err(ArithmeticFault);
            },
        }
        j += 1;
    }
    Ok(v)
}
} // verus!
