//! A row of mutually exclusive choices.
use vstd::prelude::*;
use vstd::view::View as _;
use crate::geom::{fits, Bounds, Point, Size};
use crate::input::ArithmeticFault;
use crate::layouts::{flex_share, share_of};
use crate::text::{str_texts, strings_of, texts};
use crate::view::{Align, DrawKind, Flex, InputKind, LayoutKind, View, ViewId, ViewState};

verus! {

/// The items of a choice and the index of the chosen one.
#[derive(Debug)]
pub struct SelectOneOfState {
    pub items: Vec<String>,
    pub selected: usize,
}

impl SelectOneOfState {
    /// A choice among `items` with `selected` chosen, as view state.
    pub fn new_with(items: Vec<&str>, selected: usize) -> (r: ViewState)
        ensures
            r matches ViewState::SelectOneOf(s) && texts(s.items@) == str_texts(items@) && s.selected == selected,
    {
        ViewState::SelectOneOf(SelectOneOfState { items: strings_of(&items), selected })
    }
}

/// A toggle group named `name` choosing among `data`, `60` wide per item and
/// `30` tall, that fills the width offered to it.
pub fn make_toggle_group(name: &ViewId, data: Vec<&str>, selected: usize) -> (r: View)
    requires
        data@.len() * 60 <= usize::MAX,
    ensures
        r.name@ == name@,
        r.title@ == name@,
        r.bounds == (Bounds { position: Point { x: 0, y: 0 }, size: Size { w: (data@.len() * 60) as i32, h: 30 } }),
        r.visible,
        r.h_flex == Flex::Resize,
        r.v_flex == Flex::Intrinsic,
        r.h_align == Align::Center,
        r.v_align == Align::Center,
        r.state matches Some(ViewState::SelectOneOf(s)) && texts(s.items@) == str_texts(data@) && s.selected == selected,
        r.input == Some(InputKind::ToggleGroup),
        r.layout == Some(LayoutKind::ToggleGroup),
        r.draw == Some(DrawKind::ToggleGroup),
{
    let n = data.len();
    let mut v = View::new_default();
    v.name = name.clone();
    v.title = String::from_str(name.as_str());
    v.bounds = Bounds::new(0, 0, (n * 60) as i32, 30);
    v.state = Some(SelectOneOfState::new_with(data, selected));
    v.input = Some(InputKind::ToggleGroup);
    v.layout = Some(LayoutKind::ToggleGroup);
    v.draw = Some(DrawKind::ToggleGroup);
    v.h_flex = Flex::Resize;
    v.v_flex = Flex::Intrinsic;
    v
}


/// Cell `i` of a row of choices drawn in `b`, each cell `cw` wide: it starts
/// one pixel right of its left edge, `i` cells from the left of `b`, and is
/// one pixel narrower than `cw`. From the second cell on, a divider runs
/// down that left edge from the top of `b` to its last row; the divider is
/// given by its `x` and its last `y`. None where the `i32` arithmetic
/// overflows.
pub open spec fn segment(b: Bounds, cw: i32, i: usize) -> Option<(Bounds, Option<(i32, i32)>)> {
    let step = (i as i32) * cw;
    let edge = b.position.x + step;
    if !fits(step) || !fits(edge) || !fits(edge + 1) || !fits(cw - 1) {
        None
    } else {
        let cell = Bounds {
            position: Point { x: (edge + 1) as i32, y: b.position.y },
            size: Size { w: (cw - 1) as i32, h: b.size.h },
        };
        if i == 0 {
            Some((cell, None))
        } else if !fits(b.position.y + b.size.h) || !fits(b.position.y + b.size.h - 1) {
            None
        } else {
            Some((cell, Some((edge as i32, (b.position.y + b.size.h - 1) as i32))))
        }
    }
}

/// How each of `n` choice cells is marked when drawn: the pair says whether
/// the cell is the chosen one, which is filled, and whether it gets the
/// focus ring, which only the chosen cell of a focused row does.
pub fn choice_marks(n: usize, selected: usize, focused: bool) -> (r: Vec<(bool, bool)>)
    ensures
        r@.len() == n,
        forall|i: int| 0 <= i < n ==> #[trigger] r@[i] == (i == selected, i == selected && focused),
{
    let mut r: Vec<(bool, bool)> = Vec::new();
    let mut i: usize = 0;
    while i < n
        invariant
            i <= n,
            r@.len() == i,
            forall|j: int| 0 <= j < i ==> #[trigger] r@[j] == (j == selected, j == selected && focused),
        decreases n - i,
    {
        let chosen = i == selected;
        r.push((chosen, chosen && focused));
        i += 1;
    }
    r
}

/// The cells, and the dividers between them, of a row of `n` choices drawn
/// in `b`: the width of `b` is shared equally among them (see `segment`).
/// The error where that share or a cell cannot be computed: when there are
/// no choices, or where the `i32` arithmetic overflows.
pub fn segments(b: Bounds, n: usize) -> (r: Result<Vec<(Bounds, Option<(i32, i32)>)>, ArithmeticFault>)
    ensures
        match r {
            Ok(v) => flex_share(b.size.w, n as nat) matches Some(cw) && v@.len() == n && (forall|i: usize|
                i < n ==> segment(b, cw, i) == Some(#[trigger] v@[i as int])),
            Err(_) => match flex_share(b.size.w, n as nat) {
                None => true,
                Some(cw) => exists|i: usize| i < n && #[trigger] segment(b, cw, i) is None,
            },
        },
{
    let cw = share_of(b.size.w, n)?;
    let mut v: Vec<(Bounds, Option<(i32, i32)>)> = Vec::new();
    let mut i: usize = 0;
    while i < n
        invariant
            i <= n,
            flex_share(b.size.w, n as nat) == Some(cw),
            v@.len() == i,
            forall|j: usize| j < i ==> segment(b, cw, j) == Some(#[trigger] v@[j as int]),
        decreases n - i,
    {
        let ii = i as i32;
        let step = match ii.checked_mul(cw) {
            Some(s) => s,
            None => {
                assert(segment(b, cw, i) is None);
                return Err(ArithmeticFault);
            },
        };
        let cell = match b.position.x.checked_add(step) {
            Some(edge) => match (edge.checked_add(1), cw.checked_sub(1)) {
                (Some(x), Some(w)) => Some((edge, Bounds { position: Point { x, y: b.position.y }, size: Size { w, h: b.size.h } })),
                _ => None,
            },
            None => None,
        };
        let (edge, cell) = match cell {
            Some(c) => c,
            None => {
                assert(segment(b, cw, i) is None);
                return Err(ArithmeticFault);
            },
        };
        if i == 0 {
            v.push((cell, None));
        } else {
            let bottom = match b.position.y.checked_add(b.size.h) {
                Some(yh) => yh.checked_sub(1),
                None => None,
            };
            match bottom {
                Some(y2) => {
                    v.push((cell, Some((edge, y2))));
                },
                None => {
                    assert(segment(b, cw, i) is None);
                    return Err(ArithmeticFault);
                },
            }
        }
        assert(segment(b, cw, i) == Some(v@[i as int]));
        i += 1;
    }
    Ok(v)
}
} // verus!
