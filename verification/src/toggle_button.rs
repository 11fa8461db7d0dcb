//! A button that stays pressed until it is pressed again.
use vstd::prelude::*;
use vstd::view::View as _;
use crate::geom::{Bounds, Point, Size};
use crate::view::{DrawKind, InputKind, View, ViewId, ViewState};

verus! {

#[derive(Debug, Copy, Clone, PartialEq, Eq, Structural)]
pub struct SelectedState {
    pub selected: bool,
}

impl SelectedState {
    /// Not selected.
    pub fn new() -> (r: SelectedState)
        ensures
            r == (SelectedState { selected: false }),
    {
        SelectedState { selected: false }
    }
}

/// A toggle button `80x30` at the origin, not selected.
pub fn make_toggle_button(name: &str, title: &str) -> (r: View)
    ensures
        r.name@ == name@,
        r.title@ == title@,
        r.bounds == (Bounds { position: Point { x: 0, y: 0 }, size: Size { w: 80, h: 30 } }),
        r.visible,
        r.h_flex == crate::view::Flex::Intrinsic,
        r.v_flex == crate::view::Flex::Intrinsic,
        r.h_align == crate::view::Align::Center,
        r.v_align == crate::view::Align::Center,
        r.state == Some(ViewState::Selected(SelectedState { selected: false })),
        r.input == Some(InputKind::ToggleButton),
        r.layout is None,
        r.draw == Some(DrawKind::ToggleButton),
{
    let mut v = View::new_default();
    v.name = ViewId::make(String::from_str(name));
    v.title = String::from_str(title);
    v.bounds = Bounds::new(0, 0, 80, 30);
    v.state = Some(ViewState::Selected(SelectedState::new()));
    v.draw = Some(DrawKind::ToggleButton);
    v.input = Some(InputKind::ToggleButton);
    v
}

} // verus!
