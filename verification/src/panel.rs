//! Plain panels: a filled rectangle with an optional border.
use vstd::prelude::*;
use vstd::view::View as _;
use crate::geom::{Insets, Point, Size, Bounds};
use crate::view::{DrawKind, View, ViewId, ViewState};

verus! {

/// The spacing rules of a panel: the gap between children, the padding
/// inside the border, and whether the border is drawn.
#[derive(Debug, Copy, Clone, PartialEq, Eq, Structural)]
pub struct PanelState {
    pub gap: i32,
    pub border_visible: bool,
    pub padding: Insets,
}

impl PanelState {
    /// No gap, no padding, border visible.
    pub fn new() -> (r: PanelState)
        ensures
            r == (PanelState {
                gap: 0,
                border_visible: true,
                padding: Insets { left: 0, right: 0, top: 0, bottom: 0 },
            }),
    {
        PanelState { gap: 0, border_visible: true, padding: Insets::new_same(0) }
    }
}

/// The text `title`.
pub open spec fn title_text() -> Seq<char> {
    seq!['t', 'i', 't', 'l', 'e']
}

/// A default view with the given name, titled `title`, drawn as a panel,
/// carrying a fresh `PanelState`.
pub fn make_panel(name: &ViewId) -> (r: View)
    ensures
        r.name@ == name@,
        r.title@ == title_text(),
        r.bounds == (Bounds { position: Point { x: 0, y: 0 }, size: Size { w: 100, h: 100 } }),
        r.visible,
        r.h_flex == crate::view::Flex::Intrinsic,
        r.v_flex == crate::view::Flex::Intrinsic,
        r.h_align == crate::view::Align::Center,
        r.v_align == crate::view::Align::Center,
        r.state == Some(ViewState::Panel(PanelState {
            gap: 0,
            border_visible: true,
            padding: Insets { left: 0, right: 0, top: 0, bottom: 0 },
        })),
        r.draw == Some(DrawKind::Panel),
        r.input is None,
        r.layout is None,
{
    let mut v = View::new_default();
    v.name = name.clone();
    v.title = String::from_str("title");
    proof {
        reveal_strlit("title");
    }
    v.state = Some(ViewState::Panel(PanelState::new()));
    v.draw = Some(DrawKind::Panel);
    v
}

} // verus!
