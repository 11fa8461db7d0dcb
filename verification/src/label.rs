//! Text labels.
use vstd::prelude::*;
use vstd::view::View as _;
use crate::geom::{Bounds, Point, Size};
use crate::view::{Align, DrawKind, Flex, LayoutKind, View, ViewId};

verus! {

/// A label showing `title`, sized to its text.
pub fn make_label(name: &'static str, title: &str) -> (r: View)
    ensures
        r.name@ == name@,
        r.title@ == title@,
        r.bounds == (Bounds { position: Point { x: 0, y: 0 }, size: Size { w: 100, h: 100 } }),
        r.visible,
        r.h_flex == Flex::Intrinsic,
        r.v_flex == Flex::Intrinsic,
        r.h_align == Align::Center,
        r.v_align == Align::Center,
        r.state is None,
        r.input is None,
        r.layout == Some(LayoutKind::Label),
        r.draw == Some(DrawKind::Label),
{
    let mut v = View::new_default();
    v.name = ViewId::new(name);
    v.title = String::from_str(title);
    v.h_flex = Flex::Intrinsic;
    v.v_flex = Flex::Intrinsic;
    v.layout = Some(LayoutKind::Label);
    v.draw = Some(DrawKind::Label);
    v
}

} // verus!
