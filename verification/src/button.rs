//! Push buttons.
use vstd::prelude::*;
use vstd::view::View as _;
use crate::geom::{Bounds, Point, Size};
use crate::view::{Align, DrawKind, Flex, InputKind, LayoutKind, View, ViewId, ViewState};

verus! {

/// The command that a button emits, and whether it is the primary button.
#[derive(Debug)]
pub struct ButtonState {
    command: String,
    primary: bool,
}

impl ButtonState {
    pub closed spec fn command_text(&self) -> Seq<char> {
        self.command@
    }

    pub closed spec fn is_primary(&self) -> bool {
        self.primary
    }

    pub fn new(command: String, primary: bool) -> (r: ButtonState)
        ensures
            r.command_text() == command@,
            r.is_primary() == primary,
    {
        ButtonState { command, primary }
    }

    /// A copy of the command that the button emits.
    pub fn command(&self) -> (r: String)
        ensures
            r@ == self.command_text(),
    {
        self.command.clone()
    }

    pub fn primary(&self) -> (r: bool)
        ensures
            r == self.is_primary(),
    {
        self.primary
    }
}

/// A button whose command is its title.
pub fn make_button(name: &ViewId, title: &str) -> (r: View)
    ensures
        r.name@ == name@,
        r.title@ == title@,
        r.bounds == (Bounds { position: Point { x: 0, y: 0 }, size: Size { w: 100, h: 100 } }),
        r.visible,
        r.h_flex == Flex::Intrinsic,
        r.v_flex == Flex::Intrinsic,
        r.h_align == Align::Center,
        r.v_align == Align::Center,
        r.state matches Some(ViewState::Button(s)) && s.command_text() == title@ && !s.is_primary(),
        r.input == Some(InputKind::Button),
        r.layout == Some(LayoutKind::Button),
        r.draw == Some(DrawKind::Button),
{
    make_full_button(name, title, String::from_str(title), false)
}

/// A button that emits `command` when tapped; a primary button is drawn
/// accented.
pub fn make_full_button(name: &ViewId, title: &str, command: String, primary: bool) -> (r: View)
    ensures
        r.name@ == name@,
        r.title@ == title@,
        r.bounds == (Bounds { position: Point { x: 0, y: 0 }, size: Size { w: 100, h: 100 } }),
        r.visible,
        r.h_flex == Flex::Intrinsic,
        r.v_flex == Flex::Intrinsic,
        r.h_align == Align::Center,
        r.v_align == Align::Center,
        r.state matches Some(ViewState::Button(s)) && s.command_text() == command@ && s.is_primary() == primary,
        r.input == Some(InputKind::Button),
        r.layout == Some(LayoutKind::Button),
        r.draw == Some(DrawKind::Button),
{
    let mut v = View::new_default();
    v.name = name.clone();
    v.title = String::from_str(title);
    v.h_flex = Flex::Intrinsic;
    v.v_flex = Flex::Intrinsic;
    v.state = Some(ViewState::Button(ButtonState::new(command, primary)));
    v.input = Some(InputKind::Button);
    v.layout = Some(LayoutKind::Button);
    v.draw = Some(DrawKind::Button);
    v
}

} // verus!
