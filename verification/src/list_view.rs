//! A horizontal list from which one item is picked.
use vstd::prelude::*;
use vstd::view::View as _;
use crate::geom::{Bounds, Point, Size};
use crate::text::{str_texts, strings_of, texts};
use crate::view::{Align, DrawKind, Flex, InputKind, LayoutKind, View, ViewId, ViewState};

verus! {

/// The items of a list and the index of the picked one.
#[derive(Debug)]
pub struct SelectOneOf {
    pub items: Vec<String>,
    pub selected: usize,
}

impl SelectOneOf {
    /// A list of `items` with `selected` picked, as view state.
    pub fn new_with(items: Vec<&str>, selected: usize) -> (r: ViewState)
        ensures
            r matches ViewState::List(s) && texts(s.items@) == str_texts(items@) && s.selected == selected,
    {
        ViewState::List(SelectOneOf { items: strings_of(&items), selected })
    }
}

/// A list view named `name` of `data`, `60` wide per item and `30` tall.
pub fn make_list_view(name: &str, data: Vec<&str>, selected: usize) -> (r: View)
    requires
        data@.len() * 60 <= usize::MAX,
    ensures
        r.name@ == name@,
        r.title@ == name@,
        r.bounds == (Bounds { position: Point { x: 0, y: 0 }, size: Size { w: (data@.len() * 60) as i32, h: 30 } }),
        r.visible,
        r.h_flex == Flex::Intrinsic,
        r.v_flex == Flex::Intrinsic,
        r.h_align == Align::Center,
        r.v_align == Align::Center,
        r.state matches Some(ViewState::List(s)) && texts(s.items@) == str_texts(data@) && s.selected == selected,
        r.input == Some(InputKind::List),
        r.layout == Some(LayoutKind::List),
        r.draw == Some(DrawKind::List),
{
    let n = data.len();
    let mut v = View::new_default();
    v.name = ViewId::make(String::from_str(name));
    v.title = String::from_str(name);
    v.bounds = Bounds::new(0, 0, (n * 60) as i32, 30);
    v.state = Some(SelectOneOf::new_with(data, selected));
    v.input = Some(InputKind::List);
    v.layout = Some(LayoutKind::List);
    v.draw = Some(DrawKind::List);
    v
}

} // verus!
