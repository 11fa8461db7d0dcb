//! A panel with a row of tabs that shows one content panel at a time.
use vstd::prelude::*;
use vstd::view::View as _;
use crate::geom::{Bounds, Point, Size};
use crate::layouts::tabs_id;
use crate::scene::{add_view_model, with_child, Scene, SceneModel};
use crate::tables::{panel_entries, PanelTable};
use crate::text::{str_texts, texts};
use crate::toggle_group::make_toggle_group;
use crate::view::{noname, Align, DrawKind, Flex, InputKind, LayoutKind, View, ViewId, ViewState};

verus! {

/// The tab names in order, and the content panel shown for each tab.
#[derive(Debug)]
pub struct LayoutPanelState {
    data: Vec<String>,
    contents: PanelTable,
}

impl LayoutPanelState {
    pub closed spec fn tab_names(&self) -> Seq<Seq<char>> {
        texts(self.data@)
    }

    pub closed spec fn panels(&self) -> Map<Seq<char>, Seq<char>> {
        panel_entries(self.contents).map_values(|v: ViewId| v@)
    }

    /// No tabs.
    pub fn new() -> (r: LayoutPanelState)
        ensures
            r.tab_names() == Seq::<Seq<char>>::empty(),
            r.panels() == Map::<Seq<char>, Seq<char>>::empty(),
    {
        let r = LayoutPanelState { data: Vec::new(), contents: PanelTable::new() };
        assert(texts(r.data@) =~= Seq::<Seq<char>>::empty());
        assert(r.panels() =~= Map::<Seq<char>, Seq<char>>::empty());
        r
    }

    /// Adds a tab named `tab_name` whose content is the view `content_id`.
    pub fn register_panel(&mut self, tab_name: &str, content_id: &ViewId)
        ensures
            final(self).tab_names() == old(self).tab_names().push(tab_name@),
            final(self).panels() == old(self).panels().insert(tab_name@, content_id@),
    {
        let ghost before = self.data@;
        self.data.push(String::from_str(tab_name));
        assert(texts(self.data@) =~= texts(before).push(tab_name@));
        self.contents.insert(String::from_str(tab_name), content_id.clone());
        assert(self.panels() =~= old(self).panels().insert(tab_name@, content_id@));
    }

    /// The content panel of the tab named `tab_name`, if it has one.
    pub fn panel_for(&self, tab_name: &String) -> (r: Option<ViewId>)
        ensures
            match r {
                Some(p) => self.panels().contains_key(tab_name@) && p@ == self.panels()[tab_name@],
                None => !self.panels().contains_key(tab_name@),
            },
    {
        match self.contents.get(tab_name) {
            Some(p) => Some(p.clone()),
            None => None,
        }
    }
}


/// The row of tabs of a tabbed panel: a toggle group named `tabs` over
/// `data` with `selected` chosen, whose input switches pages.
pub open spec fn is_tab_row(t: View, data: Seq<&str>, selected: usize) -> bool {
    &&& t.name@ == tabs_id()
    &&& t.title@ == tabs_id()
    &&& t.bounds == (Bounds { position: Point { x: 0, y: 0 }, size: Size { w: (data.len() * 60) as i32, h: 30 } })
    &&& t.visible
    &&& t.h_flex == Flex::Resize
    &&& t.v_flex == Flex::Intrinsic
    &&& t.h_align == Align::Center
    &&& t.v_align == Align::Center
    &&& (t.state matches Some(ViewState::SelectOneOf(s)) && texts(s.items@) == str_texts(data) && s.selected == selected)
    &&& t.input == Some(InputKind::Tabs)
    &&& t.layout == Some(LayoutKind::ToggleGroup)
    &&& t.draw == Some(DrawKind::ToggleGroup)
}

/// A tabbed panel named `name`: adds its row of tabs over `data`, with
/// `selected` chosen, to `scene` as a child of `name`, and returns the
/// panel itself, `300x180` at `(10, 10)`, with no tabs registered yet.
pub fn make_tabbed_panel(name: &ViewId, data: Vec<&str>, selected: usize, scene: &mut Scene) -> (r: View)
    requires
        data@.len() * 60 <= usize::MAX,
    ensures
        exists|t: View|
            #![trigger is_tab_row(t, data@, selected)]
            is_tab_row(t, data@, selected) && final(scene)@ == add_view_model(
                SceneModel { kids: with_child(old(scene)@.kids, name@, tabs_id()), ..old(scene)@ },
                t,
            ),
        r.name@ == name@,
        r.title@ == noname(),
        r.bounds == (Bounds { position: Point { x: 10, y: 10 }, size: Size { w: 300, h: 180 } }),
        r.visible,
        r.h_flex == Flex::Intrinsic,
        r.v_flex == Flex::Intrinsic,
        r.h_align == Align::Center,
        r.v_align == Align::Center,
        r.input is None,
        r.state matches Some(ViewState::Tabs(s)) && s.tab_names() == Seq::<Seq<char>>::empty() && s.panels()
            == Map::<Seq<char>, Seq<char>>::empty(),
        r.layout == Some(LayoutKind::TabbedPanel),
        r.draw == Some(DrawKind::TabbedPanel),
{
    let ghost d = data@;
    let tabs_name = ViewId::new("tabs");
    proof {
        reveal_strlit("tabs");
    }
    let mut tabs = make_toggle_group(&tabs_name, data, selected);
    tabs.input = Some(InputKind::Tabs);
    assert(tabs.name@ == tabs_id());
    assert(is_tab_row(tabs, d, selected));
    scene.add_view_to_parent(tabs, name);
    let mut v = View::new_default();
    v.name = name.clone();
    v.bounds = Bounds::new(10, 10, 320 - 20, 180);
    v.state = Some(ViewState::Tabs(LayoutPanelState::new()));
    v.layout = Some(LayoutKind::TabbedPanel);
    v.draw = Some(DrawKind::TabbedPanel);
    v
}
} // verus!
