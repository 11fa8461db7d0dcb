use iris_ui::button::make_button;
use iris_ui::draw::draw_scene;
use iris_ui::events::click_at;
use iris_ui::geom::{Bounds, Insets, Point, Size};
use iris_ui::grid::{make_grid_panel, GridLayoutState, LayoutConstraint};
use iris_ui::label::make_label;
use iris_ui::layouts::{layout_hbox, layout_scene, layout_std_panel, layout_tabbed_panel, layout_toggle_group, layout_vbox};
use iris_ui::list_view::make_list_view;
use iris_ui::panel::{make_panel, PanelState};
use iris_ui::scene::Scene;
use iris_ui::tabbed_panel::make_tabbed_panel;
use iris_ui::toggle_button::make_toggle_button;
use iris_ui::toggle_group::make_toggle_group;
use iris_ui::util::{FontMetrics, LayoutTheme};
use iris_ui::input::InputEvent;
use iris_ui::view::{Align, CustomView, Flex, LayoutKind, PaintOp, View, ViewId, ViewState};

/// Sizes a view to ten pixels a byte of its title, and ten pixels tall.
struct TitleSized;

impl CustomView for TitleSized {
    fn layout(&self, title: &str, _current: Size, _space: Size, _theme: &LayoutTheme) -> Size {
        Size::new((title.len() * 10) as i32, 10)
    }
    fn input(&mut self, _title: &mut String, _bounds: Bounds, _ev: &InputEvent) -> (Option<String>, bool) {
        (None, false)
    }
    fn paint(&self, _bounds: Bounds, _focused: bool) -> Vec<PaintOp> {
        vec![]
    }
    fn describe(&self) -> String {
        String::new()
    }
}

fn title_sized(name: &'static str, title: &str) -> View {
    let mut v = View::default();
    v.name = ViewId::new(name);
    v.title = title.to_string();
    v.layout = Some(LayoutKind::Custom);
    v.state = Some(ViewState::Custom(Box::new(TitleSized)));
    v
}

/// Keeps its own height and takes the whole width it is offered.
struct FullWidth;

impl CustomView for FullWidth {
    fn layout(&self, _title: &str, current: Size, space: Size, _theme: &LayoutTheme) -> Size {
        Size::new(space.w, current.h)
    }
    fn input(&mut self, _title: &mut String, _bounds: Bounds, _ev: &InputEvent) -> (Option<String>, bool) {
        (None, false)
    }
    fn paint(&self, _bounds: Bounds, _focused: bool) -> Vec<PaintOp> {
        vec![]
    }
    fn describe(&self) -> String {
        String::new()
    }
}

fn row_child(name: &'static str, w: i32, h: i32) -> View {
    let mut v = sized_child(name, name, w, h);
    v.layout = Some(LayoutKind::Custom);
    v.state = Some(ViewState::Custom(Box::new(FullWidth)));
    v
}

fn mock_theme() -> LayoutTheme {
    LayoutTheme { font: FontMetrics { width: 6, height: 10 }, bold_font: FontMetrics { width: 7, height: 13 } }
}

fn sized_child(name: &'static str, title: &str, w: i32, h: i32) -> View {
    let mut v = View::default();
    v.name = ViewId::new(name);
    v.title = title.to_string();
    v.bounds.size = Size::new(w, h);
    v
}

fn bounds_of(scene: &Scene, name: &'static str) -> Bounds {
    scene.get_view_bounds(&ViewId::new(name)).unwrap()
}

fn selected_in_group(scene: &Scene, name: &'static str) -> usize {
    match scene.get_view_state(&ViewId::new(name)) {
        Some(ViewState::SelectOneOf(s)) => s.selected,
        Some(ViewState::List(s)) => s.selected,
        _ => panic!("no choice state"),
    }
}

#[test]
fn test_vbox() {
    let mut scene = Scene::new();
    let parent_id = ViewId::new("parent");
    let mut parent_view = View::default();
    parent_view.name = parent_id.clone();
    parent_view.title = "parent".to_string();
    parent_view.state = Some(ViewState::Panel(PanelState { border_visible: true, padding: Insets::new_same(10), gap: 0 }));
    parent_view.bounds = Bounds { position: Point::new(-99, -99), size: Size::new(100, 100) };
    parent_view.h_flex = Flex::Resize;
    parent_view.v_flex = Flex::Resize;
    parent_view.h_align = Align::Start;
    parent_view.v_align = Align::Start;
    parent_view.layout = Some(LayoutKind::VBox);

    let mut child1 = title_sized("child1", "ch1");
    child1.h_align = Align::Start;
    scene.add_view_to_parent(child1, &parent_id);
    let mut child2 = title_sized("child2", "ch2");
    child2.h_align = Align::Center;
    scene.add_view_to_parent(child2, &parent_id);
    let mut child3 = title_sized("child3", "ch3");
    child3.h_align = Align::End;
    scene.add_view_to_parent(child3, &parent_id);
    let mut child4 = View::default();
    child4.name = ViewId::new("child4");
    child4.title = "ch4".to_string();
    child4.h_flex = Flex::Resize;
    child4.v_flex = Flex::Resize;
    child4.layout = Some(LayoutKind::StdPanel);
    scene.add_view_to_parent(child4, &parent_id);

    let root = scene.root_id();
    scene.add_view_to_parent(parent_view, &root);

    layout_scene(&mut scene, &mock_theme()).unwrap();
    let view = scene.get_view(&parent_id).unwrap();
    assert_eq!(view.name, parent_id);
    assert_eq!(view.bounds.position, Point::new(-99, -99));
    assert_eq!(view.bounds.size, Size::new(200, 200));
    let c1 = bounds_of(&scene, "child1");
    assert_eq!(c1.position, Point::new(10, 10));
    assert_eq!(c1.size, Size::new(30, 10));
    let c2 = bounds_of(&scene, "child2");
    assert_eq!(c2.position, Point::new(0 + (180 - 10) / 2, 20));
    assert_eq!(c2.size, Size::new(30, 10));
    let c3 = bounds_of(&scene, "child3");
    assert_eq!(c3.position, Point::new(10 + (180 - 30), 30));
    assert_eq!(c3.size, Size::new(30, 10));
    assert!(scene.has_view(&ViewId::new("child4")));
    let c4 = bounds_of(&scene, "child4");
    assert_eq!(c4.position, Point::new(50, 40));
    assert_eq!(c4.size, Size::new(100, 180 - 80));
}

#[test]
fn test_grid_layout() {
    let theme = mock_theme();
    let mut grid = make_grid_panel(&ViewId::new("grid"));
    grid.bounds = Bounds::new(40, 40, 200, 200);
    let mut grid_layout = GridLayoutState::new_row_column(2, 30, 2, 100);
    let mut scene = Scene::new_with_bounds(Bounds::new(0, 0, 320, 240));

    let mut label1 = make_label("label1", "Label 1");
    label1.h_align = Align::Start;
    label1.v_align = Align::Start;
    grid_layout.place_at_row_column(&label1.name, 0, 0);
    scene.add_view_to_parent(label1, &grid.name);

    let mut label2 = make_label("label2", "Label 2");
    label2.h_align = Align::Start;
    label2.v_align = Align::Start;
    grid_layout.place_at_row_column(&label2.name, 0, 1);
    scene.add_view_to_parent(label2, &grid.name);

    let mut label3 = make_label("label3", "Label 3");
    label3.h_align = Align::Start;
    label3.v_align = Align::Start;
    grid_layout.place_at_row_column(&label3.name, 1, 0);
    scene.add_view_to_parent(label3, &grid.name);

    grid.state = Some(ViewState::Grid(grid_layout));
    scene.add_view_to_root(grid);

    layout_scene(&mut scene, &theme).unwrap();

    let label1 = scene.get_view(&ViewId::new("label1")).unwrap();
    assert_eq!(label1.name, ViewId::new("label1"));
    assert_eq!(label1.bounds, Bounds::new(0, 0, 54, 20));
    let label2 = scene.get_view(&ViewId::new("label2")).unwrap();
    assert_eq!(label2.name, ViewId::new("label2"));
    assert_eq!(label2.bounds, Bounds::new(100, 0, 54, 20));
    let label3 = scene.get_view(&ViewId::new("label3")).unwrap();
    assert_eq!(label3.name, ViewId::new("label3"));
    assert_eq!(label3.bounds, Bounds::new(0, 30, 54, 20));

    assert_eq!(scene.dirty, true);
    draw_scene(&mut scene).unwrap();
    assert_eq!(scene.dirty, false);
}

#[test]
fn col_span() {
    let theme = mock_theme();
    let mut grid = make_grid_panel(&ViewId::new("grid")).position_at(0, 0).with_size(200, 200);
    let mut layout = GridLayoutState::new_row_column(2, 30, 2, 100);
    layout.debug = true;
    let mut scene = Scene::new_with_bounds(Bounds::new(0, 0, 320, 240));

    let button = make_button(&ViewId::new("b1"), "b1");
    layout.constraints.insert(button.name.clone(), LayoutConstraint { col: 0, row: 0, col_span: 2, row_span: 1 });

    grid.state = Some(ViewState::Grid(layout));
    scene.add_view_to_parent(button, &grid.name);
    scene.add_view_to_root(grid);
    layout_scene(&mut scene, &theme).unwrap();

    if let Some(view) = scene.get_view(&ViewId::new("b1")) {
        assert_eq!(view.bounds, Bounds::new(86, 2, 28, 25));
    }
}

#[test]
fn test_toggle_group() {
    let theme = mock_theme();
    let mut scene: Scene = Scene::new_with_bounds(Bounds::new(0, 0, 100, 240));
    let group = make_toggle_group(&ViewId::new("group"), vec!["A", "BB", "CCC"], 0);
    scene.add_view_to_root(group);
    layout_scene(&mut scene, &theme).unwrap();
    {
        let group = scene.get_view(&ViewId::new("group")).unwrap();
        assert_eq!(group.name.as_str(), "group");
        assert_eq!(group.bounds, Bounds::new(0, 0, 100, 13 + 7));
        match &group.state {
            Some(ViewState::SelectOneOf(state)) => {
                assert_eq!(state.items, vec!["A", "BB", "CCC"]);
                assert_eq!(state.selected, 0);
            },
            _ => panic!("no toggle group state"),
        }
    }
    click_at(&mut scene, Point::new(50, 10)).unwrap();
    match scene.get_view_state(&ViewId::new("group")) {
        Some(ViewState::SelectOneOf(state)) => {
            assert_eq!(state.items, vec!["A", "BB", "CCC"]);
            assert_eq!(state.selected, 1);
        },
        _ => panic!("no toggle group state"),
    }
    assert_eq!(scene.dirty, true);
    draw_scene(&mut scene).unwrap();
    assert_eq!(scene.dirty, false);
}

#[test]
fn test_list_view() {
    let theme = mock_theme();
    let mut scene: Scene = Scene::new_with_bounds(Bounds::new(0, 0, 320, 240));
    let list = make_list_view("listview", vec!["A", "BB", "CCC"], 0);
    scene.add_view_to_root(list);
    layout_scene(&mut scene, &theme).unwrap();
    assert_eq!(selected_in_group(&scene, "listview"), 0);
    click_at(&mut scene, Point::new(100, 10)).unwrap();
    assert_eq!(selected_in_group(&scene, "listview"), 1);
    assert_eq!(scene.dirty, true);
    draw_scene(&mut scene).unwrap();
    assert_eq!(scene.dirty, false);
}

#[test]
fn toggle_button_test_toggle_button() {
    let theme = mock_theme();
    let mut scene = Scene::new_with_bounds(Bounds::new(0, 0, 320, 240));
    let button = make_toggle_button("toggle", "Toggle");
    scene.add_view_to_root(button);
    layout_scene(&mut scene, &theme).unwrap();
    {
        let button = scene.get_view(&ViewId::new("toggle")).unwrap();
        assert_eq!(button.name, ViewId::new("toggle"));
        assert_eq!(button.bounds, Bounds::new(0, 0, 80, 30));
        match &button.state {
            Some(ViewState::Selected(s)) => assert_eq!(s.selected, false),
            _ => panic!("no toggle state"),
        }
    }
    click_at(&mut scene, Point::new(10, 10)).unwrap();
    match scene.get_view_state(&ViewId::new("toggle")) {
        Some(ViewState::Selected(s)) => assert_eq!(s.selected, true),
        _ => panic!("no toggle state"),
    }
    assert_eq!(scene.dirty, true);
    draw_scene(&mut scene).unwrap();
    assert_eq!(scene.dirty, false);
}

#[test]
fn toggling_twice_restores_the_button() {
    let mut scene = Scene::new();
    scene.add_view_to_root(make_toggle_button("t", "T"));
    click_at(&mut scene, Point::new(1, 1)).unwrap();
    click_at(&mut scene, Point::new(1, 1)).unwrap();
    match scene.get_view_state(&ViewId::new("t")) {
        Some(ViewState::Selected(s)) => assert_eq!(s.selected, false),
        _ => panic!("no toggle state"),
    }
}

#[test]
fn hbox_places_children_in_a_row() {
    let theme = mock_theme();
    let mut scene = Scene::new();
    let p = ViewId::new("row");
    let mut row = make_panel(&p);
    row.state = Some(ViewState::Panel(PanelState { border_visible: true, padding: Insets::new_same(5), gap: 2 }));
    row.layout = Some(LayoutKind::HBox);
    row.bounds = Bounds::new(0, 0, 100, 40);
    scene.add_view(row);
    let mut a = sized_child("a", "a", 10, 10);
    a.v_align = Align::Start;
    scene.add_view_to_parent(a, &p);
    let mut b = sized_child("b", "b", 20, 6);
    b.v_align = Align::End;
    scene.add_view_to_parent(b, &p);
    layout_hbox(&mut scene, &p, Size::new(200, 50), &theme).unwrap();
    assert_eq!(bounds_of(&scene, "a"), Bounds::new(5, 5, 10, 10));
    assert_eq!(bounds_of(&scene, "b"), Bounds::new(17, 9, 20, 6));
    assert_eq!(bounds_of(&scene, "row"), Bounds::new(0, 0, 39, 20));
}

#[test]
fn vbox_directly() {
    let theme = mock_theme();
    let mut scene = Scene::new();
    let p = ViewId::new("col");
    let mut col = make_panel(&p);
    col.layout = Some(LayoutKind::VBox);
    scene.add_view(col);
    scene.add_view_to_parent(sized_child("a", "a", 10, 10), &p);
    scene.add_view_to_parent(sized_child("b", "b", 30, 5), &p);
    layout_vbox(&mut scene, &p, Size::new(200, 50), &theme).unwrap();
    assert_eq!(bounds_of(&scene, "a"), Bounds::new(10, 0, 10, 10));
    assert_eq!(bounds_of(&scene, "b"), Bounds::new(0, 10, 30, 5));
    assert_eq!(bounds_of(&scene, "col"), Bounds::new(0, 0, 30, 100));
}

#[test]
fn std_panel_takes_the_space_along_resizable_axes() {
    let theme = mock_theme();
    let mut scene = Scene::new();
    let p = ViewId::new("p");
    let mut panel = make_panel(&p).with_flex(Flex::Resize, Flex::Intrinsic);
    panel.state = Some(ViewState::Panel(PanelState { border_visible: true, padding: Insets::new_same(4), gap: 0 }));
    scene.add_view(panel);
    let mut inner = make_panel(&ViewId::new("inner")).with_flex(Flex::Resize, Flex::Resize);
    inner.layout = Some(LayoutKind::StdPanel);
    scene.add_view_to_parent(inner, &p);
    layout_std_panel(&mut scene, &p, Size::new(150, 60), &theme).unwrap();
    assert_eq!(bounds_of(&scene, "p").size, Size::new(150, 100));
    assert_eq!(bounds_of(&scene, "inner").size, Size::new(142, 92));
}

#[test]
fn toggle_group_keeps_fifty_when_intrinsic() {
    let theme = mock_theme();
    let mut scene = Scene::new();
    let g = ViewId::new("g");
    let group = make_toggle_group(&g, vec!["a", "b"], 1).with_flex(Flex::Intrinsic, Flex::Resize);
    scene.add_view(group);
    layout_toggle_group(&mut scene, &g, Size::new(300, 77), &theme).unwrap();
    assert_eq!(bounds_of(&scene, "g").size, Size::new(50, 77));
}

#[test]
fn tabbed_panel_lays_out_tabs_then_pages() {
    let theme = mock_theme();
    let mut scene = Scene::new();
    let tp = ViewId::new("tabbed");
    let panel = make_tabbed_panel(&tp, vec!["one", "two"], 0, &mut scene).with_flex(Flex::Resize, Flex::Resize);
    scene.add_view_to_root(panel);
    let page = make_panel(&ViewId::new("page1")).with_flex(Flex::Resize, Flex::Resize);
    let mut page = page;
    page.layout = Some(LayoutKind::StdPanel);
    scene.add_view_to_parent(page, &tp);
    layout_tabbed_panel(&mut scene, &tp, Size::new(200, 200), &theme).unwrap();
    assert_eq!(bounds_of(&scene, "tabbed").size, Size::new(200, 200));
    assert_eq!(bounds_of(&scene, "tabs"), Bounds::new(0, 0, 200, 20));
    assert_eq!(bounds_of(&scene, "page1"), Bounds::new(1, 20, 198, 179));
}

#[test]
fn layout_scene_runs_once() {
    let theme = mock_theme();
    let mut scene = Scene::new();
    scene.add_view_to_root(make_label("l", "abc"));
    assert!(scene.layout_dirty);
    layout_scene(&mut scene, &theme).unwrap();
    assert!(!scene.layout_dirty);
    assert_eq!(bounds_of(&scene, "l").size, Size::new(30, 20));
    assert_eq!(bounds_of(&scene, "root"), Bounds::new(0, 0, 200, 200));
    let mut v = scene.take_view(&ViewId::new("l")).unwrap();
    v.bounds.size = Size::new(1, 1);
    scene.put_view(ViewId::new("l"), v);
    layout_scene(&mut scene, &theme).unwrap();
    assert_eq!(bounds_of(&scene, "l").size, Size::new(1, 1));
    scene.mark_layout_dirty();
    layout_scene(&mut scene, &theme).unwrap();
    assert_eq!(bounds_of(&scene, "l").size, Size::new(30, 20));
}

#[test]
fn layout_keeps_everything_but_bounds() {
    let theme = mock_theme();
    let mut scene = Scene::new();
    scene.add_view_to_root(make_label("l", "abc").position_at(7, 8));
    layout_scene(&mut scene, &theme).unwrap();
    let v = scene.get_view(&ViewId::new("l")).unwrap();
    assert_eq!(v.title, "abc");
    assert_eq!(v.bounds.position, Point::new(7, 8));
    assert!(v.visible);
    assert_eq!(v.layout, Some(LayoutKind::Label));
}

#[test]
fn layout_fails_on_overflow() {
    let theme = mock_theme();
    let mut scene = Scene::new();
    let p = ViewId::new("p");
    let mut panel = make_panel(&p);
    panel.state = Some(ViewState::Panel(PanelState { border_visible: true, padding: Insets::new(0, 0, 0, i32::MIN), gap: 0 }));
    panel.layout = Some(LayoutKind::VBox);
    scene.add_view(panel);
    assert!(layout_vbox(&mut scene, &p, Size::new(10, 10), &theme).is_err());
    let big = LayoutTheme { font: FontMetrics { width: u32::MAX, height: 10 }, bold_font: FontMetrics { width: 7, height: 13 } };
    let mut scene2 = Scene::new();
    scene2.add_view_to_root(make_label("l", "abc"));
    assert!(layout_scene(&mut scene2, &big).is_err());
}

#[test]
fn a_missing_target_is_left_alone() {
    let theme = mock_theme();
    let mut scene = Scene::new();
    assert!(layout_hbox(&mut scene, &ViewId::new("nobody"), Size::new(10, 10), &theme).is_ok());
    assert_eq!(scene.viewcount(), 1);
}

#[test]
fn test_button() {
    let button = title_sized("button1", "abc");
    let theme = mock_theme();
    let mut scene = Scene::new();
    let root = scene.root_id();
    scene.add_view_to_parent(button, &root);
    layout_scene(&mut scene, &theme).unwrap();
    assert_eq!(bounds_of(&scene, "button1").size, Size::new(3 * 10, 10), "button size is wrong");
}

#[test]
fn test_layout() {
    let parent = ViewId::new("parent");
    let theme = mock_theme();
    let mut scene: Scene = Scene::new();
    let mut vbox = make_panel(&parent);
    vbox.bounds = Bounds::new(10, 10, 100, 100);
    vbox.layout = Some(LayoutKind::VBox);
    scene.add_view(vbox);
    // the children keep their own heights and take the width of the column
    scene.add_view_to_parent(row_child("button1", 20, 20), &parent);
    scene.add_view_to_parent(row_child("button2", 30, 20), &parent);
    // the column offers its children its own width
    let space = Size::new(100, 100);
    layout_vbox(&mut scene, &parent, space, &theme).unwrap();
    assert_eq!(scene.get_view_bounds(&parent), Some(Bounds::new(10, 10, 100, 100)));
    assert_eq!(scene.get_view_bounds(&ViewId::new("button1")), Some(Bounds::new(0, 0, 100, 20)));
    assert_eq!(scene.get_view_bounds(&ViewId::new("button2")), Some(Bounds::new(0, 20, 100, 20)));
}

#[test]
fn test_complex_tabbed_panels() {
    let mut scene = Scene::new();
    let tabbed_panel = ViewId::new("tabbed_panel_id");
    let tabs = ViewId::new("tabs");
    let root = scene.root_id();
    {
        let mut tabbed_panel_view = View::default();
        tabbed_panel_view.name = tabbed_panel.clone();
        tabbed_panel_view.h_flex = Flex::Resize;
        tabbed_panel_view.v_flex = Flex::Resize;
        tabbed_panel_view.layout = Some(LayoutKind::TabbedPanel);
        scene.add_view_to_parent(tabbed_panel_view, &root);

        let mut tabbed_panel_tabs = View::default();
        tabbed_panel_tabs.name = tabs.clone();
        tabbed_panel_tabs.h_flex = Flex::Resize;
        tabbed_panel_tabs.v_flex = Flex::Intrinsic;
        tabbed_panel_tabs.layout = Some(LayoutKind::ToggleGroup);
        scene.add_view_to_parent(tabbed_panel_tabs, &tabbed_panel);
    }
    let tab1 = ViewId::new("tab1");
    {
        let view = make_panel(&tab1).with_layout(Some(LayoutKind::HBox)).with_flex(Flex::Resize, Flex::Resize);
        scene.add_view_to_parent(view, &tabbed_panel);
        let mut b1 = title_sized("tab1_button1", "abc");
        b1.v_align = Align::Start;
        scene.add_view_to_parent(b1, &tab1);
        let mut b2 = title_sized("tab1_button2", "noname");
        b2.v_align = Align::Center;
        scene.add_view_to_parent(b2, &tab1);
        let mut b3 = title_sized("tab1_button3", "noname");
        b3.v_align = Align::End;
        scene.add_view_to_parent(b3, &tab1);
    }
    let tab2 = ViewId::new("tab2");
    {
        let view = make_panel(&tab2).with_layout(Some(LayoutKind::VBox)).with_flex(Flex::Resize, Flex::Resize);
        scene.add_view_to_parent(view, &tabbed_panel);
        let mut b1 = make_panel(&ViewId::new("tab2_button1"));
        b1.h_align = Align::Start;
        b1.h_flex = Flex::Resize;
        b1.v_flex = Flex::Resize;
        b1.title = "b11".to_string();
        b1.layout = Some(LayoutKind::StdPanel);
        scene.add_view_to_parent(b1, &tab2);
        let mut b2 = title_sized("tab2_button2", "b11");
        b2.h_align = Align::End;
        scene.add_view_to_parent(b2, &tab2);
    }
    let tab3 = ViewId::new("tab3");
    {
        let mut view = make_panel(&tab3);
        view.h_flex = Flex::Resize;
        view.v_flex = Flex::Resize;
        view.layout = Some(LayoutKind::StdPanel);
        scene.add_view_to_parent(view, &tabbed_panel);
    }
    layout_scene(&mut scene, &mock_theme()).unwrap();
    assert_eq!(scene.get_view_bounds(&scene.root_id()), Some(Bounds::new(0, 0, 200, 200)));
    assert_eq!(scene.get_view_bounds(&tabbed_panel), Some(Bounds::new(0, 0, 200, 200)));
    assert_eq!(scene.get_view_bounds(&tabs), Some(Bounds::new(0, 0, 200, 20)));
    assert_eq!(scene.get_view_bounds(&tab1), Some(Bounds::new(1, 20, 198, 179)));
    assert_eq!(scene.get_view_bounds(&tab2), Some(Bounds::new(1, 20, 198, 179)));
    assert_eq!(scene.get_view_bounds(&tab3), Some(Bounds::new(1, 20, 198, 179)));
    assert_eq!(scene.get_view_bounds(&ViewId::new("tab1_button1")), Some(Bounds::new(0, 0, 30, 10)));
    assert_eq!(scene.get_view_bounds(&ViewId::new("tab2_button1")), Some(Bounds::new(0, 0, 198, 169)));
    assert_eq!(scene.get_view_bounds(&ViewId::new("tab2_button2")), Some(Bounds::new(168, 169, 30, 10)));
}
