use iris_ui::button::{make_full_button, make_button, ButtonState};
use iris_ui::events::click_at;
use iris_ui::geom::{Bounds, Point, Size};
use iris_ui::input::TextAction;
use iris_ui::grid::LayoutConstraint;
use iris_ui::layouts::layout_scene;
use iris_ui::list_view::SelectOneOf;
use iris_ui::panel::make_panel;
use iris_ui::scene::Scene;
use iris_ui::tabbed_panel::{make_tabbed_panel, LayoutPanelState};
use iris_ui::text_input::{cursor_bounds, TextInputState};
use iris_ui::toggle_button::SelectedState;
use iris_ui::toggle_group::{choice_marks, segments, SelectOneOfState};
use iris_ui::util::{calc_bounds, calc_size, text_fits, FontMetrics, LayoutTheme};
use iris_ui::view::{DrawKind, Flex, InputKind, LayoutKind, View, ViewId, ViewState};

fn mock_theme() -> LayoutTheme {
    LayoutTheme { font: FontMetrics { width: 6, height: 10 }, bold_font: FontMetrics { width: 7, height: 13 } }
}

#[test]
fn text_size_pads_by_a_character_and_half_a_line() {
    let f = FontMetrics { width: 6, height: 10 };
    assert_eq!(calc_size(f, "Label 1"), Size::new(54, 20));
    assert_eq!(calc_size(f, ""), Size::new(12, 20));
    let g = FontMetrics { width: 7, height: 13 };
    assert_eq!(calc_size(g, "b1"), Size::new(28, 25));
    assert_eq!(calc_bounds(Bounds::new(3, 4, 0, 0), f, "ab"), Bounds::new(3, 4, 24, 20));
    assert!(text_fits(f, "abc"));
    assert!(!text_fits(FontMetrics { width: u32::MAX, height: 1 }, "abc"));
    assert_eq!(calc_size(f, "é"), Size::new(24, 20));
}

#[test]
fn segments_share_the_width() {
    let cells = segments(Bounds::new(10, 5, 100, 20), 3).unwrap();
    assert_eq!(cells.len(), 3);
    assert_eq!(cells[0], (Bounds::new(11, 5, 32, 20), None));
    assert_eq!(cells[1], (Bounds::new(44, 5, 32, 20), Some((43, 24))));
    assert_eq!(cells[2], (Bounds::new(77, 5, 32, 20), Some((76, 24))));
}

#[test]
fn segments_of_nothing_fail() {
    assert!(segments(Bounds::new(0, 0, 100, 20), 0).is_err());
    assert!(segments(Bounds::new(i32::MAX - 5, 0, 100, 20), 2).is_err());
}

#[test]
fn cursor_bar_follows_the_cursor() {
    let f = FontMetrics { width: 6, height: 10 };
    assert_eq!(cursor_bounds(Bounds::new(10, 20, 100, 30), 3, f).unwrap(), Bounds::new(33, 25, 1, 14));
    assert!(cursor_bounds(Bounds::new(i32::MAX - 2, 20, 100, 30), 0, f).is_err());
}

#[test]
fn text_input_state_edits() {
    let mut s = TextInputState::new("héllo");
    assert_eq!(s.text(), "héllo");
    assert_eq!(s.cursor(), 6);
    assert_eq!(s.byte_len(), 6);
    s.cursor_back();
    s.cursor_back();
    s.insert_char('X');
    assert_eq!(s.text(), "hélXlo");
    assert_eq!(s.cursor(), 5);
    s.delete_back();
    assert_eq!(s.text(), "héllo");
    assert_eq!(s.cursor(), 4);
    s.delete_forward();
    assert_eq!(s.text(), "hélo");
    for _ in 0..10 {
        s.cursor_forward();
    }
    assert_eq!(s.cursor(), 5);
    s.delete_forward();
    assert_eq!(s.text(), "hélo");
    for _ in 0..10 {
        s.cursor_back();
    }
    assert_eq!(s.cursor(), 0);
    s.delete_back();
    assert_eq!(s.text(), "hélo");
}

#[test]
fn text_input_cursor_inside_a_character() {
    let mut s = TextInputState::new("é");
    assert_eq!(s.cursor(), 2);
    s.cursor_back();
    assert_eq!(s.cursor(), 1);
    assert_eq!(s.index_at(1), None);
    assert_eq!(s.index_at(0), Some(0));
    assert!(s.edit_would_fail(TextAction::TypedAscii(b'a')));
    assert!(s.edit_would_fail(TextAction::ForwardDelete));
    assert!(!s.edit_would_fail(TextAction::BackDelete));
    assert!(!s.edit_would_fail(TextAction::Left));
    s.apply(TextAction::BackDelete);
    assert_eq!(s.text(), "");
    assert_eq!(s.cursor(), 0);
}

#[test]
fn buttons_carry_their_command() {
    let b = make_button(&ViewId::new("b"), "Go");
    match &b.state {
        Some(ViewState::Button(s)) => {
            assert_eq!(s.command(), "Go");
            assert!(!s.primary());
        },
        _ => panic!("no button state"),
    }
    assert_eq!(b.input, Some(InputKind::Button));
    assert_eq!(b.layout, Some(LayoutKind::Button));
    let f = make_full_button(&ViewId::new("f"), "Save", "save-file".to_string(), true);
    match &f.state {
        Some(ViewState::Button(s)) => {
            assert_eq!(s.command(), "save-file");
            assert!(s.primary());
        },
        _ => panic!("no button state"),
    }
    let s = ButtonState::new("x".to_string(), false);
    assert_eq!(s.command(), "x");
}

#[test]
fn plain_states() {
    assert_eq!(SelectedState::new(), SelectedState { selected: false });
    assert_eq!(LayoutConstraint::at_row_column(2, 3), LayoutConstraint { col: 3, row: 2, col_span: 1, row_span: 1 });
    match SelectOneOfState::new_with(vec!["a", "b"], 1) {
        ViewState::SelectOneOf(s) => {
            assert_eq!(s.items, vec!["a", "b"]);
            assert_eq!(s.selected, 1);
        },
        _ => panic!("wrong state"),
    }
    match SelectOneOf::new_with(vec!["z"], 0) {
        ViewState::List(s) => assert_eq!(s.items, vec!["z"]),
        _ => panic!("wrong state"),
    }
}

#[test]
fn view_builders() {
    let v = View::default()
        .with_name(ViewId::new("v"))
        .with_bounds(Bounds::new(1, 2, 3, 4))
        .with_flex(Flex::Resize, Flex::Intrinsic)
        .position_at(5, 6)
        .with_size(7, 8)
        .with_visible(false)
        .with_draw_fn(Some(DrawKind::Label))
        .with_layout(Some(LayoutKind::Label))
        .with_state(Some(ViewState::Text("t".to_string())));
    assert_eq!(v.name, ViewId::new("v"));
    assert_eq!(v.bounds, Bounds::new(5, 6, 7, 8));
    assert_eq!(v.h_flex, Flex::Resize);
    assert_eq!(v.v_flex, Flex::Intrinsic);
    assert!(!v.visible);
    assert_eq!(v.draw, Some(DrawKind::Label));
    let mut w = View::default();
    assert_eq!(w.title, "noname");
    w.set_hidden();
    assert!(!w.visible);
    assert_eq!(ViewId::make("abc".to_string()).as_str(), "abc");
    assert_eq!(ViewId::new("q").to_string(), "q");
}

#[test]
fn tabs_switch_pages() {
    let theme = mock_theme();
    let mut scene = Scene::new_with_bounds(Bounds::new(0, 0, 320, 240));
    let tp = ViewId::new("tp");
    let mut panel = make_tabbed_panel(&tp, vec!["one", "two"], 0, &mut scene)
        .position_at(0, 0)
        .with_flex(Flex::Intrinsic, Flex::Intrinsic);
    let p1 = ViewId::new("p1");
    let p2 = ViewId::new("p2");
    if let Some(ViewState::Tabs(s)) = &mut panel.state {
        s.register_panel("one", &p1);
        s.register_panel("two", &p2);
        assert_eq!(s.panel_for(&"two".to_string()), Some(p2.clone()));
        assert_eq!(s.panel_for(&"three".to_string()), None);
    }
    scene.add_view_to_root(panel);
    scene.add_view_to_parent(make_panel(&p1), &tp);
    scene.add_view_to_parent(make_panel(&p2).with_visible(false), &tp);
    layout_scene(&mut scene, &theme).unwrap();
    assert_eq!(scene.get_view_bounds(&ViewId::new("tabs")), Some(Bounds::new(0, 0, 300, 20)));
    let r = click_at(&mut scene, Point::new(200, 5)).unwrap();
    assert_eq!(r, None);
    assert!(!scene.is_visible(&p1));
    assert!(scene.is_visible(&p2));
    assert!(scene.is_visible(&ViewId::new("tabs")));
    match scene.get_view_state(&ViewId::new("tabs")) {
        Some(ViewState::SelectOneOf(s)) => assert_eq!(s.selected, 1),
        _ => panic!("no tab state"),
    }
}

#[test]
fn empty_tabbed_state() {
    let s = LayoutPanelState::new();
    assert_eq!(s.panel_for(&"x".to_string()), None);
}

#[test]
fn toggle_group_tap_answers_the_item() {
    let mut scene = Scene::new();
    let mut g = iris_ui::toggle_group::make_toggle_group(&ViewId::new("g"), vec!["a", "b"], 0);
    g.bounds = Bounds::new(0, 0, 100, 20);
    g.h_flex = Flex::Intrinsic;
    scene.add_view_to_root(g);
    let r = click_at(&mut scene, Point::new(75, 5)).unwrap();
    assert_eq!(r, Some((ViewId::new("g"), iris_ui::input::OutputAction::Command("b".to_string()))));
    assert!(scene.is_focused(&ViewId::new("g")));
}

#[test]
fn toggle_group_with_no_items_faults() {
    let mut scene = Scene::new();
    let g = iris_ui::toggle_group::make_toggle_group(&ViewId::new("g"), vec![], 0);
    let g = g.with_size(50, 20);
    scene.add_view_to_root(g);
    scene.dirty = false;
    scene.dirty_rect = Bounds::new_empty();
    assert!(click_at(&mut scene, Point::new(5, 5)).is_err());
    assert!(scene.is_focused(&ViewId::new("g")));
    assert!(scene.dirty);
    assert_eq!(scene.dirty_rect, Bounds::new(0, 0, 50, 20));
}

#[test]
fn grid_guide_lines() {
    let gs = iris_ui::grid::GridLayoutState::new_row_column(2, 30, 3, 100);
    let lines = iris_ui::grid::guide_lines(Bounds::new(5, 6, 200, 100), &gs).unwrap();
    assert_eq!(lines.len(), 4 + 3);
    assert_eq!(lines[0], (Point::new(5, 6), Point::new(5, 106)));
    assert_eq!(lines[3], (Point::new(305, 6), Point::new(305, 106)));
    assert_eq!(lines[4], (Point::new(5, 6), Point::new(205, 6)));
    assert_eq!(lines[6], (Point::new(5, 66), Point::new(205, 66)));
    let far = iris_ui::grid::guide_lines(Bounds::new(i32::MAX - 150, 0, 10, 10), &gs);
    assert!(far.is_err());
}

#[test]
fn choice_marks_fill_the_chosen_cell_and_ring_it_when_focused() {
    assert_eq!(choice_marks(3, 1, false), vec![(false, false), (true, false), (false, false)]);
    assert_eq!(choice_marks(3, 1, true), vec![(false, false), (true, true), (false, false)]);
    assert_eq!(choice_marks(2, 5, true), vec![(false, false), (false, false)]);
    assert!(choice_marks(0, 0, true).is_empty());
}

#[test]
fn ascii_typing_then_deleting_back_restores_the_field() {
    let mut s = TextInputState::new("abc");
    s.apply(TextAction::Left);
    assert!(!s.edit_would_fail(TextAction::TypedAscii(b'X')));
    s.apply(TextAction::TypedAscii(b'X'));
    assert_eq!(s.text(), "abXc");
    assert_eq!(s.cursor(), 3);
    s.apply(TextAction::BackDelete);
    assert_eq!(s.text(), "abc");
    assert_eq!(s.cursor(), 2);
}
