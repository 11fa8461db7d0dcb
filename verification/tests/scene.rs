use iris_ui::button::make_button;
use iris_ui::draw::draw_scene;
use iris_ui::events::{click_at, event_at_focused, pick_at};
use iris_ui::geom::{Bounds, Point, Size};
use iris_ui::input::{InputEvent, OutputAction, TextAction};
use iris_ui::scene::Scene;
use iris_ui::text_input::make_text_input;
use iris_ui::layouts::layout_scene;
use iris_ui::menu::make_menuview;
use iris_ui::util::{FontMetrics, LayoutTheme};
use iris_ui::view::{CustomView, DrawKind, InputKind, PaintOp, Tone, View, ViewId, ViewState};

fn repaint(scene: &mut Scene) {
    draw_scene(scene).unwrap();
    scene.dirty_rect = Bounds::new_empty();
}

fn simple_view(name: &'static str, bounds: Bounds) -> View {
    let mut v = View::default();
    v.name = ViewId::new(name);
    v.title = name.to_string();
    v.bounds = bounds;
    v.draw = Some(DrawKind::Panel);
    v
}

fn field_text(scene: &Scene, name: &'static str) -> String {
    match scene.get_view_state(&ViewId::new(name)) {
        Some(ViewState::TextInput(s)) => s.text(),
        _ => panic!("no text field"),
    }
}

#[test]
fn test_pick_at() {
    let mut scene: Scene = Scene::new();
    let vbox = simple_view("parent", Bounds::new(10, 10, 100, 100));
    let button = simple_view("child", Bounds::new(10, 10, 10, 10));
    scene.add_view_to_parent(button, &vbox.name);
    scene.add_view_to_root(vbox);
    assert_eq!(pick_at(&scene, &Point { x: 5, y: 5 }).len(), 1);
    assert_eq!(pick_at(&scene, &Point { x: 15, y: 15 }).len(), 2);
    assert_eq!(pick_at(&scene, &Point { x: 25, y: 25 }).len(), 3);
}

#[test]
fn test_repaint() {
    let mut scene = Scene::new();
    scene.add_view(simple_view("parent", Bounds::new(10, 10, 100, 100)));
    scene.add_view(simple_view("button1", Bounds::new(0, 0, 20, 20)));
    scene.add_view(simple_view("button2", Bounds::new(0, 0, 20, 20)));
    assert_eq!(scene.dirty, true);
    repaint(&mut scene);
    assert_eq!(scene.dirty, false);
}

#[test]
fn test_draw2() {
    let mut scene = Scene::new();
    scene.add_view_to_root(simple_view("view", Bounds::new(0, 0, 10, 10)));
    let steps = draw_scene(&mut scene).unwrap().unwrap();
    assert_eq!(steps.len(), 2);
    assert_eq!(steps[1].name, ViewId::new("view"));
    assert_eq!(steps[1].offset, Point::new(0, 0));
    scene.dirty_rect = Bounds::new_empty();
}

#[test]
fn test_cliprect() {
    let mut scene = Scene::new();
    let button = make_button(&ViewId::new("button"), "Button").position_at(20, 20);
    scene.add_view_to_root(button);
    assert_eq!(scene.dirty, true);
    assert_eq!(scene.dirty_rect, scene.bounds);
    assert_eq!(scene.dirty_rect.is_empty(), false);
    repaint(&mut scene);
    assert_eq!(scene.dirty, false);
    assert_eq!(scene.dirty_rect.is_empty(), true);
    click_at(&mut scene, Point::new(30, 30)).unwrap();
    assert_eq!(scene.dirty, true);
    assert_eq!(scene.dirty_rect, scene.get_view(&ViewId::new("button")).unwrap().bounds);
    repaint(&mut scene);
    assert_eq!(scene.dirty, false);
    assert_eq!(scene.dirty_rect.is_empty(), true);
}

#[test]
fn test_cliprect_nested() {
    let mut scene = Scene::new();
    let mut panel1 = View::default();
    panel1.name = ViewId::new("panel1");
    panel1.bounds = Bounds::new(10, 10, 100, 100);
    scene.add_view_to_root(panel1);
    let mut panel2 = View::default();
    panel2.name = ViewId::new("panel2");
    panel2.bounds = Bounds::new(10, 10, 100, 100);
    scene.add_view_to_parent(panel2, &ViewId::new("panel1"));
    let button_id = ViewId::new("button");
    let button = make_button(&button_id, "Button").position_at(20, 20);
    scene.add_view_to_parent(button, &ViewId::new("panel2"));

    repaint(&mut scene);
    assert_eq!(scene.dirty, false);
    assert_eq!(scene.dirty_rect.is_empty(), true);
    assert!(scene.focused.is_none());

    click_at(&mut scene, Point::new(45, 45)).unwrap();
    assert!(scene.focused.is_some());
    assert!(scene.focused.clone().is_some_and(|id| id == button_id));
    assert_eq!(scene.dirty, true);
    assert_eq!(scene.dirty_rect, Bounds::new(40, 40, 100, 100));
}

#[test]
fn text_field_takes_typed_key() {
    let mut scene: Scene = Scene::new();
    let text_box = make_text_input("textbox1", "foo");
    scene.add_view_to_root(text_box);
    assert_eq!(field_text(&scene, "textbox1"), "foo");
    scene.focused = Some(ViewId::new("textbox1"));
    event_at_focused(&mut scene, &InputEvent::Text(TextAction::TypedAscii(b'X'))).unwrap();
    assert_eq!(field_text(&scene, "textbox1"), "fooX");
}

/// A text box of the application's own making: a typed key is appended to
/// its title.
struct AppendingTextBox;

impl CustomView for AppendingTextBox {
    fn layout(&self, _title: &str, current: Size, _space: Size, _theme: &LayoutTheme) -> Size {
        current
    }
    fn input(&mut self, title: &mut String, _bounds: Bounds, ev: &InputEvent) -> (Option<String>, bool) {
        if let InputEvent::Text(TextAction::TypedAscii(key)) = ev {
            title.push(*key as char);
        }
        (None, false)
    }
    fn paint(&self, _bounds: Bounds, _focused: bool) -> Vec<PaintOp> {
        vec![]
    }
    fn describe(&self) -> String {
        String::new()
    }
}

/// A button that remembers whether it got input.
struct TestButton {
    got_input: bool,
}

impl CustomView for TestButton {
    fn layout(&self, _title: &str, current: Size, _space: Size, _theme: &LayoutTheme) -> Size {
        current
    }
    fn input(&mut self, _title: &mut String, _bounds: Bounds, _ev: &InputEvent) -> (Option<String>, bool) {
        self.got_input = true;
        (None, false)
    }
    fn paint(&self, bounds: Bounds, _focused: bool) -> Vec<PaintOp> {
        vec![PaintOp::FillRect(bounds, Tone::StandardFill)]
    }
    fn describe(&self) -> String {
        if self.got_input { String::from("clicked") } else { String::from("idle") }
    }
}

/// A toggle whose state is the text `disabled` or `enabled`.
struct TextToggle {
    state: String,
}

impl CustomView for TextToggle {
    fn layout(&self, _title: &str, current: Size, _space: Size, _theme: &LayoutTheme) -> Size {
        current
    }
    fn input(&mut self, _title: &mut String, _bounds: Bounds, _ev: &InputEvent) -> (Option<String>, bool) {
        self.state = String::from("enabled");
        (None, false)
    }
    fn paint(&self, bounds: Bounds, _focused: bool) -> Vec<PaintOp> {
        if self.state == "enabled" {
            vec![PaintOp::FillRect(bounds, Tone::StandardText), PaintOp::StrokeRect(bounds, Tone::StandardFill)]
        } else {
            vec![PaintOp::FillRect(bounds, Tone::StandardFill), PaintOp::StrokeRect(bounds, Tone::StandardText)]
        }
    }
    fn describe(&self) -> String {
        self.state.clone()
    }
}

fn custom_view(name: &'static str, title: &str, bounds: Bounds, behaviour: Box<dyn CustomView>) -> View {
    let mut v = View::default();
    v.name = ViewId::new(name);
    v.title = title.to_string();
    v.bounds = bounds;
    v.input = Some(InputKind::Custom);
    v.draw = Some(DrawKind::Custom);
    v.state = Some(ViewState::Custom(behaviour));
    v
}

fn make_test_button(name: &'static str) -> View {
    custom_view(name, name, Bounds::new(0, 0, 20, 20), Box::new(TestButton { got_input: false }))
}

fn described(scene: &Scene, name: &'static str) -> String {
    match scene.get_view_state(&ViewId::new(name)) {
        Some(ViewState::Custom(c)) => c.describe(),
        _ => panic!("not a custom view"),
    }
}

fn planned(scene: &mut Scene) -> Vec<ViewId> {
    let steps = draw_scene(scene).unwrap().unwrap();
    scene.dirty_rect = Bounds::new_empty();
    steps.into_iter().map(|s| s.name).collect()
}

#[test]
fn test_keyboard_events() {
    let mut scene: Scene = Scene::new();
    let text_box = custom_view("textbox1", "foo", Bounds::new(0, 0, 100, 30), Box::new(AppendingTextBox));
    scene.add_view_to_root(text_box);
    assert_eq!(scene.get_view(&ViewId::new("textbox1")).unwrap().title, "foo");
    scene.focused = Some(ViewId::new("textbox1"));
    let r = event_at_focused(&mut scene, &InputEvent::Text(TextAction::TypedAscii(b'X'))).unwrap();
    assert!(r.is_none());
    assert_eq!(scene.get_view(&ViewId::new("textbox1")).unwrap().title, "fooX");
}

#[test]
fn lib_test_toggle_button() {
    let mut scene = Scene::new();
    let button = custom_view(
        "toggle",
        "Off",
        Bounds::new(10, 10, 20, 20),
        Box::new(TextToggle { state: String::from("disabled") }),
    );
    scene.add_view_to_root(button);
    repaint(&mut scene);
    assert_eq!(scene.get_view(&ViewId::new("toggle")).unwrap().visible, true);
    assert_eq!(described(&scene, "toggle"), "disabled");
    click_at(&mut scene, Point::new(15, 15)).unwrap();
    assert_eq!(described(&scene, "toggle"), "enabled");
}

#[test]
fn test_make_visible() {
    let mut scene = Scene::new();
    let mut button1 = make_test_button("button1");
    button1.visible = true;
    scene.add_view_to_root(button1);
    let mut button2 = make_test_button("button2");
    button2.bounds.position.x = 100;
    button2.visible = false;
    scene.add_view_to_root(button2);

    assert_eq!(described(&scene, "button1"), "idle");

    // only button 1 is drawn
    let drawn = planned(&mut scene);
    assert_eq!(scene.dirty, false);
    assert!(drawn.contains(&ViewId::new("button1")));
    assert!(!drawn.contains(&ViewId::new("button2")));

    // tap button 1; the application's handler then shows button 2
    assert_eq!(scene.dirty, false);
    let r = click_at(&mut scene, Point::new(15, 15)).unwrap();
    assert!(r.is_none());
    assert_eq!(described(&scene, "button1"), "clicked");
    if let Some(view) = scene.get_view_mut(&ViewId::new("button2")) {
        view.visible = true;
        scene.dirty = true;
    }
    assert_eq!(scene.dirty, true);

    // this time both buttons are drawn
    let drawn = planned(&mut scene);
    assert_eq!(scene.dirty, false);
    assert!(drawn.contains(&ViewId::new("button1")));
    assert!(drawn.contains(&ViewId::new("button2")));
}

#[test]
fn test_events() {
    let mut scene: Scene = Scene::new();
    assert_eq!(scene.get_view(&ViewId::new("root")).unwrap().visible, true);
    // the root takes no input itself: the tap reaches the application's
    // handlers, which hide the tapped view
    let r = click_at(&mut scene, Point::new(5, 5)).unwrap();
    assert!(r.is_none());
    let picks = pick_at(&scene, &Point::new(5, 5));
    let target = picks.last().unwrap().0.clone();
    assert_eq!(target, ViewId::new("root"));
    if let Some(view) = scene.get_view_mut(&target) {
        view.visible = false;
    }
    scene.dirty = true;
    assert_eq!(scene.get_view(&ViewId::new("root")).unwrap().visible, false);
}

#[test]
fn added_view_is_found_as_given() {
    let mut scene = Scene::new();
    scene.add_view_to_root(simple_view("a", Bounds::new(1, 2, 3, 4)));
    let v = scene.get_view(&ViewId::new("a")).unwrap();
    assert_eq!(v.bounds, Bounds::new(1, 2, 3, 4));
    assert_eq!(v.title, "a");
    assert_eq!(scene.viewcount(), 2);
    assert!(scene.has_view(&ViewId::new("root")));
    assert_eq!(scene.get_children_ids(&ViewId::new("root")), vec![ViewId::new("a")]);
}

#[test]
fn removed_view_is_gone() {
    let mut scene = Scene::new();
    scene.add_view_to_root(simple_view("a", Bounds::new(1, 2, 3, 4)));
    scene.add_view_to_root(simple_view("b", Bounds::new(1, 2, 3, 4)));
    let gone = scene.remove_view(&ViewId::new("a"));
    assert_eq!(gone.unwrap().name, ViewId::new("a"));
    assert!(!scene.has_view(&ViewId::new("a")));
    assert!(scene.has_view(&ViewId::new("b")));
    assert!(scene.remove_view(&ViewId::new("a")).is_none());
}

#[test]
fn remove_parent_and_children_removes_the_subtree() {
    let mut scene = Scene::new();
    scene.add_view_to_root(simple_view("p", Bounds::new(0, 0, 50, 50)));
    scene.add_view_to_parent(simple_view("c1", Bounds::new(0, 0, 5, 5)), &ViewId::new("p"));
    scene.add_view_to_parent(simple_view("c2", Bounds::new(0, 0, 5, 5)), &ViewId::new("p"));
    scene.remove_parent_and_children(&ViewId::new("p"));
    assert!(!scene.has_view(&ViewId::new("p")));
    assert!(!scene.has_view(&ViewId::new("c1")));
    assert!(!scene.has_view(&ViewId::new("c2")));
    assert!(scene.get_children_ids(&ViewId::new("p")).is_empty());
}

#[test]
fn focus_moves_and_marks_both_views() {
    let mut scene = Scene::new();
    scene.add_view_to_root(simple_view("a", Bounds::new(0, 0, 10, 10)));
    scene.add_view_to_root(simple_view("b", Bounds::new(50, 50, 10, 10)));
    repaint(&mut scene);
    scene.set_focused(&ViewId::new("a"));
    assert!(scene.is_focused(&ViewId::new("a")));
    assert_eq!(scene.dirty_rect, Bounds::new(0, 0, 10, 10));
    scene.set_focused(&ViewId::new("b"));
    assert!(!scene.is_focused(&ViewId::new("a")));
    assert_eq!(scene.get_focused(), Some(ViewId::new("b")));
    assert_eq!(scene.dirty_rect, Bounds::new(0, 0, 60, 60));
}

#[test]
fn show_and_hide() {
    let mut scene = Scene::new();
    scene.add_view_to_root(simple_view("a", Bounds::new(0, 0, 10, 10)));
    assert!(scene.is_visible(&ViewId::new("a")));
    scene.hide_view(&ViewId::new("a"));
    assert!(!scene.is_visible(&ViewId::new("a")));
    assert!(pick_at(&scene, &Point::new(5, 5)).len() == 1);
    scene.show_view(&ViewId::new("a"));
    assert!(scene.is_visible(&ViewId::new("a")));
    assert!(!scene.is_visible(&ViewId::new("missing")));
}

#[test]
fn children_are_appended_and_removed() {
    let mut scene = Scene::new();
    let p = ViewId::new("p");
    scene.add_child(&p, &ViewId::new("x"));
    scene.add_child(&p, &ViewId::new("y"));
    scene.add_child(&p, &ViewId::new("x"));
    assert_eq!(scene.get_children_ids(&p), vec![ViewId::new("x"), ViewId::new("y"), ViewId::new("x")]);
    scene.remove_child(&p, &ViewId::new("x"));
    assert_eq!(scene.get_children_ids(&p), vec![ViewId::new("y"), ViewId::new("x")]);
    scene.remove_child(&p, &ViewId::new("z"));
    assert_eq!(scene.get_children_ids(&p), vec![ViewId::new("y"), ViewId::new("x")]);
}

#[test]
fn parent_is_found_from_the_root() {
    let mut scene = Scene::new();
    scene.add_view_to_root(simple_view("p", Bounds::new(0, 0, 50, 50)));
    scene.add_view_to_parent(simple_view("c", Bounds::new(0, 0, 5, 5)), &ViewId::new("p"));
    assert_eq!(scene.get_parent_for_view(&ViewId::new("c")), Some(ViewId::new("p")));
    assert_eq!(scene.get_parent_for_view(&ViewId::new("p")), Some(ViewId::new("root")));
    assert_eq!(scene.get_parent_for_view(&ViewId::new("root")), None);
    assert_eq!(scene.get_parent_for_view(&ViewId::new("nowhere")), None);
}

#[test]
fn dirty_region_is_in_screen_coordinates() {
    let mut scene = Scene::new();
    scene.add_view_to_root(simple_view("p", Bounds::new(30, 40, 50, 50)));
    scene.add_view_to_parent(simple_view("c", Bounds::new(5, 6, 7, 8)), &ViewId::new("p"));
    repaint(&mut scene);
    scene.mark_dirty_view(&ViewId::new("c"));
    assert!(scene.dirty);
    assert_eq!(scene.dirty_rect, Bounds::new(35, 46, 7, 8));
}

#[test]
fn a_view_outside_the_tree_marks_everything() {
    let mut scene = Scene::new();
    scene.add_view(simple_view("loose", Bounds::new(5, 6, 7, 8)));
    repaint(&mut scene);
    scene.mark_dirty_view(&ViewId::new("loose"));
    assert_eq!(scene.dirty_rect, scene.bounds);
}

#[test]
fn tap_on_a_button_answers_its_command() {
    let mut scene = Scene::new();
    scene.add_view_to_root(make_button(&ViewId::new("ok"), "OK").position_at(0, 0));
    let res = click_at(&mut scene, Point::new(5, 5)).unwrap();
    assert_eq!(res, Some((ViewId::new("ok"), OutputAction::Command("OK".to_string()))));
    assert!(scene.is_focused(&ViewId::new("ok")));
}

#[test]
fn tap_on_nothing_answers_nothing() {
    let mut scene = Scene::new();
    assert_eq!(click_at(&mut scene, Point::new(500, 500)).unwrap(), None);
    assert_eq!(click_at(&mut scene, Point::new(5, 5)).unwrap(), None);
}

#[test]
fn keys_go_nowhere_without_focus() {
    let mut scene = Scene::new();
    scene.add_view_to_root(make_text_input("t", "ab"));
    let r = event_at_focused(&mut scene, &InputEvent::Text(TextAction::TypedAscii(b'c'))).unwrap();
    assert_eq!(r, None);
    assert_eq!(field_text(&scene, "t"), "ab");
}

#[test]
fn return_key_completes_a_text_field() {
    let mut scene = Scene::new();
    scene.add_view_to_root(make_text_input("t", "ab"));
    scene.set_focused(&ViewId::new("t"));
    let r = event_at_focused(&mut scene, &InputEvent::Text(TextAction::TypedAscii(13))).unwrap();
    assert_eq!(r, Some((ViewId::new("t"), OutputAction::Command("Completed".to_string()))));
}

#[test]
fn editing_a_text_field() {
    let mut scene = Scene::new();
    scene.add_view_to_root(make_text_input("t", "abc"));
    scene.set_focused(&ViewId::new("t"));
    let key = |scene: &mut Scene, a: TextAction| {
        event_at_focused(scene, &InputEvent::Text(a)).unwrap();
    };
    key(&mut scene, TextAction::Left);
    key(&mut scene, TextAction::TypedAscii(b'X'));
    assert_eq!(field_text(&scene, "t"), "abXc");
    key(&mut scene, TextAction::BackDelete);
    assert_eq!(field_text(&scene, "t"), "abc");
    key(&mut scene, TextAction::ForwardDelete);
    assert_eq!(field_text(&scene, "t"), "ab");
    key(&mut scene, TextAction::TypedAscii(8));
    assert_eq!(field_text(&scene, "t"), "a");
    key(&mut scene, TextAction::Right);
    key(&mut scene, TextAction::TypedAscii(b'Z'));
    assert_eq!(field_text(&scene, "t"), "aZ");
}

#[test]
fn drawing_follows_the_tree_and_skips_hidden_views() {
    let mut scene = Scene::new();
    scene.add_view_to_root(simple_view("p", Bounds::new(30, 40, 50, 50)));
    scene.add_view_to_parent(simple_view("c", Bounds::new(5, 6, 7, 8)), &ViewId::new("p"));
    scene.add_view_to_root(simple_view("h", Bounds::new(0, 0, 5, 5)).with_visible(false));
    scene.add_view_to_parent(simple_view("under_h", Bounds::new(0, 0, 5, 5)), &ViewId::new("h"));
    let steps = draw_scene(&mut scene).unwrap().unwrap();
    let names: Vec<String> = steps.iter().map(|s| s.name.to_string()).collect();
    assert_eq!(names, vec!["root", "p", "c"]);
    assert_eq!(steps[0].kind, DrawKind::Root);
    assert_eq!(steps[2].offset, Point::new(30, 40));
    assert!(!scene.dirty);
    assert!(scene.dirty_rect.is_empty());
    assert!(draw_scene(&mut scene).unwrap().is_none());
}

#[test]
fn drawing_fails_where_offsets_overflow() {
    let mut scene = Scene::new();
    scene.add_view_to_root(simple_view("far", Bounds::new(i32::MAX, 0, 5, 5)));
    scene.add_view_to_parent(simple_view("farther", Bounds::new(1, 0, 5, 5)), &ViewId::new("far"));
    scene.add_view_to_parent(simple_view("deepest", Bounds::new(1, 0, 5, 5)), &ViewId::new("farther"));
    assert!(draw_scene(&mut scene).is_err());
    assert!(scene.dirty);
}

#[test]
fn writes_through_get_view_mut_stay() {
    let mut scene = Scene::new();
    scene.add_view_to_root(simple_view("a", Bounds::new(0, 0, 10, 10)));
    repaint(&mut scene);
    if let Some(v) = scene.get_view_mut(&ViewId::new("a")) {
        v.title = "changed".to_string();
        v.bounds.position = Point::new(3, 3);
    }
    let v = scene.get_view(&ViewId::new("a")).unwrap();
    assert_eq!(v.title, "changed");
    assert_eq!(v.bounds, Bounds::new(3, 3, 10, 10));
    assert!(!scene.dirty);
    assert!(scene.get_view_mut(&ViewId::new("missing")).is_none());
}

#[test]
fn a_key_that_would_cut_a_character_fails() {
    let mut scene = Scene::new();
    scene.add_view_to_root(make_text_input("t", "ab"));
    scene.set_focused(&ViewId::new("t"));
    event_at_focused(&mut scene, &InputEvent::Text(TextAction::TypedAscii(0xE9))).unwrap();
    assert_eq!(field_text(&scene, "t"), "ab\u{e9}");
    repaint(&mut scene);
    let r = event_at_focused(&mut scene, &InputEvent::Text(TextAction::TypedAscii(b'c')));
    assert!(r.is_err());
    assert_eq!(field_text(&scene, "t"), "ab\u{e9}");
    assert!(!scene.dirty);
    event_at_focused(&mut scene, &InputEvent::Text(TextAction::Right)).unwrap();
    event_at_focused(&mut scene, &InputEvent::Text(TextAction::TypedAscii(b'c'))).unwrap();
    assert_eq!(field_text(&scene, "t"), "ab\u{e9}c");
}

fn menu_of(scene: &Scene) -> &Box<dyn CustomView> {
    match scene.get_view_state(&ViewId::new("menu")) {
        Some(ViewState::Custom(c)) => c,
        _ => panic!("not a menu"),
    }
}

#[test]
fn menu_view_selects_the_tapped_row() {
    let mut scene = Scene::new();
    let items = vec![String::from("one"), String::from("two"), String::from("three")];
    let menu = make_menuview("menu", items);
    assert_eq!(menu.bounds, Bounds::new(0, 0, 100, 90));
    scene.add_view_to_root(menu);
    let theme = LayoutTheme { font: FontMetrics { width: 6, height: 10 }, bold_font: FontMetrics { width: 7, height: 13 } };
    layout_scene(&mut scene, &theme).unwrap();
    assert_eq!(scene.get_view_bounds(&ViewId::new("menu")), Some(Bounds::new(0, 0, 100, 90)));
    assert_eq!(menu_of(&scene).describe(), "one");

    let r = click_at(&mut scene, Point::new(50, 45)).unwrap();
    assert_eq!(r, Some((ViewId::new("menu"), OutputAction::Command(String::from("selected")))));
    assert_eq!(menu_of(&scene).describe(), "two");
    assert_eq!(scene.get_focused(), Some(ViewId::new("menu")));

    let ops = menu_of(&scene).paint(Bounds::new(0, 0, 100, 90), true);
    assert_eq!(ops.len(), 8);
    assert_eq!(ops[0], PaintOp::FillRect(Bounds::new(0, 0, 100, 90), Tone::StandardFill));
    assert_eq!(ops[3], PaintOp::FillRect(Bounds::new(1, 31, 98, 30), Tone::StandardText));
    assert_eq!(ops[4], PaintOp::Text(Bounds::new(1, 31, 98, 30), String::from("two"), Tone::StandardFill));
    assert_eq!(ops[7], PaintOp::StrokeRect(Bounds::new(0, 0, 100, 90), Tone::StandardText));
}

#[test]
fn menu_view_ignores_other_events() {
    let mut scene = Scene::new();
    scene.add_view_to_root(make_menuview("menu", vec![String::from("a"), String::from("b")]));
    scene.focused = Some(ViewId::new("menu"));
    let r = event_at_focused(&mut scene, &InputEvent::Text(TextAction::TypedAscii(b'x'))).unwrap();
    assert!(r.is_none());
    assert_eq!(menu_of(&scene).describe(), "a");
}
