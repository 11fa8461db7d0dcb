//! Hit testing and event dispatch: which views lie under a point, and what
//! the built-in widgets do with taps and key presses.
use vstd::prelude::*;
use vstd::view::View as _;
use crate::geom::{bounds_hold, div_i32, fits, point_minus, tdiv, Bounds, Point};
use crate::input::{ArithmeticFault, EventResult, InputEvent, OutputAction, TextAction};
use crate::list_view::SelectOneOf;
use crate::scene::{
    children_of, depth_limit, dirty_view, focus_on, law_dirty_view_marks, locate_in, set_visible, Scene,
    SceneModel,
};
use crate::text_input::{
    ascii_text, char_index, edit_fails, lemma_ascii_index, lemma_byte_len_insert, lemma_char_index_found, lemma_char_index_is, text_edit, TextInputState,
};
use crate::toggle_button::SelectedState;
use crate::util::byte_len;
use crate::toggle_group::SelectOneOfState;
use crate::view::{CustomView, InputKind, View, ViewId, ViewState};

verus! {

/// The views under `pt`, depth first from `id`: a view is listed when it
/// exists, is visible and contains the point (given in its parent's
/// coordinates), followed by the views under the point among its children,
/// which see the point relative to the view.
pub open spec fn picks(m: SceneModel, pt: Point, id: Seq<char>, fuel: nat) -> Seq<(Seq<char>, Point)>
    decreases fuel, 0nat,
{
    if fuel == 0 || !m.views.contains_key(id) {
        Seq::empty()
    } else {
        let v = m.views[id];
        if bounds_hold(v.bounds, pt) && v.visible {
            seq![(v.name@, pt)] + picks_list(
                m,
                point_minus(pt, v.bounds.position),
                children_of(m.kids, v.name@),
                (fuel - 1) as nat,
            )
        } else {
            Seq::empty()
        }
    }
}

/// `picks` for each id of `ids` in turn, concatenated.
pub open spec fn picks_list(m: SceneModel, pt: Point, ids: Seq<Seq<char>>, fuel: nat) -> Seq<(Seq<char>, Point)>
    decreases fuel, ids.len() + 1,
{
    if ids.len() == 0 {
        Seq::empty()
    } else {
        picks_list(m, pt, ids.drop_last(), fuel) + picks(m, pt, ids.last(), fuel)
    }
}

/// The views under `pt`, from the root down.
pub open spec fn picks_at(m: SceneModel, pt: Point) -> Seq<(Seq<char>, Point)> {
    picks(m, pt, m.root, depth_limit(m.views))
}

pub open spec fn pick_texts(v: Seq<(ViewId, Point)>) -> Seq<(Seq<char>, Point)> {
    v.map_values(|p: (ViewId, Point)| (p.0@, p.1))
}

fn pick_at_view(scene: &Scene, pt: &Point, name: &ViewId, fuel: usize) -> (r: Vec<(ViewId, Point)>)
    ensures
        pick_texts(r@) == picks(scene@, *pt, name@, fuel as nat),
    decreases fuel,
{
    let mut coll: Vec<(ViewId, Point)> = Vec::new();
    if fuel == 0 {
        assert(pick_texts(coll@) =~= Seq::<(Seq<char>, Point)>::empty());
        return coll;
    }
    match scene.get_view(name) {
        None => {
            assert(pick_texts(coll@) =~= Seq::<(Seq<char>, Point)>::empty());
        },
        Some(view) => {
            if view.bounds.contains(pt) && view.visible {
                coll.push((view.name.clone(), *pt));
                let pt2 = pt.subtract(&view.bounds.position);
                let kids = scene.get_children_ids(&view.name);
                let ghost ids = kids.deep_view();
                let ghost head = seq![(view.name@, *pt)];
                assert(pick_texts(coll@) =~= head);
                let mut i: usize = 0;
                while i < kids.len()
                    invariant
                        0 < fuel,
                        i <= kids@.len(),
                        ids == kids.deep_view(),
                        ids.len() == kids@.len(),
                        pick_texts(coll@) == head + picks_list(scene@, pt2, ids.take(i as int), (fuel - 1) as nat),
                    decreases kids@.len() - i,
                {
                    assert(ids.take(i + 1).drop_last() =~= ids.take(i as int));
                    assert(ids.take(i + 1).last() == kids@[i as int]@);
                    let mut more = pick_at_view(scene, &pt2, &kids[i], fuel - 1);
                    let ghost before = coll@;
                    let ghost added = more@;
                    coll.append(&mut more);
                    assert(pick_texts(coll@) =~= pick_texts(before) + pick_texts(added)) by {
                        assert(coll@ =~= before + added);
                    }
                    i += 1;
                }
                assert(ids.take(kids@.len() as int) =~= ids);
            } else {
                assert(pick_texts(coll@) =~= Seq::<(Seq<char>, Point)>::empty());
            }
        },
    }
    coll
}

/// The views under `pt`, from the root down, each with the point in its
/// parent's coordinates; the last one is the innermost.
pub fn pick_at(scene: &Scene, pt: &Point) -> (r: Vec<(ViewId, Point)>)
    ensures
        pick_texts(r@) == picks_at(scene@, *pt),
{
    let root = scene.root_id();
    let fuel = scene.depth();
    pick_at_view(scene, pt, &root, fuel)
}

/// The state of `t`, when it exists.
pub open spec fn state_of(m: SceneModel, t: Seq<char>) -> Option<ViewState> {
    if m.views.contains_key(t) {
        m.views[t].state
    } else {
        None
    }
}

/// `m` with the state of the existing view `t` replaced.
pub open spec fn with_state(m: SceneModel, t: Seq<char>, s: ViewState) -> SceneModel {
    SceneModel { views: m.views.insert(t, View { state: Some(s), ..m.views[t] }), ..m }
}

/// A button focuses itself on a tap and answers with its command.
pub open spec fn button_effect(m: SceneModel, t: Seq<char>, ev: InputEvent) -> (SceneModel, Option<Seq<char>>) {
    match ev {
        InputEvent::Tap(_) => {
            let m1 = focus_on(m, t);
            match state_of(m1, t) {
                Some(ViewState::Button(b)) => (m1, Some(b.command_text())),
                _ => (m1, None),
            }
        },
        _ => (m, None),
    }
}

/// A toggle button flips its selected flag on any event and is redrawn.
pub open spec fn toggle_effect(m: SceneModel, t: Seq<char>) -> SceneModel {
    let m1 = match state_of(m, t) {
        Some(ViewState::Selected(s)) => with_state(m, t, ViewState::Selected(SelectedState { selected: !s.selected })),
        _ => m,
    };
    dirty_view(m1, t)
}

/// Which of `len` equal cells across the width of `b` holds the column
/// `x`: none when the arithmetic faults (division by zero or overflow);
/// some none when `x` is outside the cells.
pub open spec fn cell_index(b: Bounds, len: nat, x: i32) -> Option<Option<int>> {
    let c = len as i32;
    if c == 0 || (b.size.w == i32::MIN && c == -1) {
        None
    } else {
        let cell = tdiv(b.size.w as int, c as int);
        if !fits(x - b.position.x) {
            None
        } else {
            let dx = x - b.position.x;
            if cell == 0 || (dx == i32::MIN && cell == -1) {
                None
            } else {
                let n = tdiv(dx, cell);
                if 0 <= n && n < c {
                    Some(Some(n))
                } else {
                    Some(None)
                }
            }
        }
    }
}

/// The scene after a choice handler of `t` faults: the handler has already
/// marked the view for redrawing and focused it, and has changed nothing
/// else.
#[verifier::opaque]
pub open spec fn marked_and_focused(m: SceneModel, t: Seq<char>) -> SceneModel {
    focus_on(dirty_view(m, t), t)
}

/// The scene after the handler of `kind` for `t` faults: a text field
/// faults before it changes anything; the choice handlers have marked and
/// focused their view.
pub open spec fn after_fault(m: SceneModel, t: Seq<char>, kind: InputKind) -> SceneModel {
    if kind == InputKind::TextInput {
        m
    } else {
        marked_and_focused(m, t)
    }
}

/// A tap on a toggle group (or, with `list`, a list view): the view is
/// redrawn and focused, then the tapped cell becomes the selected one and
/// its item is the answer. None when the arithmetic faults.
pub open spec fn select_effect(m: SceneModel, t: Seq<char>, pt: Point, list: bool) -> Option<
    (SceneModel, Option<Seq<char>>),
> {
    let m1 = focus_on(dirty_view(m, t), t);
    if !m1.views.contains_key(t) {
        Some((m1, None))
    } else {
        let v = m1.views[t];
        match v.state {
            Some(ViewState::SelectOneOf(st)) => if list {
                Some((m1, None))
            } else {
                match cell_index(v.bounds, st.items@.len(), pt.x) {
                    None => None,
                    Some(None) => Some((m1, None)),
                    Some(Some(n)) => Some(
                        (
                            with_state(
                                m1,
                                t,
                                ViewState::SelectOneOf(SelectOneOfState { items: st.items, selected: n as usize }),
                            ),
                            Some(st.items@[n]@),
                        ),
                    ),
                }
            },
            Some(ViewState::List(st)) => if !list {
                Some((m1, None))
            } else {
                match cell_index(v.bounds, st.items@.len(), pt.x) {
                    None => None,
                    Some(None) => Some((m1, None)),
                    Some(Some(n)) => Some(
                        (
                            with_state(m1, t, ViewState::List(SelectOneOf { items: st.items, selected: n as usize })),
                            Some(st.items@[n]@),
                        ),
                    ),
                }
            },
            _ => Some((m1, None)),
        }
    }
}

/// A toggle group reacts to taps only.
pub open spec fn group_effect(m: SceneModel, t: Seq<char>, ev: InputEvent, list: bool) -> Option<
    (SceneModel, Option<Seq<char>>),
> {
    match ev {
        InputEvent::Tap(pt) => select_effect(m, t, pt, list),
        _ => Some((m, None)),
    }
}

/// The text `tabs`, the id of the tab row of a tabbed panel.
pub open spec fn tabs_text() -> Seq<char> {
    seq!['t', 'a', 'b', 's']
}

/// `m` with each view of `ids` except `keep` hidden, in turn.
pub open spec fn hide_all_but(m: SceneModel, ids: Seq<Seq<char>>, keep: Seq<char>) -> SceneModel
    decreases ids.len(),
{
    if ids.len() == 0 {
        m
    } else {
        let m1 = hide_all_but(m, ids.drop_last(), keep);
        if ids.last() == keep {
            m1
        } else {
            set_visible(m1, ids.last(), false)
        }
    }
}

/// The tab row of a tabbed panel: it acts as a toggle group, and when a tab
/// is chosen it hides every sibling but itself and shows the content panel
/// registered for the chosen tab. It never answers.
pub open spec fn tabs_effect(m: SceneModel, t: Seq<char>, ev: InputEvent) -> Option<SceneModel> {
    match group_effect(m, t, ev, false) {
        None => None,
        Some((m1, None)) => Some(m1),
        Some((m1, Some(cmd))) => match locate_in(m1, t) {
            Some((_, Some(container))) => {
                let m2 = hide_all_but(m1, children_of(m1.kids, container), tabs_text());
                match state_of(m2, container) {
                    Some(ViewState::Tabs(tp)) => if tp.panels().contains_key(cmd) {
                        Some(set_visible(m2, tp.panels()[cmd], true))
                    } else {
                        Some(m2)
                    },
                    _ => Some(m2),
                }
            },
            _ => Some(m1),
        },
    }
}

/// The text `Completed`, the answer of a text field to the return key.
pub open spec fn completed_text() -> Seq<char> {
    seq!['C', 'o', 'm', 'p', 'l', 'e', 't', 'e', 'd']
}

/// A text field: a tap focuses it; the return key (13) answers `Completed`;
/// other keys edit its state and redraw it. A typed key on a view without a
/// text-field state still redraws it.
pub open spec fn text_effect(m: SceneModel, t: Seq<char>, ev: InputEvent, m2: SceneModel, act: Option<Seq<char>>) -> bool {
    match ev {
        InputEvent::Tap(_) => m2 == focus_on(m, t) && act is None,
        InputEvent::Scroll(_) => m2 == m && act is None,
        InputEvent::Text(a) => match state_of(m, t) {
            Some(ViewState::TextInput(s)) => if a == TextAction::TypedAscii(13) {
                m2 == m && act == Some(completed_text())
            } else {
                act is None && exists|s2: TextInputState| #[trigger]
                    text_edit(s, a, s2) && m2 == dirty_view(with_state(m, t, ViewState::TextInput(s2)), t)
            },
            _ => act is None && (if a is TypedAscii {
                m2 == dirty_view(m, t)
            } else {
                m2 == m
            }),
        },
    }
}

/// Whether the event handler of `kind` faults on `ev` sent to `t`.
pub open spec fn input_faults(m: SceneModel, t: Seq<char>, kind: InputKind, ev: InputEvent) -> bool {
    match kind {
        InputKind::ToggleGroup => group_effect(m, t, ev, false) is None,
        InputKind::List => group_effect(m, t, ev, true) is None,
        InputKind::Tabs => tabs_effect(m, t, ev) is None,
        InputKind::TextInput => text_faults(m, t, ev),
        _ => false,
    }
}

/// A key sent to a text field that cannot apply it (see `edit_fails`); the
/// return key always applies.
pub open spec fn text_faults(m: SceneModel, t: Seq<char>, ev: InputEvent) -> bool {
    match ev {
        InputEvent::Text(a) => match state_of(m, t) {
            Some(ViewState::TextInput(s)) => a != TextAction::TypedAscii(13) && edit_fails(s, a),
            _ => false,
        },
        _ => false,
    }
}

/// The handler of `kind`, given `ev` sent to `t` in `m`, leaves the scene
/// `m2` and answers `act` (the text of the command, if any).
#[verifier::opaque]
pub open spec fn input_effect(
    m: SceneModel,
    t: Seq<char>,
    kind: InputKind,
    ev: InputEvent,
    m2: SceneModel,
    act: Option<Seq<char>>,
) -> bool {
    match kind {
        InputKind::Button => (m2, act) == button_effect(m, t, ev),
        InputKind::ToggleButton => m2 == toggle_effect(m, t) && act is None,
        InputKind::ToggleGroup => group_effect(m, t, ev, false) == Some((m2, act)),
        InputKind::List => group_effect(m, t, ev, true) == Some((m2, act)),
        InputKind::Tabs => tabs_effect(m, t, ev) == Some(m2) && act is None,
        InputKind::TextInput => text_effect(m, t, ev, m2, act),
        InputKind::Custom => custom_effect(m, t, m2, act),
    }
}

/// `m` after the view `t`, of the application's own making, has been given
/// the state `s` and the title `title`, and marked for redrawing.
pub open spec fn custom_after(m: SceneModel, t: Seq<char>, s: ViewState, title: String) -> SceneModel {
    dirty_view(SceneModel { views: m.views.insert(t, View { state: Some(s), title, ..m.views[t] }), ..m }, t)
}

/// `custom_after`, and then the view focused where it takes the focus.
pub open spec fn custom_outcome(m: SceneModel, t: Seq<char>, s: ViewState, title: String, focus: bool) -> SceneModel {
    if focus {
        focus_on(custom_after(m, t, s, title), t)
    } else {
        custom_after(m, t, s, title)
    }
}

/// A view of the application's own making gets the event through its own
/// behaviour (`CustomView::input`), which may change its state and its
/// title, answers whatever it answers and says whether the view takes the
/// focus; the view is marked for redrawing, then focused if it takes the
/// focus. A view without such state does nothing.
pub open spec fn custom_effect(m: SceneModel, t: Seq<char>, m2: SceneModel, act: Option<Seq<char>>) -> bool {
    match state_of(m, t) {
        Some(ViewState::Custom(_)) => exists|s: ViewState, title: String, focus: bool|
            s is Custom && #[trigger] custom_outcome(m, t, s, title, focus) == m2,
        _ => m2 == m && act is None,
    }
}

/// The text of an optional command.
pub open spec fn command_text(a: Option<String>) -> Option<Seq<char>> {
    match a {
        Some(s) => Some(s@),
        None => None,
    }
}

fn button_input(scene: &mut Scene, t: &ViewId, ev: &InputEvent) -> (r: Option<String>)
    ensures
        (final(scene)@, command_text(r)) == button_effect(old(scene)@, t@, *ev),
{
    match ev {
        InputEvent::Tap(_) => {
            scene.set_focused(t);
            match scene.get_view_state(t) {
                Some(ViewState::Button(b)) => Some(b.command()),
                _ => None,
            }
        },
        _ => None,
    }
}

fn toggle_input(scene: &mut Scene, t: &ViewId)
    ensures
        final(scene)@ == toggle_effect(old(scene)@, t@),
{
    let ghost m = scene@;
    match scene.take_view(t) {
        None => {
            assert(scene@.views =~= m.views);
        },
        Some(mut v) => {
                    match v.state {
                Some(ViewState::Selected(s)) => {
                    v.state = Some(ViewState::Selected(SelectedState { selected: !s.selected }));
                },
                _ => {},
            }
            scene.put_view(t.clone(), v);
            assert(scene@.views =~= toggle_effect_views(m, t@));
            assert(scene@ == (match state_of(m, t@) {
                Some(ViewState::Selected(s)) => with_state(m, t@, ViewState::Selected(SelectedState { selected: !s.selected })),
                _ => m,
            })) by {
                match state_of(m, t@) {
                    Some(ViewState::Selected(s)) => {},
                    _ => {
                        assert(scene@.views =~= m.views);
                    },
                }
            }
        },
    }
    scene.mark_dirty_view(t);
}

/// The views of `toggle_effect` before the redraw.
spec fn toggle_effect_views(m: SceneModel, t: Seq<char>) -> Map<Seq<char>, View> {
    match state_of(m, t) {
        Some(ViewState::Selected(s)) => m.views.insert(
            t,
            View { state: Some(ViewState::Selected(SelectedState { selected: !s.selected })), ..m.views[t] },
        ),
        _ => m.views.insert(t, m.views[t]),
    }
}

/// Which of `len` cells across `b` holds `x` (see `cell_index`).
fn pick_cell(b: Bounds, len: usize, x: i32) -> (r: Result<Option<usize>, ArithmeticFault>)
    ensures
        match (r, cell_index(b, len as nat, x)) {
            (Err(_), None) => true,
            (Ok(None), Some(None)) => true,
            (Ok(Some(i)), Some(Some(n))) => i == n && i < len,
            _ => false,
        },
{
    let c = len as i32;
    if c == 0 || (b.size.w == i32::MIN && c == -1) {
        return Err(ArithmeticFault);
    }
    let cell = div_i32(b.size.w, c);
    let dx = match x.checked_sub(b.position.x) {
        Some(d) => d,
        None => return Err(ArithmeticFault),
    };
    if cell == 0 || (dx == i32::MIN && cell == -1) {
        return Err(ArithmeticFault);
    }
    let n = div_i32(dx, cell);
    if 0 <= n && n < c {
        assert(c > 0 ==> c as usize <= len) by (bit_vector)
            requires
                c == len as i32,
        ;
        Ok(Some(n as usize))
    } else {
        Ok(None)
    }
}

fn select_input(scene: &mut Scene, t: &ViewId, pt: Point, list: bool) -> (r: Result<Option<String>, ArithmeticFault>)
    ensures
        r is Err ==> final(scene)@ == marked_and_focused(old(scene)@, t@),
        match (r, select_effect(old(scene)@, t@, pt, list)) {
            (Err(_), None) => true,
            (Ok(a), Some((m2, sa))) => final(scene)@ == m2 && command_text(a) == sa,
            _ => false,
        },
{
    scene.mark_dirty_view(t);
    scene.set_focused(t);
    let ghost m1 = scene@;
    proof {
        reveal(marked_and_focused);
    }
    let mut v = match scene.take_view(t) {
        None => {
            assert(scene@.views =~= m1.views);
            return Ok(None);
        },
        Some(v) => v,
    };
    let b = v.bounds;
    let mut res: Result<Option<String>, ArithmeticFault> = Ok(None);
    match &mut v.state {
        Some(ViewState::SelectOneOf(st)) => {
            if !list {
                match pick_cell(b, st.items.len(), pt.x) {
                    Err(e) => {
                        res = Err(e);
                    },
                    Ok(None) => {},
                    Ok(Some(n)) => {
                        st.selected = n;
                        res = Ok(Some(st.items[n].clone()));
                    },
                }
            }
        },
        Some(ViewState::List(st)) => {
            if list {
                match pick_cell(b, st.items.len(), pt.x) {
                    Err(e) => {
                        res = Err(e);
                    },
                    Ok(None) => {},
                    Ok(Some(n)) => {
                        st.selected = n;
                        res = Ok(Some(st.items[n].clone()));
                    },
                }
            }
        },
        _ => {},
    }
    scene.put_view(t.clone(), v);
    proof {
        let sv = m1.views[t@];
        match sv.state {
            Some(ViewState::SelectOneOf(st)) => {
                if !list {
                    match cell_index(sv.bounds, st.items@.len(), pt.x) {
                        Some(Some(n)) => {
                            assert(scene@.views =~= with_state(
                                m1,
                                t@,
                                ViewState::SelectOneOf(SelectOneOfState { items: st.items, selected: n as usize }),
                            ).views);
                        },
                        _ => {
                            assert(scene@.views =~= m1.views);
                        },
                    }
                } else {
                    assert(scene@.views =~= m1.views);
                }
            },
            Some(ViewState::List(st)) => {
                if list {
                    match cell_index(sv.bounds, st.items@.len(), pt.x) {
                        Some(Some(n)) => {
                            assert(scene@.views =~= with_state(
                                m1,
                                t@,
                                ViewState::List(SelectOneOf { items: st.items, selected: n as usize }),
                            ).views);
                        },
                        _ => {
                            assert(scene@.views =~= m1.views);
                        },
                    }
                } else {
                    assert(scene@.views =~= m1.views);
                }
            },
            _ => {
                assert(scene@.views =~= m1.views);
            },
        }
    }
    res
}

fn group_input(scene: &mut Scene, t: &ViewId, ev: &InputEvent, list: bool) -> (r: Result<Option<String>, ArithmeticFault>)
    ensures
        r is Err ==> final(scene)@ == marked_and_focused(old(scene)@, t@),
        match (r, group_effect(old(scene)@, t@, *ev, list)) {
            (Err(_), None) => true,
            (Ok(a), Some((m2, sa))) => final(scene)@ == m2 && command_text(a) == sa,
            _ => false,
        },
{
    match ev {
        InputEvent::Tap(pt) => select_input(scene, t, *pt, list),
        _ => Ok(None),
    }
}

/// Hides each view of `ids` except the one named `tabs`, in turn.
fn hide_siblings(scene: &mut Scene, ids: &Vec<ViewId>)
    ensures
        final(scene)@ == hide_all_but(old(scene)@, ids.deep_view(), tabs_text()),
{
    let ghost m0 = scene@;
    let ghost s = ids.deep_view();
    let keep = ViewId::new("tabs");
    proof {
        reveal_strlit("tabs");
        assert(keep@ =~= tabs_text());
    }
    let mut i: usize = 0;
    while i < ids.len()
        invariant
            i <= ids@.len(),
            s == ids.deep_view(),
            s.len() == ids@.len(),
            keep@ == tabs_text(),
            scene@ == hide_all_but(m0, s.take(i as int), tabs_text()),
        decreases ids@.len() - i,
    {
        assert(s.take(i + 1).drop_last() =~= s.take(i as int));
        assert(s.take(i + 1).last() == ids@[i as int]@);
        if !ids[i].same_as(&keep) {
            scene.hide_view(&ids[i]);
        }
        i += 1;
    }
    assert(s.take(ids@.len() as int) =~= s);
}

fn tabs_input(scene: &mut Scene, t: &ViewId, ev: &InputEvent) -> (r: Result<(), ArithmeticFault>)
    ensures
        r is Err ==> final(scene)@ == marked_and_focused(old(scene)@, t@),
        match (r, tabs_effect(old(scene)@, t@, *ev)) {
            (Err(_), None) => true,
            (Ok(_), Some(m2)) => final(scene)@ == m2,
            _ => false,
        },
{
    let res = group_input(scene, t, ev, false)?;
    match res {
        None => Ok(()),
        Some(cmd) => {
            let container = match scene.get_parent_for_view(t) {
                Some(c) => c,
                None => return Ok(()),
            };
            let kids = scene.get_children_ids(&container);
            hide_siblings(scene, &kids);
            let panel = match scene.get_view_state(&container) {
                Some(ViewState::Tabs(tp)) => tp.panel_for(&cmd),
                _ => None,
            };
            match panel {
                Some(p) => scene.show_view(&p),
                None => {},
            }
            Ok(())
        },
    }
}

fn text_input(scene: &mut Scene, t: &ViewId, ev: &InputEvent) -> (r: Result<Option<String>, ArithmeticFault>)
    ensures
        r is Err <==> text_faults(old(scene)@, t@, *ev),
        r is Err ==> final(scene)@ == old(scene)@,
        r matches Ok(a) ==> text_effect(old(scene)@, t@, *ev, final(scene)@, command_text(a)),
{
    let ghost m = scene@;
    match ev {
        InputEvent::Tap(_) => {
            scene.set_focused(t);
            Ok(None)
        },
        InputEvent::Scroll(_) => Ok(None),
        InputEvent::Text(a) => {
            let fails = match scene.get_view_state(t) {
                Some(ViewState::TextInput(s)) => Some(s.edit_would_fail(*a)),
                _ => None,
            };
            let fails = match fails {
                None => {
                    match a {
                        TextAction::TypedAscii(_) => scene.mark_dirty_view(t),
                        _ => {},
                    }
                    return Ok(None);
                },
                Some(f) => f,
            };
            if *a == TextAction::TypedAscii(13) {
                let r = String::from_str("Completed");
                proof {
                    reveal_strlit("Completed");
                    assert(r@ =~= completed_text());
                }
                return Ok(Some(r));
            }
            if fails {
                return Err(ArithmeticFault);
            }
            let mut v = scene.take_view(t).unwrap();
            match &mut v.state {
                Some(ViewState::TextInput(s)) => {
                    s.apply(*a);
                },
                _ => {},
            }
            let ghost v2 = v;
            scene.put_view(t.clone(), v);
            proof {
                match (state_of(m, t@), v2.state) {
                    (Some(ViewState::TextInput(s)), Some(ViewState::TextInput(s2))) => {
                        assert(text_edit(s, *a, s2));
                        assert(scene@ == with_state(m, t@, ViewState::TextInput(s2))) by {
                            assert(scene@.views =~= with_state(m, t@, ViewState::TextInput(s2)).views);
                        }
                    },
                    _ => {},
                }
            }
            scene.mark_dirty_view(t);
            Ok(None)
        },
    }
}

/// Sends `ev` to the handler of `kind` for the view `t`, and hands back the
/// command it answers with. The error stands for the fault of the
/// choice handlers (an arithmetic fault) or of a text field (a key that
/// would cut a character); see `input_faults` and `after_fault`.
pub fn dispatch_input(scene: &mut Scene, t: &ViewId, kind: InputKind, ev: &InputEvent) -> (r: Result<
    Option<String>,
    ArithmeticFault,
>)
    ensures
        r is Err <==> input_faults(old(scene)@, t@, kind, *ev),
        r is Err ==> final(scene)@ == after_fault(old(scene)@, t@, kind),
        r matches Ok(a) ==> input_effect(old(scene)@, t@, kind, *ev, final(scene)@, command_text(a)),
{
    proof {
        reveal(input_effect);
    }
    match kind {
        InputKind::Button => Ok(button_input(scene, t, ev)),
        InputKind::ToggleButton => {
            toggle_input(scene, t);
            Ok(None)
        },
        InputKind::ToggleGroup => group_input(scene, t, ev, false),
        InputKind::List => group_input(scene, t, ev, true),
        InputKind::Tabs => {
            tabs_input(scene, t, ev)?;
            Ok(None)
        },
        InputKind::TextInput => text_input(scene, t, ev),
        InputKind::Custom => Ok(custom_input(scene, t, ev)),
    }
}

fn custom_input(scene: &mut Scene, t: &ViewId, ev: &InputEvent) -> (r: Option<String>)
    ensures
        custom_effect(old(scene)@, t@, final(scene)@, command_text(r)),
{
    let ghost m = scene@;
    let is_custom = match scene.get_view_state(t) {
        Some(ViewState::Custom(_)) => true,
        _ => false,
    };
    if !is_custom {
        return None;
    }
    let mut v = scene.take_view(t).unwrap();
    let mut title = v.title.clone();
    let bounds = v.bounds;
    let mut st = v.state.take();
    let (a, focus) = match &mut st {
        Some(ViewState::Custom(c)) => c.input(&mut title, bounds, ev),
        _ => (None, false),
    };
    v.state = st;
    v.title = title;
    let ghost v2 = v;
    scene.put_view(t.clone(), v);
    assert(scene@.views =~= m.views.insert(t@, v2));
    scene.mark_dirty_view(t);
    let ghost m1 = scene@;
    if focus {
        scene.set_focused(t);
    }
    proof {
        if v2.state is Some {
            let s2 = v2.state->0;
            assert(v2 == (View { state: Some(s2), title: v2.title, ..m.views[t@] }));
            if s2 is Custom {
                assert(custom_after(m, t@, s2, v2.title) == m1);
                assert(custom_outcome(m, t@, s2, v2.title, focus) == scene@);
            }
        }
    }
    a
}

/// The answer of a handler, as an event result naming `t`.
pub open spec fn result_matches(res: Option<EventResult>, t: Seq<char>, act: Option<Seq<char>>) -> bool {
    match res {
        Some((id, OutputAction::Command(c))) => id@ == t && act == Some(c@),
        None => act is None,
    }
}

/// Taps the innermost visible view under `pt` (see `pick_at`): its handler,
/// if it has one, receives the tap with the point in its parent's
/// coordinates. Hands back the tapped view and its answer, if any. The
/// error stands for an arithmetic fault of the handler, which by then has
/// marked the view for redrawing and focused it (see `after_fault`).
pub fn click_at(scene: &mut Scene, pt: Point) -> (r: Result<Option<EventResult>, ArithmeticFault>)
    ensures
        ({
            let ps = picks_at(old(scene)@, pt);
            if ps.len() == 0 {
                r == Ok::<Option<EventResult>, ArithmeticFault>(None) && final(scene)@ == old(scene)@
            } else {
                let t = ps.last().0;
                let ev = InputEvent::Tap(ps.last().1);
                if old(scene)@.views.contains_key(t) && old(scene)@.views[t].input is Some {
                    let kind = old(scene)@.views[t].input.unwrap();
                    &&& r is Err <==> input_faults(old(scene)@, t, kind, ev)
                    &&& r is Err ==> final(scene)@ == after_fault(old(scene)@, t, kind)
                    &&& r matches Ok(res) ==> exists|act: Option<Seq<char>>|
                        #[trigger] result_matches(res, t, act) && input_effect(old(scene)@, t, kind, ev, final(scene)@, act)
                } else {
                    r == Ok::<Option<EventResult>, ArithmeticFault>(None) && final(scene)@ == old(scene)@
                }
            }
        }),
{
    let targets = pick_at(scene, &pt);
    let n = targets.len();
    if n == 0 {
        return Ok(None);
    }
    let target = targets[n - 1].0.clone();
    let tpt = targets[n - 1].1;
    assert(pick_texts(targets@)[n - 1] == (targets@[n - 1].0@, targets@[n - 1].1));
    let kind = match scene.get_view(&target) {
        Some(v) => v.input,
        None => None,
    };
    match kind {
        None => Ok(None),
        Some(k) => {
            let a = dispatch_input(scene, &target, k, &InputEvent::Tap(tpt))?;
            match a {
                Some(c) => {
                    let res = Some((target, OutputAction::Command(c)));
                    assert(result_matches(res, target@, Some(c@)));
                    Ok(res)
                },
                None => {
                    assert(result_matches(None, target@, None));
                    Ok(None)
                },
            }
        },
    }
}

/// Sends the event to the focused view's handler, if a view is focused,
/// exists and has one. Hands back the focused view and its answer, if any.
/// The error stands for an arithmetic fault of the handler (see
/// `after_fault`).
pub fn event_at_focused(scene: &mut Scene, event_type: &InputEvent) -> (r: Result<Option<EventResult>, ArithmeticFault>)
    ensures
        ({
            let m = old(scene)@;
            match m.focused {
                Some(t) => if m.views.contains_key(t) && m.views[t].input is Some {
                    let kind = m.views[t].input.unwrap();
                    &&& r is Err <==> input_faults(m, t, kind, *event_type)
                    &&& r is Err ==> final(scene)@ == after_fault(m, t, kind)
                    &&& r matches Ok(res) ==> exists|act: Option<Seq<char>>|
                        #[trigger] result_matches(res, t, act) && input_effect(m, t, kind, *event_type, final(scene)@, act)
                } else {
                    r == Ok::<Option<EventResult>, ArithmeticFault>(None) && final(scene)@ == m
                },
                None => r == Ok::<Option<EventResult>, ArithmeticFault>(None) && final(scene)@ == m,
            }
        }),
{
    let focused = match scene.get_focused() {
        Some(f) => f,
        None => return Ok(None),
    };
    let kind = match scene.get_view(&focused) {
        Some(v) => v.input,
        None => None,
    };
    match kind {
        None => Ok(None),
        Some(k) => {
            let a = dispatch_input(scene, &focused, k, event_type)?;
            match a {
                Some(c) => {
                    let res = Some((focused, OutputAction::Command(c)));
                    assert(result_matches(res, focused@, Some(c@)));
                    Ok(res)
                },
                None => {
                    assert(result_matches(None, focused@, None));
                    Ok(None)
                },
            }
        },
    }
}


/// Pressing a toggle button twice leaves every view as it was.
pub proof fn law_toggle_twice(m: SceneModel, t: Seq<char>)
    ensures
        toggle_effect(toggle_effect(m, t), t).views == m.views,
{
    let m1 = match state_of(m, t) {
        Some(ViewState::Selected(s)) => with_state(m, t, ViewState::Selected(SelectedState { selected: !s.selected })),
        _ => m,
    };
    law_dirty_view_marks(m1, t);
    let m2 = toggle_effect(m, t);
    assert(m2.views == m1.views);
    let m3 = match state_of(m2, t) {
        Some(ViewState::Selected(s)) => with_state(m2, t, ViewState::Selected(SelectedState { selected: !s.selected })),
        _ => m2,
    };
    law_dirty_view_marks(m3, t);
    if let Some(ViewState::Selected(s)) = state_of(m, t) {
        assert(m.views[t] == (View { state: Some(ViewState::Selected(SelectedState { selected: !!s.selected })), ..m.views[t] }));
        assert(m3.views =~= m.views);
    }
}

/// `e` names a visible view that holds its point.
pub open spec fn is_hit(m: SceneModel, e: (Seq<char>, Point)) -> bool {
    exists|k: Seq<char>|
        #![trigger m.views[k]]
        m.views.contains_key(k) && m.views[k].name@ == e.0 && m.views[k].visible && bounds_hold(m.views[k].bounds, e.1)
}

proof fn lemma_picks_hit(m: SceneModel, pt: Point, id: Seq<char>, fuel: nat)
    ensures
        forall|i: int| 0 <= i < picks(m, pt, id, fuel).len() ==> is_hit(m, #[trigger] picks(m, pt, id, fuel)[i]),
    decreases fuel, 0nat,
{
    if fuel > 0 && m.views.contains_key(id) {
        let v = m.views[id];
        if bounds_hold(v.bounds, pt) && v.visible {
            let pt2 = point_minus(pt, v.bounds.position);
            let ids = children_of(m.kids, v.name@);
            lemma_picks_list_hit(m, pt2, ids, (fuel - 1) as nat);
            let head = seq![(v.name@, pt)];
            let rest = picks_list(m, pt2, ids, (fuel - 1) as nat);
            assert(m.views[id] == v);
            assert(is_hit(m, (v.name@, pt)));
            assert forall|i: int| 0 <= i < (head + rest).len() implies is_hit(m, #[trigger] (head + rest)[i]) by {
                if i > 0 {
                    assert((head + rest)[i] == rest[i - 1]);
                }
            }
        }
    }
}

proof fn lemma_picks_list_hit(m: SceneModel, pt: Point, ids: Seq<Seq<char>>, fuel: nat)
    ensures
        forall|i: int| 0 <= i < picks_list(m, pt, ids, fuel).len() ==> is_hit(m, #[trigger] picks_list(m, pt, ids, fuel)[i]),
    decreases fuel, ids.len() + 1,
{
    if ids.len() > 0 {
        lemma_picks_list_hit(m, pt, ids.drop_last(), fuel);
        lemma_picks_hit(m, pt, ids.last(), fuel);
        let a = picks_list(m, pt, ids.drop_last(), fuel);
        let b = picks(m, pt, ids.last(), fuel);
        assert forall|i: int| 0 <= i < (a + b).len() implies is_hit(m, #[trigger] (a + b)[i]) by {
            if i >= a.len() {
                assert((a + b)[i] == b[i - a.len()]);
            }
        }
    }
}

/// Hit testing finds only visible views that hold the point: every view that
/// `pick_at` lists is visible and contains the point, taken in its parent's
/// coordinates.
pub proof fn law_picks_are_hits(m: SceneModel, pt: Point)
    ensures
        forall|i: int| 0 <= i < picks_at(m, pt).len() ==> is_hit(m, #[trigger] picks_at(m, pt)[i]),
{
    lemma_picks_hit(m, pt, m.root, depth_limit(m.views));
}

/// Typing a character into a text field and then deleting back gives the
/// field back as it was.
pub proof fn law_type_then_delete_back(s: TextInputState, k: u8, s2: TextInputState, s3: TextInputState)
    requires
        k != 8,
        !edit_fails(s, TextAction::TypedAscii(k)),
        text_edit(s, TextAction::TypedAscii(k), s2),
        text_edit(s2, TextAction::BackDelete, s3),
    ensures
        s3.chars() == s.chars(),
        s3.at() == s.at(),
{
    let i = char_index(s.chars(), s.at() as int)->0;
    lemma_char_index_found(s.chars(), s.at() as int);
    lemma_byte_len_insert(s.chars(), i, k as char);
    lemma_char_index_is(s2.chars(), s.at() as int, i);
    assert(s2.chars().remove(i) =~= s.chars());
}

/// In an ASCII text, with the cursor anywhere in it, typing an ASCII
/// character other than backspace always succeeds, and deleting back then
/// gives the field back as it was. (The text's length in bytes, one more,
/// must still fit in `usize`.)
pub proof fn law_ascii_type_then_delete_back(s: TextInputState, k: u8, s2: TextInputState, s3: TextInputState)
    requires
        ascii_text(s.chars()),
        s.at() <= s.chars().len(),
        k < 128,
        k != 8,
        byte_len(s.chars()) + 1 <= usize::MAX,
        text_edit(s, TextAction::TypedAscii(k), s2),
        text_edit(s2, TextAction::BackDelete, s3),
    ensures
        !edit_fails(s, TextAction::TypedAscii(k)),
        s3.chars() == s.chars(),
        s3.at() == s.at(),
{
    lemma_ascii_index(s.chars(), s.at() as int);
    lemma_ascii_index(s.chars(), s.chars().len() as int);
    assert(s.chars().take(s.chars().len() as int) =~= s.chars());
    assert(crate::text_input::char_width(k as char) == 1);
    law_type_then_delete_back(s, k, s2, s3);
}

/// Moving a choice row and a tap across by the same amount leaves the tapped
/// cell the same: the cell depends only on where the tap falls within the
/// row.
pub proof fn law_cell_moves_with_its_row(b: Bounds, len: nat, x: i32, d: int)
    requires
        fits(b.position.x + d),
        fits(x + d),
    ensures
        cell_index(
            Bounds { position: Point { x: (b.position.x + d) as i32, y: b.position.y }, size: b.size },
            len,
            (x + d) as i32,
        ) == cell_index(b, len, x),
{
}

/// A tap inside a row of `len` choices, each as wide as the row's width
/// divided by `len` (rounded down), falls in the cell that spans it: cell
/// `n` covers the columns from `n` cell widths past the row's left edge up
/// to one cell width further; a tap past the last whole cell falls in none.
/// (The row is at least one column wide per choice.)
pub proof fn law_tap_falls_in_its_cell(b: Bounds, len: nat, x: i32)
    requires
        0 < len <= i32::MAX,
        len <= b.size.w,
        b.position.x <= x < b.position.x + b.size.w,
    ensures
        ({
            let cw = (b.size.w as int) / (len as int);
            cell_index(b, len, x) matches Some(r) && match r {
                Some(n) => 0 <= n < len && b.position.x + n * cw <= x < b.position.x + (n + 1) * cw,
                None => x >= b.position.x + len * cw,
            }
        }),
{
    let c = len as i32;
    assert(c as int == len as int);
    let cw = (b.size.w as int) / (len as int);
    assert(cw >= 1) by (nonlinear_arith)
        requires
            len <= b.size.w,
            len > 0,
            cw == (b.size.w as int) / (len as int),
    ;
    assert(tdiv(b.size.w as int, c as int) == cw);
    let dx = x - b.position.x;
    assert(0 <= dx < b.size.w);
    let n = dx / cw;
    assert(tdiv(dx, cw) == n);
    assert(n * cw <= dx < (n + 1) * cw && n >= 0) by (nonlinear_arith)
        requires
            cw >= 1,
            dx >= 0,
            n == dx / cw,
    ;
    if n >= len {
        assert(len * cw <= n * cw) by (nonlinear_arith)
            requires
                n >= len,
                cw >= 1,
        ;
    }
}

/// Marking a view for redrawing changes no view.
proof fn lemma_dirty_keeps_views(m: SceneModel, id: Seq<char>)
    ensures
        dirty_view(m, id).views == m.views,
{
}

/// A tap inside a toggle group selects the item whose cell it falls in,
/// counted from the group's left edge in cells of the group's width divided
/// by the number of items (rounded down), and answers with that item; a tap
/// past the last whole cell selects nothing and answers nothing. Either way
/// the group is redrawn and focused, and its items are kept. (The group is
/// at least one column wide per item.)
pub proof fn law_tap_selects_the_tapped_item(m: SceneModel, t: Seq<char>, pt: Point, st: SelectOneOfState)
    requires
        m.views.contains_key(t),
        m.views[t].state == Some(ViewState::SelectOneOf(st)),
        0 < st.items@.len() <= i32::MAX,
        st.items@.len() <= m.views[t].bounds.size.w,
        m.views[t].bounds.position.x <= pt.x < m.views[t].bounds.position.x + m.views[t].bounds.size.w,
    ensures
        ({
            let b = m.views[t].bounds;
            let len = st.items@.len();
            let cw = (b.size.w as int) / (len as int);
            let m1 = focus_on(dirty_view(m, t), t);
            select_effect(m, t, pt, false) matches Some((m2, act)) && if pt.x < b.position.x + len * cw {
                let n = (pt.x - b.position.x) / cw;
                &&& 0 <= n < len
                &&& m2 == with_state(m1, t, ViewState::SelectOneOf(SelectOneOfState { items: st.items, selected: n as usize }))
                &&& act == Some(st.items@[n]@)
            } else {
                m2 == m1 && act is None
            }
        }),
{
    let b = m.views[t].bounds;
    let len = st.items@.len();
    law_tap_falls_in_its_cell(b, len, pt.x);
    let cw = (b.size.w as int) / (len as int);
    let m1 = focus_on(dirty_view(m, t), t);
    assert(m1.views == m.views) by {
        lemma_dirty_keeps_views(m, t);
        match m.focused {
            Some(fo) => lemma_dirty_keeps_views(m, fo),
            None => {},
        }
        let m0 = match m.focused {
            Some(fo) => dirty_view(m, fo),
            None => m,
        };
        lemma_dirty_keeps_views(SceneModel { focused: Some(t), ..m0 }, t);
    }
    assert(m1.views[t] == m.views[t]);
    assert(cw >= 1) by (nonlinear_arith)
        requires
            len <= b.size.w,
            len > 0,
            cw == (b.size.w as int) / (len as int),
    ;
    match cell_index(b, len, pt.x) {
        Some(Some(n)) => {
            assert(n == (pt.x - b.position.x) / cw) by (nonlinear_arith)
                requires
                    cw >= 1,
                    b.position.x + n * cw <= pt.x < b.position.x + (n + 1) * cw,
            ;
            assert((n + 1) * cw <= len * cw) by (nonlinear_arith)
                requires
                    n < len,
                    cw >= 1,
            ;
            assert(pt.x < b.position.x + len * cw);
        },
        _ => {
            assert(!(pt.x < b.position.x + len * cw));
        },
    }
}

/// A tap inside a list view selects the item whose cell it falls in, as in
/// a toggle group (see `law_tap_selects_the_tapped_item`): cells are counted
/// from the list's left edge, each as wide as the list's width divided by
/// the number of items (rounded down), and the tapped item is the answer.
pub proof fn law_tap_selects_the_tapped_list_item(m: SceneModel, t: Seq<char>, pt: Point, st: SelectOneOf)
    requires
        m.views.contains_key(t),
        m.views[t].state == Some(ViewState::List(st)),
        0 < st.items@.len() <= i32::MAX,
        st.items@.len() <= m.views[t].bounds.size.w,
        m.views[t].bounds.position.x <= pt.x < m.views[t].bounds.position.x + m.views[t].bounds.size.w,
    ensures
        ({
            let b = m.views[t].bounds;
            let len = st.items@.len();
            let cw = (b.size.w as int) / (len as int);
            let m1 = focus_on(dirty_view(m, t), t);
            select_effect(m, t, pt, true) matches Some((m2, act)) && if pt.x < b.position.x + len * cw {
                let n = (pt.x - b.position.x) / cw;
                &&& 0 <= n < len
                &&& m2 == with_state(m1, t, ViewState::List(SelectOneOf { items: st.items, selected: n as usize }))
                &&& act == Some(st.items@[n]@)
            } else {
                m2 == m1 && act is None
            }
        }),
{
    let b = m.views[t].bounds;
    let len = st.items@.len();
    law_tap_falls_in_its_cell(b, len, pt.x);
    let cw = (b.size.w as int) / (len as int);
    let m1 = focus_on(dirty_view(m, t), t);
    assert(m1.views == m.views) by {
        lemma_dirty_keeps_views(m, t);
        match m.focused {
            Some(fo) => lemma_dirty_keeps_views(m, fo),
            None => {},
        }
        let m0 = match m.focused {
            Some(fo) => dirty_view(m, fo),
            None => m,
        };
        lemma_dirty_keeps_views(SceneModel { focused: Some(t), ..m0 }, t);
    }
    assert(m1.views[t] == m.views[t]);
    assert(cw >= 1) by (nonlinear_arith)
        requires
            len <= b.size.w,
            len > 0,
            cw == (b.size.w as int) / (len as int),
    ;
    match cell_index(b, len, pt.x) {
        Some(Some(n)) => {
            assert(n == (pt.x - b.position.x) / cw) by (nonlinear_arith)
                requires
                    cw >= 1,
                    b.position.x + n * cw <= pt.x < b.position.x + (n + 1) * cw,
            ;
            assert((n + 1) * cw <= len * cw) by (nonlinear_arith)
                requires
                    n < len,
                    cw >= 1,
            ;
            assert(pt.x < b.position.x + len * cw);
        },
        _ => {
            assert(!(pt.x < b.position.x + len * cw));
        },
    }
}

} // verus!
