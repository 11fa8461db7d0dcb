//! The scene: every view of the interface keyed by its id, the child lists
//! that arrange them in a tree, the focused view, and the region of the
//! screen that must be redrawn.
use vstd::prelude::*;
use vstd::view::View as _;
use crate::geom::{
    bounds_empty, bounds_hold, empty_bounds, lemma_union_covers, point_plus, point_plus_ok, union_of, union_ok, Bounds,
    Point, Size,
};
use crate::tables::{child_entries, view_entries, ChildTable, ViewTable};
use crate::view::{
    noname, Align, DrawKind, Flex, InputKind, LayoutKind, View, ViewId, ViewState,
};

verus! {

/// What a scene is, as mathematics: its views keyed by id text, the child
/// list of each parent, its flags, its screen rectangle, the region to
/// redraw, the id of its root and of its focused view.
pub struct SceneModel {
    pub views: Map<Seq<char>, View>,
    pub kids: Map<Seq<char>, Seq<Seq<char>>>,
    pub dirty: bool,
    pub bounds: Bounds,
    pub dirty_rect: Bounds,
    pub root: Seq<char>,
    pub focused: Option<Seq<char>>,
    pub layout_dirty: bool,
}

/// The child ids of `id`; none when it has no child list.
pub open spec fn children_of(kids: Map<Seq<char>, Seq<Seq<char>>>, id: Seq<char>) -> Seq<Seq<char>> {
    if kids.contains_key(id) {
        kids[id]
    } else {
        Seq::empty()
    }
}

/// How deep a traversal of the scene descends: one level more than it has
/// views, which reaches every view of a scene whose child lists form a tree.
pub open spec fn depth_limit(views: Map<Seq<char>, View>) -> nat {
    if views.len() < usize::MAX {
        views.len() + 1
    } else {
        views.len()
    }
}

/// The id text of an optional id.
pub open spec fn opt_text(o: Option<ViewId>) -> Option<Seq<char>> {
    match o {
        Some(id) => Some(id@),
        None => None,
    }
}

/// The whole scene marked for redrawing.
pub open spec fn all_dirty(m: SceneModel) -> SceneModel {
    SceneModel { dirty_rect: m.bounds, dirty: true, ..m }
}

/// Where `target` sits in the tree below `node`, found depth first with the
/// children in order: the sum of the positions of its ancestors (none when
/// that sum leaves `i32`), and the id of its parent (none for `node`
/// itself). `off` is the sum of the positions above `node`. Only views that
/// exist are entered.
pub open spec fn locate(
    views: Map<Seq<char>, View>,
    kids: Map<Seq<char>, Seq<Seq<char>>>,
    target: Seq<char>,
    node: Seq<char>,
    off: Option<Point>,
    parent: Option<Seq<char>>,
    fuel: nat,
) -> Option<(Option<Point>, Option<Seq<char>>)>
    decreases fuel, 0nat,
{
    if fuel == 0 || !views.contains_key(node) {
        None
    } else if node == target {
        Some((off, parent))
    } else {
        let pos = views[node].bounds.position;
        let off2 = match off {
            Some(o) => if point_plus_ok(o, pos) {
                Some(point_plus(o, pos))
            } else {
                None
            },
            None => None,
        };
        locate_list(views, kids, target, children_of(kids, node), off2, Some(node), (fuel - 1) as nat)
    }
}

/// `locate` in each id of `ids` in turn; the first find wins.
pub open spec fn locate_list(
    views: Map<Seq<char>, View>,
    kids: Map<Seq<char>, Seq<Seq<char>>>,
    target: Seq<char>,
    ids: Seq<Seq<char>>,
    off: Option<Point>,
    parent: Option<Seq<char>>,
    fuel: nat,
) -> Option<(Option<Point>, Option<Seq<char>>)>
    decreases fuel, ids.len() + 1,
{
    if ids.len() == 0 {
        None
    } else {
        match locate_list(views, kids, target, ids.drop_last(), off, parent, fuel) {
            Some(r) => Some(r),
            None => locate(views, kids, target, ids.last(), off, parent, fuel),
        }
    }
}

/// Where `id` sits in the scene, searched from the root.
pub open spec fn locate_in(m: SceneModel, id: Seq<char>) -> Option<(Option<Point>, Option<Seq<char>>)> {
    locate(m.views, m.kids, id, m.root, Some(Point { x: 0, y: 0 }), None, depth_limit(m.views))
}

/// `m` with the screen rectangle of the view `id` added to the region to
/// redraw. When the view is not in the tree below the root, or its screen
/// rectangle or the grown region cannot be represented, the whole scene is
/// marked instead.
pub open spec fn dirty_view(m: SceneModel, id: Seq<char>) -> SceneModel {
    match locate_in(m, id) {
        Some((Some(off), _)) => {
            let b = m.views[id].bounds;
            if point_plus_ok(b.position, off) {
                let abs = Bounds { position: point_plus(b.position, off), size: b.size };
                if union_ok(m.dirty_rect, abs) {
                    SceneModel { dirty_rect: union_of(m.dirty_rect, abs), dirty: true, ..m }
                } else {
                    all_dirty(m)
                }
            } else {
                all_dirty(m)
            }
        },
        _ => all_dirty(m),
    }
}

/// `m` with `id` focused; the previously focused view and the new one are
/// marked for redrawing.
pub open spec fn focus_on(m: SceneModel, id: Seq<char>) -> SceneModel {
    let m1 = match m.focused {
        Some(fo) => dirty_view(m, fo),
        None => m,
    };
    dirty_view(SceneModel { focused: Some(id), ..m1 }, id)
}

/// `m` with the `visible` flag of `id` set (when it exists), then `id`
/// marked for redrawing.
pub open spec fn set_visible(m: SceneModel, id: Seq<char>, visible: bool) -> SceneModel {
    let m1 = if m.views.contains_key(id) {
        SceneModel { views: m.views.insert(id, View { visible, ..m.views[id] }), ..m }
    } else {
        m
    };
    dirty_view(m1, id)
}

/// The text `root`.
pub open spec fn root_text() -> Seq<char> {
    seq!['r', 'o', 'o', 't']
}

/// The first index at which `ids` holds `id`.
pub open spec fn first_index(ids: Seq<Seq<char>>, id: Seq<char>) -> int
    decreases ids.len(),
{
    if ids.len() == 0 {
        -1
    } else if first_index(ids.drop_last(), id) >= 0 {
        first_index(ids.drop_last(), id)
    } else if ids.last() == id {
        ids.len() - 1
    } else {
        -1
    }
}

/// `kids` with the first `child` taken out of the child list of `parent`.
pub open spec fn without_child(kids: Map<Seq<char>, Seq<Seq<char>>>, parent: Seq<char>, child: Seq<char>) -> Map<
    Seq<char>,
    Seq<Seq<char>>,
> {
    if kids.contains_key(parent) && first_index(kids[parent], child) >= 0 {
        kids.insert(parent, kids[parent].remove(first_index(kids[parent], child)))
    } else {
        kids
    }
}

/// `kids` with `child` appended to the child list of `parent`, which is
/// created when missing.
pub open spec fn with_child(kids: Map<Seq<char>, Seq<Seq<char>>>, parent: Seq<char>, child: Seq<char>) -> Map<
    Seq<char>,
    Seq<Seq<char>>,
> {
    kids.insert(parent, children_of(kids, parent).push(child))
}

/// The scene after `view` is stored under its name and marked for redrawing.
pub open spec fn add_view_model(m: SceneModel, view: View) -> SceneModel {
    dirty_view(SceneModel { views: m.views.insert(view.name@, view), ..m }, view.name@)
}

/// The scene after the view `id` is marked for redrawing and taken out.
pub open spec fn remove_view_model(m: SceneModel, id: Seq<char>) -> SceneModel {
    let m1 = dirty_view(m, id);
    SceneModel { views: m1.views.remove(id), ..m1 }
}

/// The scene after each child in `ids` is removed in turn, and taken out of
/// the child list of `parent`.
pub open spec fn remove_children_model(m: SceneModel, parent: Seq<char>, ids: Seq<Seq<char>>) -> SceneModel
    decreases ids.len(),
{
    if ids.len() == 0 {
        m
    } else {
        let m1 = remove_children_model(m, parent, ids.drop_last());
        let m2 = remove_view_model(m1, ids.last());
        SceneModel { kids: without_child(m2.kids, parent, ids.last()), ..m2 }
    }
}

/// Which children `get_children_ids_filtered` keeps.
#[derive(PartialEq, Eq, Structural, Debug, Copy, Clone)]
pub enum ChildFilter {
    /// Children whose vertical flex is the given one.
    VFlex(Flex),
    /// Children whose horizontal flex is the given one.
    HFlex(Flex),
}

pub open spec fn filter_accepts(f: ChildFilter, v: View) -> bool {
    match f {
        ChildFilter::VFlex(x) => v.v_flex == x,
        ChildFilter::HFlex(x) => v.h_flex == x,
    }
}

/// The names of the views listed in `ids` that exist and that `f` accepts,
/// in order.
pub open spec fn filter_kids(views: Map<Seq<char>, View>, ids: Seq<Seq<char>>, f: ChildFilter) -> Seq<Seq<char>>
    decreases ids.len(),
{
    if ids.len() == 0 {
        Seq::empty()
    } else {
        let rest = filter_kids(views, ids.drop_last(), f);
        let id = ids.last();
        if views.contains_key(id) && filter_accepts(f, views[id]) {
            rest.push(views[id].name@)
        } else {
            rest
        }
    }
}

/// The tree of views that makes up an interface.
pub struct Scene {
    keys: ViewTable,
    children: ChildTable,
    pub dirty: bool,
    pub bounds: Bounds,
    pub dirty_rect: Bounds,
    pub root_id: ViewId,
    pub focused: Option<ViewId>,
    pub layout_dirty: bool,
}

impl vstd::view::View for Scene {
    type V = SceneModel;

    closed spec fn view(&self) -> SceneModel {
        SceneModel {
            views: view_entries(self.keys),
            kids: child_entries(self.children).map_values(|v: Vec<ViewId>| v.deep_view()),
            dirty: self.dirty,
            bounds: self.bounds,
            dirty_rect: self.dirty_rect,
            root: self.root_id@,
            focused: opt_text(self.focused),
            layout_dirty: self.layout_dirty,
        }
    }
}

impl Scene {
    /// A copy of the root's id.
    pub fn root_id(&self) -> (r: ViewId)
        ensures
            r@ == self@.root,
    {
        self.root_id.clone()
    }

    /// A copy of the focused view's id, if any.
    pub fn get_focused(&self) -> (r: Option<ViewId>)
        ensures
            opt_text(r) == self@.focused,
    {
        match &self.focused {
            Some(f) => Some(f.clone()),
            None => None,
        }
    }

    pub fn is_focused(&self, name: &ViewId) -> (r: bool)
        ensures
            r == (self@.focused == Some(name@)),
    {
        match &self.focused {
            Some(f) => f.same_as(name),
            None => false,
        }
    }

    /// Whether the view exists and is visible.
    pub fn is_visible(&self, name: &ViewId) -> (r: bool)
        ensures
            r == (self@.views.contains_key(name@) && self@.views[name@].visible),
    {
        match self.keys.get(name) {
            Some(v) => v.visible,
            None => false,
        }
    }

    pub fn has_view(&self, name: &ViewId) -> (r: bool)
        ensures
            r == self@.views.contains_key(name@),
    {
        self.keys.contains_key(name)
    }

    pub fn get_view(&self, name: &ViewId) -> (r: Option<&View>)
        ensures
            match r {
                Some(v) => self@.views.contains_key(name@) && *v == self@.views[name@],
                None => !self@.views.contains_key(name@),
            },
    {
        self.keys.get(name)
    }

    /// The state of the view, if it exists and has one.
    pub fn get_view_state(&self, name: &ViewId) -> (r: Option<&ViewState>)
        ensures
            match r {
                Some(s) => self@.views.contains_key(name@) && self@.views[name@].state == Some(*s),
                None => !self@.views.contains_key(name@) || self@.views[name@].state is None,
            },
    {
        match self.keys.get(name) {
            Some(v) => match &v.state {
                Some(s) => Some(s),
                None => None,
            },
            None => None,
        }
    }

    /// The layout of the view, if it exists and has one.
    pub fn get_view_layout(&self, name: &ViewId) -> (r: Option<LayoutKind>)
        ensures
            r == if self@.views.contains_key(name@) {
                self@.views[name@].layout
            } else {
                None
            },
    {
        match self.keys.get(name) {
            Some(v) => v.layout,
            None => None,
        }
    }

    /// The bounds of the view, if it exists.
    pub fn get_view_bounds(&self, name: &ViewId) -> (r: Option<Bounds>)
        ensures
            r == if self@.views.contains_key(name@) {
                Some(self@.views[name@].bounds)
            } else {
                None
            },
    {
        match self.keys.get(name) {
            Some(v) => Some(v.bounds),
            None => None,
        }
    }

    /// The number of views.
    pub fn viewcount(&self) -> (r: usize)
        ensures
            r == self@.views.len(),
    {
        self.keys.len()
    }

    /// A mutable reference to the view, if it exists; what is written
    /// through it is what the scene then holds under that name.
    pub fn get_view_mut(&mut self, name: &ViewId) -> (r: Option<&mut View>)
        ensures
            match r {
                Some(v) => old(self)@.views.contains_key(name@) && *v == old(self)@.views[name@] && final(self)@ == (
                SceneModel { views: old(self)@.views.insert(name@, *final(v)), ..old(self)@ }),
                None => !old(self)@.views.contains_key(name@) && final(self)@ == old(self)@,
            },
    {
        self.keys.get_mut(name)
    }

    /// Takes the view out of the scene, leaving everything else as it is.
    /// Put it back with `put_view`.
    pub fn take_view(&mut self, name: &ViewId) -> (r: Option<View>)
        ensures
            final(self)@ == (SceneModel { views: old(self)@.views.remove(name@), ..old(self)@ }),
            match r {
                Some(v) => old(self)@.views.contains_key(name@) && v == old(self)@.views[name@],
                None => !old(self)@.views.contains_key(name@),
            },
    {
        self.keys.remove(name)
    }

    /// Stores the view under `name`, leaving everything else as it is.
    pub fn put_view(&mut self, name: ViewId, view: View)
        ensures
            final(self)@ == (SceneModel { views: old(self)@.views.insert(name@, view), ..old(self)@ }),
    {
        self.keys.insert(name, view);
    }

    /// A copy of the child list of `name`; empty when it has none.
    pub fn get_children_ids(&self, name: &ViewId) -> (r: Vec<ViewId>)
        ensures
            r.deep_view() == children_of(self@.kids, name@),
    {
        match self.children.get(name) {
            Some(kids) => clone_ids(kids),
            None => {
                let r: Vec<ViewId> = Vec::new();
                assert(r.deep_view() =~= Seq::<Seq<char>>::empty());
                r
            },
        }
    }

    /// The names of the children of `id` that exist and that `filter`
    /// accepts, in order.
    pub fn get_children_ids_filtered(&self, id: &ViewId, filter: ChildFilter) -> (r: Vec<ViewId>)
        ensures
            r.deep_view() == filter_kids(self@.views, children_of(self@.kids, id@), filter),
    {
        let kids = self.get_children_ids(id);
        let ghost ids = kids.deep_view();
        let mut r: Vec<ViewId> = Vec::new();
        let mut i: usize = 0;
        while i < kids.len()
            invariant
                i <= kids@.len(),
                ids == kids.deep_view(),
                ids.len() == kids@.len(),
                r.deep_view() == filter_kids(self@.views, ids.take(i as int), filter),
            decreases kids@.len() - i,
        {
            assert(ids.take(i + 1).drop_last() =~= ids.take(i as int));
            assert(ids.take(i + 1).last() == kids@[i as int]@);
            match self.keys.get(&kids[i]) {
                Some(v) => {
                    let keep = match filter {
                        ChildFilter::VFlex(x) => v.v_flex == x,
                        ChildFilter::HFlex(x) => v.h_flex == x,
                    };
                    if keep {
                        let ghost before = r.deep_view();
                        r.push(v.name.clone());
                        assert(r.deep_view() =~= before.push(v.name@));
                    }
                },
                None => {},
            }
            i += 1;
        }
        assert(ids.take(kids@.len() as int) =~= ids);
        r
    }

    /// Marks the whole scene for redrawing.
    pub fn mark_dirty_all(&mut self)
        ensures
            final(self)@ == all_dirty(old(self)@),
    {
        self.dirty_rect = self.bounds;
        self.dirty = true;
    }

    /// Marks the layout as stale, and the whole scene for redrawing.
    pub fn mark_layout_dirty(&mut self)
        ensures
            final(self)@ == all_dirty(SceneModel { layout_dirty: true, ..old(self)@ }),
    {
        self.layout_dirty = true;
        self.mark_dirty_all();
    }

    /// Whether the layout is stale.
    pub fn needs_layout(&self) -> (r: bool)
        ensures
            r == self@.layout_dirty,
    {
        self.layout_dirty
    }

    /// Marks the layout as fresh, leaving everything else as it is.
    pub fn mark_layout_clean(&mut self)
        ensures
            final(self)@ == (SceneModel { layout_dirty: false, ..old(self)@ }),
    {
        self.layout_dirty = false;
    }

    /// Whether anything must be redrawn.
    pub fn needs_redraw(&self) -> (r: bool)
        ensures
            r == self@.dirty,
    {
        self.dirty
    }

    /// Marks the scene as drawn: nothing is left to redraw.
    pub fn mark_drawn(&mut self)
        ensures
            final(self)@ == (SceneModel { dirty: false, dirty_rect: empty_bounds(), ..old(self)@ }),
    {
        self.dirty = false;
        self.dirty_rect = Bounds::new_empty();
    }

    /// The size of the scene's screen rectangle.
    pub fn size(&self) -> (r: Size)
        ensures
            r == self@.bounds.size,
    {
        self.bounds.size
    }

    /// Where `target` sits below `node` (see `locate`).
    fn locate(&self, target: &ViewId, node: &ViewId, off: Option<Point>, parent: Option<&ViewId>, fuel: usize) -> (r:
        Option<(Option<Point>, Option<ViewId>)>)
        ensures
            match (r, locate(self@.views, self@.kids, target@, node@, off, opt_ref_text(parent), fuel as nat)) {
                (Some((o, p)), Some((so, sp))) => o == so && opt_text(p) == sp,
                (None, None) => true,
                _ => false,
            },
        decreases fuel,
    {
        if fuel == 0 {
            return None;
        }
        let v = match self.keys.get(node) {
            Some(v) => v,
            None => return None,
        };
        if node.same_as(target) {
            let p = match parent {
                Some(p) => Some(p.clone()),
                None => None,
            };
            return Some((off, p));
        }
        let pos = v.bounds.position;
        let off2 = match off {
            Some(o) => match (o.x.checked_add(pos.x), o.y.checked_add(pos.y)) {
                (Some(x), Some(y)) => Some(Point { x, y }),
                _ => None,
            },
            None => None,
        };
        let ghost ids = children_of(self@.kids, node@);
        assert(off2 == match off {
            Some(o) => if point_plus_ok(o, pos) {
                Some(point_plus(o, pos))
            } else {
                None
            },
            None => None,
        });
        assert(pos == self@.views[node@].bounds.position);
        assert(locate(self@.views, self@.kids, target@, node@, off, opt_ref_text(parent), fuel as nat)
            == locate_list(self@.views, self@.kids, target@, ids, off2, Some(node@), (fuel - 1) as nat));
        match self.children.get(node) {
            None => {
                assert(ids =~= Seq::<Seq<char>>::empty());
                None
            },
            Some(kids) => {
                assert(ids == kids.deep_view());
                let mut i: usize = 0;
                while i < kids.len()
                    invariant
                        0 < fuel,
                        i <= kids@.len(),
                        ids == kids.deep_view(),
                        ids.len() == kids@.len(),
                        locate_list(self@.views, self@.kids, target@, ids.take(i as int), off2, Some(node@), (fuel - 1) as nat) is None,
                        locate(self@.views, self@.kids, target@, node@, off, opt_ref_text(parent), fuel as nat)
                            == locate_list(self@.views, self@.kids, target@, ids, off2, Some(node@), (fuel - 1) as nat),
                    decreases kids@.len() - i,
                {
                    assert(ids.take(i + 1).drop_last() =~= ids.take(i as int));
                    assert(ids.take(i + 1).last() == kids@[i as int]@);
                    let r = self.locate(target, &kids[i], off2, Some(node), fuel - 1);
                    if r.is_some() {
                        proof {
                            assert(locate_list(self@.views, self@.kids, target@, ids.take(i + 1), off2, Some(node@), (fuel - 1) as nat) == locate(self@.views, self@.kids, target@, kids@[i as int]@, off2, Some(node@), (fuel - 1) as nat));
                            lemma_locate_list_prefix(self@.views, self@.kids, target@, ids, off2, Some(node@), (fuel - 1) as nat, i + 1);
                            assert(locate_list(self@.views, self@.kids, target@, ids, off2, Some(node@), (fuel - 1) as nat) == locate(self@.views, self@.kids, target@, kids@[i as int]@, off2, Some(node@), (fuel - 1) as nat));
                            assert(locate(self@.views, self@.kids, target@, kids@[i as int]@, off2, opt_ref_text(Some(node)), (fuel - 1) as nat) is Some);
                        }
                        return r;
                    }
                    i += 1;
                }
                assert(ids.take(kids@.len() as int) =~= ids);
                None
            },
        }
    }

    /// The traversal depth for this scene (see `depth_limit`).
    pub fn depth(&self) -> (r: usize)
        ensures
            r == depth_limit(self@.views),
    {
        let n = self.keys.len();
        if n < usize::MAX {
            n + 1
        } else {
            n
        }
    }

    /// The view whose child list holds `name`, found depth first from the
    /// root (see `locate`); none for the root and for views outside the tree.
    pub fn get_parent_for_view(&self, name: &ViewId) -> (r: Option<ViewId>)
        ensures
            opt_text(r) == match locate_in(self@, name@) {
                Some((_, p)) => p,
                None => None,
            },
    {
        let fuel = self.depth();
        let root = self.root_id.clone();
        match self.locate(name, &root, Some(Point { x: 0, y: 0 }), None, fuel) {
            Some((_, p)) => p,
            None => None,
        }
    }

    /// Adds the screen rectangle of the view to the region to redraw (see
    /// `dirty_view`).
    pub fn mark_dirty_view(&mut self, name: &ViewId)
        ensures
            final(self)@ == dirty_view(old(self)@, name@),
    {
        let fuel = self.depth();
        let root = self.root_id.clone();
        let found = self.locate(name, &root, Some(Point { x: 0, y: 0 }), None, fuel);
        proof {
            if found is Some {
                lemma_locate_finds_existing(self@.views, self@.kids, name@, root@, Some(Point { x: 0, y: 0 }), None, fuel as nat);
            }
        }
        match found {
            Some((Some(off), _)) => {
                let b = match self.keys.get(name) {
                    Some(v) => v.bounds,
                    None => {
                        self.mark_dirty_all();
                        return;
                    },
                };
                match (b.position.x.checked_add(off.x), b.position.y.checked_add(off.y)) {
                    (Some(x), Some(y)) => {
                        let abs = Bounds { position: Point { x, y }, size: b.size };
                        if union_fits(&self.dirty_rect, &abs) {
                            self.dirty_rect = self.dirty_rect.union(abs);
                            self.dirty = true;
                        } else {
                            self.mark_dirty_all();
                        }
                    },
                    _ => self.mark_dirty_all(),
                }
            },
            _ => self.mark_dirty_all(),
        }
    }

    /// Focuses the view; the previously focused view and the new one are
    /// marked for redrawing.
    pub fn set_focused(&mut self, name: &ViewId)
        ensures
            final(self)@ == focus_on(old(self)@, name@),
    {
        if self.focused.is_some() {
            let fo = self.focused.as_ref().unwrap().clone();
            self.mark_dirty_view(&fo);
        }
        self.focused = Some(name.clone());
        self.mark_dirty_view(name);
    }

    /// Makes the view visible and marks it for redrawing.
    pub fn show_view(&mut self, name: &ViewId)
        ensures
            final(self)@ == set_visible(old(self)@, name@, true),
    {
        let ghost m = self@;
        match self.keys.remove(name) {
            Some(mut v) => {
                v.visible = true;
                self.keys.insert(name.clone(), v);
                assert(self@.views =~= m.views.insert(name@, View { visible: true, ..m.views[name@] }));
            },
            None => {
                assert(self@.views =~= m.views);
            },
        }
        self.mark_dirty_view(name);
    }

    /// Hides the view and marks it for redrawing.
    pub fn hide_view(&mut self, name: &ViewId)
        ensures
            final(self)@ == set_visible(old(self)@, name@, false),
    {
        let ghost m = self@;
        match self.keys.remove(name) {
            Some(mut v) => {
                v.visible = false;
                self.keys.insert(name.clone(), v);
                assert(self@.views =~= m.views.insert(name@, View { visible: false, ..m.views[name@] }));
            },
            None => {
                assert(self@.views =~= m.views);
            },
        }
        self.mark_dirty_view(name);
    }

    /// Takes the first `child` out of the child list of `parent`.
    pub fn remove_child(&mut self, parent: &ViewId, child: &ViewId)
        ensures
            final(self)@ == (SceneModel { kids: without_child(old(self)@.kids, parent@, child@), ..old(self)@ }),
    {
        let ghost m = self@;
        match self.children.remove(parent) {
            None => {},
            Some(mut kids) => {
                let ghost ids = kids.deep_view();
                match position_of(&kids, child) {
                    Some(i) => {
                        kids.remove(i);
                        assert(kids.deep_view() =~= ids.remove(i as int));
                    },
                    None => {},
                }
                self.children.insert(parent.clone(), kids);
            },
        }
        assert(self@.kids =~= without_child(m.kids, parent@, child@));
    }

    /// Appends `child` to the child list of `parent`.
    pub fn add_child(&mut self, parent: &ViewId, child: &ViewId)
        ensures
            final(self)@ == (SceneModel { kids: with_child(old(self)@.kids, parent@, child@), ..old(self)@ }),
    {
        let ghost m = self@;
        let mut kids = match self.children.remove(parent) {
            Some(k) => k,
            None => Vec::new(),
        };
        let ghost before = kids.deep_view();
        assert(before =~= children_of(m.kids, parent@));
        kids.push(child.clone());
        assert(kids.deep_view() =~= before.push(child@));
        self.children.insert(parent.clone(), kids);
        assert(self@.kids =~= with_child(m.kids, parent@, child@));
    }

    /// Marks the view for redrawing and takes it out of the scene. Its id
    /// stays in the child lists that hold it.
    pub fn remove_view(&mut self, name: &ViewId) -> (r: Option<View>)
        ensures
            final(self)@ == remove_view_model(old(self)@, name@),
            r == if dirty_view(old(self)@, name@).views.contains_key(name@) {
                Some(dirty_view(old(self)@, name@).views[name@])
            } else {
                None
            },
    {
        self.mark_dirty_view(name);
        self.keys.remove(name)
    }

    /// A scene covering `bounds`, holding only its root view, all dirty.
    pub fn new_with_bounds(bounds: Bounds) -> (r: Scene)
        ensures
            r@.views.dom() == set![root_text()],
            r@.views[root_text()].name@ == root_text(),
            r@.views[root_text()].title@ == root_text(),
            r@.views[root_text()].bounds == bounds,
            r@.views[root_text()].visible,
            r@.views[root_text()].h_flex == Flex::Intrinsic,
            r@.views[root_text()].v_flex == Flex::Intrinsic,
            r@.views[root_text()].h_align == Align::Center,
            r@.views[root_text()].v_align == Align::Center,
            r@.views[root_text()].input is None,
            r@.views[root_text()].state is None,
            r@.views[root_text()].layout == Some(LayoutKind::Root),
            r@.views[root_text()].draw == Some(DrawKind::Root),
            r@.kids == Map::<Seq<char>, Seq<Seq<char>>>::empty(),
            r@.dirty,
            r@.layout_dirty,
            r@.bounds == bounds,
            r@.dirty_rect == bounds,
            r@.root == root_text(),
            r@.focused is None,
    {
        let root_id = ViewId::new("root");
        proof {
            reveal_strlit("root");
            assert(root_id@ =~= root_text());
        }
        let mut root = View::new_default();
        root.name = root_id.clone();
        root.title = String::from_str(root_id.as_str());
        root.bounds = bounds;
        root.visible = true;
        root.layout = Some(LayoutKind::Root);
        root.draw = Some(DrawKind::Root);
        let mut keys = ViewTable::new();
        keys.insert(root_id.clone(), root);
        let r = Scene {
            bounds,
            keys,
            dirty: true,
            layout_dirty: true,
            root_id,
            focused: None,
            dirty_rect: bounds,
            children: ChildTable::new(),
        };
        assert(r@.views.dom() =~= set![root_text()]);
        assert(r@.kids =~= Map::<Seq<char>, Seq<Seq<char>>>::empty());
        r
    }

    /// A `200x200` scene at the origin (see `new_with_bounds`).
    pub fn new() -> (r: Scene)
        ensures
            r@.views.dom() == set![root_text()],
            r@.views[root_text()].name@ == root_text(),
            r@.views[root_text()].title@ == root_text(),
            r@.views[root_text()].bounds == (Bounds { position: Point { x: 0, y: 0 }, size: Size { w: 200, h: 200 } }),
            r@.views[root_text()].visible,
            r@.views[root_text()].layout == Some(LayoutKind::Root),
            r@.views[root_text()].draw == Some(DrawKind::Root),
            r@.views[root_text()].input is None,
            r@.views[root_text()].state is None,
            r@.kids == Map::<Seq<char>, Seq<Seq<char>>>::empty(),
            r@.dirty,
            r@.layout_dirty,
            r@.bounds == (Bounds { position: Point { x: 0, y: 0 }, size: Size { w: 200, h: 200 } }),
            r@.dirty_rect == r@.bounds,
            r@.root == root_text(),
            r@.focused is None,
    {
        Self::new_with_bounds(Bounds::new(0, 0, 200, 200))
    }

    /// Stores the view under its name, replacing any view of that name, and
    /// marks it for redrawing.
    pub fn add_view(&mut self, view: View)
        ensures
            final(self)@ == add_view_model(old(self)@, view),
    {
        let name = view.name.clone();
        self.keys.insert(view.name.clone(), view);
        self.mark_dirty_view(&name);
    }

    /// Adds the view as the last child of the root.
    pub fn add_view_to_root(&mut self, view: View)
        ensures
            final(self)@ == add_view_model(
                SceneModel { kids: with_child(old(self)@.kids, old(self)@.root, view.name@), ..old(self)@ },
                view,
            ),
    {
        let root = self.root_id.clone();
        self.add_view_to_parent(view, &root);
    }

    /// Adds the view as the last child of `parent`.
    pub fn add_view_to_parent(&mut self, view: View, parent: &ViewId)
        ensures
            final(self)@ == add_view_model(
                SceneModel { kids: with_child(old(self)@.kids, parent@, view.name@), ..old(self)@ },
                view,
            ),
    {
        self.add_child(parent, &view.name);
        self.add_view(view);
    }

    /// Removes each child of the view (taking it out of the child list as
    /// well), then the view itself.
    pub fn remove_parent_and_children(&mut self, name: &ViewId)
        ensures
            final(self)@ == remove_view_model(
                remove_children_model(old(self)@, name@, children_of(old(self)@.kids, name@)),
                name@,
            ),
    {
        let kids = self.get_children_ids(name);
        let ghost ids = kids.deep_view();
        let ghost m0 = self@;
        let mut i: usize = 0;
        while i < kids.len()
            invariant
                i <= kids@.len(),
                ids == kids.deep_view(),
                ids.len() == kids@.len(),
                self@ == remove_children_model(m0, name@, ids.take(i as int)),
            decreases kids@.len() - i,
        {
            assert(ids.take(i + 1).drop_last() =~= ids.take(i as int));
            assert(ids.take(i + 1).last() == kids@[i as int]@);
            self.remove_view(&kids[i]);
            self.remove_child(name, &kids[i]);
            i += 1;
        }
        assert(ids.take(kids@.len() as int) =~= ids);
        self.remove_view(name);
    }
}

/// The index of the first id in `ids` with the text of `id`.
pub fn position_of(ids: &Vec<ViewId>, id: &ViewId) -> (r: Option<usize>)
    ensures
        match r {
            Some(i) => i < ids@.len() && first_index(ids.deep_view(), id@) == i,
            None => first_index(ids.deep_view(), id@) == -1,
        },
{
    let ghost s = ids.deep_view();
    let mut i: usize = 0;
    while i < ids.len()
        invariant
            i <= ids@.len(),
            s == ids.deep_view(),
            s.len() == ids@.len(),
            first_index(s.take(i as int), id@) == -1,
        decreases ids@.len() - i,
    {
        assert(s.take(i + 1).drop_last() =~= s.take(i as int));
        if ids[i].same_as(id) {
            proof {
                lemma_first_index_extends(s, id@, i as int);
            }
            return Some(i);
        }
        i += 1;
    }
    assert(s.take(ids@.len() as int) =~= s);
    None
}

/// If `locate_list` finds something among the first `k` ids, the whole
/// list gives the same answer.
proof fn lemma_locate_list_prefix(
    views: Map<Seq<char>, View>,
    kids: Map<Seq<char>, Seq<Seq<char>>>,
    target: Seq<char>,
    ids: Seq<Seq<char>>,
    off: Option<Point>,
    parent: Option<Seq<char>>,
    fuel: nat,
    k: int,
)
    requires
        0 <= k <= ids.len(),
        locate_list(views, kids, target, ids.take(k), off, parent, fuel) is Some,
    ensures
        locate_list(views, kids, target, ids, off, parent, fuel) == locate_list(views, kids, target, ids.take(k), off, parent, fuel),
    decreases ids.len(),
{
    if k == ids.len() {
        assert(ids.take(k) =~= ids);
    } else {
        assert(ids.drop_last().take(k) =~= ids.take(k));
        lemma_locate_list_prefix(views, kids, target, ids.drop_last(), off, parent, fuel, k);
    }
}

/// `locate` only finds a view that exists.
proof fn lemma_locate_finds_existing(
    views: Map<Seq<char>, View>,
    kids: Map<Seq<char>, Seq<Seq<char>>>,
    target: Seq<char>,
    node: Seq<char>,
    off: Option<Point>,
    parent: Option<Seq<char>>,
    fuel: nat,
)
    requires
        locate(views, kids, target, node, off, parent, fuel) is Some,
    ensures
        views.contains_key(target),
    decreases fuel, 0nat,
{
    if node != target {
        let pos = views[node].bounds.position;
        let off2 = match off {
            Some(o) => if point_plus_ok(o, pos) {
                Some(point_plus(o, pos))
            } else {
                None
            },
            None => None,
        };
        lemma_locate_list_finds_existing(views, kids, target, children_of(kids, node), off2, Some(node), (fuel - 1) as nat);
    }
}

proof fn lemma_locate_list_finds_existing(
    views: Map<Seq<char>, View>,
    kids: Map<Seq<char>, Seq<Seq<char>>>,
    target: Seq<char>,
    ids: Seq<Seq<char>>,
    off: Option<Point>,
    parent: Option<Seq<char>>,
    fuel: nat,
)
    requires
        locate_list(views, kids, target, ids, off, parent, fuel) is Some,
    ensures
        views.contains_key(target),
    decreases fuel, ids.len() + 1,
{
    if locate_list(views, kids, target, ids.drop_last(), off, parent, fuel) is Some {
        lemma_locate_list_finds_existing(views, kids, target, ids.drop_last(), off, parent, fuel);
    } else {
        lemma_locate_finds_existing(views, kids, target, ids.last(), off, parent, fuel);
    }
}

/// The id text of an optional id reference.
pub open spec fn opt_ref_text(o: Option<&ViewId>) -> Option<Seq<char>> {
    match o {
        Some(id) => Some(id@),
        None => None,
    }
}

/// Copies of the ids, in order.
pub fn clone_ids(ids: &Vec<ViewId>) -> (r: Vec<ViewId>)
    ensures
        r.deep_view() == ids.deep_view(),
{
    let mut r: Vec<ViewId> = Vec::new();
    let mut i: usize = 0;
    while i < ids.len()
        invariant
            i <= ids@.len(),
            r.deep_view() == ids.deep_view().take(i as int),
        decreases ids@.len() - i,
    {
        let ghost before = r.deep_view();
        r.push(ids[i].clone());
        assert(r.deep_view() =~= before.push(ids@[i as int]@));
        assert(ids.deep_view().take(i + 1) =~= ids.deep_view().take(i as int).push(ids@[i as int]@));
        i += 1;
    }
    assert(ids.deep_view().take(ids@.len() as int) =~= ids.deep_view());
    r
}

/// Whether `union` of the two rectangles stays inside `i32`.
pub fn union_fits(a: &Bounds, b: &Bounds) -> (r: bool)
    ensures
        r == union_ok(*a, *b),
{
    if a.is_empty() || b.is_empty() {
        return true;
    }
    let ax2 = a.position.x as i64 + a.size.w as i64;
    let bx2 = b.position.x as i64 + b.size.w as i64;
    let ay2 = a.position.y as i64 + a.size.h as i64;
    let by2 = b.position.y as i64 + b.size.h as i64;
    let lo = i32::MIN as i64;
    let hi = i32::MAX as i64;
    if ax2 < lo || ax2 > hi || bx2 < lo || bx2 > hi || ay2 < lo || ay2 > hi || by2 < lo || by2 > hi {
        return false;
    }
    let x = if a.position.x <= b.position.x { a.position.x as i64 } else { b.position.x as i64 };
    let y = if a.position.y <= b.position.y { a.position.y as i64 } else { b.position.y as i64 };
    let x2 = if ax2 >= bx2 { ax2 } else { bx2 };
    let y2 = if ay2 >= by2 { ay2 } else { by2 };
    let w = x2 - x;
    let h = y2 - y;
    lo <= w && w <= hi && lo <= h && h <= hi
}

/// Once the first match is at `i`, longer prefixes keep it.
proof fn lemma_first_index_extends(ids: Seq<Seq<char>>, id: Seq<char>, i: int)
    requires
        0 <= i < ids.len(),
        first_index(ids.take(i), id) == -1,
        ids[i] == id,
    ensures
        first_index(ids, id) == i,
    decreases ids.len(),
{
    if ids.len() == i + 1 {
        assert(ids.drop_last() =~= ids.take(i));
    } else {
        assert(ids.drop_last().take(i) =~= ids.take(i));
        lemma_first_index_extends(ids.drop_last(), id, i);
    }
}


/// The rectangle of the view `id` on the screen: its bounds moved by the
/// positions of its ancestors. None when the view is not in the tree below
/// the root, or when that rectangle leaves `i32`.
pub open spec fn screen_rect(m: SceneModel, id: Seq<char>) -> Option<Bounds> {
    match locate_in(m, id) {
        Some((Some(off), _)) => {
            let b = m.views[id].bounds;
            if point_plus_ok(b.position, off) {
                Some(Bounds { position: point_plus(b.position, off), size: b.size })
            } else {
                None
            }
        },
        _ => None,
    }
}

/// Marking a view for redrawing sets the dirty flag and touches nothing but
/// the flag and the region to redraw.
pub proof fn law_dirty_view_marks(m: SceneModel, id: Seq<char>)
    ensures
        dirty_view(m, id).dirty,
        dirty_view(m, id) == (SceneModel { dirty: true, dirty_rect: dirty_view(m, id).dirty_rect, ..m }),
{
}

/// After a view is marked for redrawing, the region to redraw holds every
/// point that it held before and every point of the view's rectangle on the
/// screen; or else the whole scene is marked.
pub proof fn law_dirty_view_covers(m: SceneModel, id: Seq<char>, pt: Point)
    requires
        bounds_hold(m.dirty_rect, pt) || (screen_rect(m, id) matches Some(r) && bounds_hold(r, pt)),
    ensures
        bounds_hold(dirty_view(m, id).dirty_rect, pt) || dirty_view(m, id).dirty_rect == m.bounds,
{
    match locate_in(m, id) {
        Some((Some(off), _)) => {
            let b = m.views[id].bounds;
            if point_plus_ok(b.position, off) {
                let abs = Bounds { position: point_plus(b.position, off), size: b.size };
                if union_ok(m.dirty_rect, abs) {
                    lemma_union_covers(m.dirty_rect, abs, pt);
                }
            }
        },
        _ => {},
    }
}

/// A view added to the scene is found under its name, exactly as it was
/// given; every other view is left as it was.
pub proof fn law_add_then_get(m: SceneModel, view: View)
    ensures
        add_view_model(m, view).views.contains_key(view.name@),
        add_view_model(m, view).views[view.name@] == view,
        forall|k: Seq<char>|
            k != view.name@ ==> #[trigger] add_view_model(m, view).views.contains_key(k) == m.views.contains_key(k)
                && (m.views.contains_key(k) ==> add_view_model(m, view).views[k] == m.views[k]),
{
}

/// A removed view is gone from the scene; every other view is left as it
/// was.
pub proof fn law_remove_then_gone(m: SceneModel, id: Seq<char>)
    ensures
        !remove_view_model(m, id).views.contains_key(id),
        forall|k: Seq<char>|
            k != id ==> #[trigger] remove_view_model(m, id).views.contains_key(k) == m.views.contains_key(k)
                && (m.views.contains_key(k) ==> remove_view_model(m, id).views[k] == m.views[k]),
{
}

/// Focusing a view makes it the focused view, and leaves the views as they
/// were.
pub proof fn law_focus_then_focused(m: SceneModel, id: Seq<char>)
    ensures
        focus_on(m, id).focused == Some(id),
        focus_on(m, id).views == m.views,
        focus_on(m, id).kids == m.kids,
{
}

/// Showing or hiding an existing view sets its visible flag to what was
/// asked, and changes nothing else of any view.
pub proof fn law_visibility(m: SceneModel, id: Seq<char>, visible: bool)
    requires
        m.views.contains_key(id),
    ensures
        set_visible(m, id, visible).views.contains_key(id),
        set_visible(m, id, visible).views[id].visible == visible,
        set_visible(m, id, visible).views[id] == (View { visible, ..m.views[id] }),
        set_visible(m, id, visible).views == m.views.insert(id, View { visible, ..m.views[id] }),
{
}

/// A child added to a parent comes last in the parent's child list, after
/// the children that it had.
pub proof fn law_add_child_appends(
    kids: Map<Seq<char>, Seq<Seq<char>>>,
    parent: Seq<char>,
    child: Seq<char>,
)
    ensures
        children_of(with_child(kids, parent, child), parent) == children_of(kids, parent).push(child),
{
}

/// Taking a child out of a parent's child list that holds it shortens the
/// list by one and removes its first occurrence.
pub proof fn law_remove_child_shortens(
    kids: Map<Seq<char>, Seq<Seq<char>>>,
    parent: Seq<char>,
    child: Seq<char>,
)
    requires
        children_of(kids, parent).contains(child),
    ensures
        children_of(without_child(kids, parent, child), parent).len() == children_of(kids, parent).len() - 1,
        children_of(without_child(kids, parent, child), parent) == children_of(kids, parent).remove(
            first_index(children_of(kids, parent), child),
        ),
{
    let ids = children_of(kids, parent);
    let i = choose|i: int| 0 <= i < ids.len() && ids[i] == child;
    lemma_first_index_found(ids, child, i);
}

/// Whatever index holds `id`, `first_index` finds one in range.
proof fn lemma_first_index_found(ids: Seq<Seq<char>>, id: Seq<char>, i: int)
    requires
        0 <= i < ids.len(),
        ids[i] == id,
    ensures
        0 <= first_index(ids, id) < ids.len(),
        ids[first_index(ids, id)] == id,
    decreases ids.len(),
{
    if i < ids.len() - 1 {
        lemma_first_index_found(ids.drop_last(), id, i);
    } else {
        lemma_first_index_sound(ids.drop_last(), id);
    }
}

/// `first_index` is either `-1` or an index that holds `id`.
proof fn lemma_first_index_sound(ids: Seq<Seq<char>>, id: Seq<char>)
    ensures
        first_index(ids, id) == -1 || (0 <= first_index(ids, id) < ids.len() && ids[first_index(ids, id)] == id),
    decreases ids.len(),
{
    if ids.len() > 0 {
        lemma_first_index_sound(ids.drop_last(), id);
    }
}
} // verus!
