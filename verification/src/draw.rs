//! Drawing: which views are drawn, in which order and at which offset.
//! The drawing itself needs a display and is done outside the library,
//! which hands out the plan.
use vstd::prelude::*;
use vstd::view::View as _;
use crate::geom::{point_plus, point_plus_ok, Point};
use crate::input::ArithmeticFault;
use crate::scene::{children_of, depth_limit, Scene, SceneModel};
use crate::geom::empty_bounds;
use crate::view::{DrawKind, View, ViewId};

verus! {

/// One view to draw: its id, how to draw it, and the offset of its parent's
/// coordinate space on the screen.
#[derive(Debug)]
pub struct DrawStep {
    pub name: ViewId,
    pub kind: DrawKind,
    pub offset: Point,
}

/// What a draw step is, as mathematics.
pub open spec fn step_view(d: DrawStep) -> (Seq<char>, DrawKind, Point) {
    (d.name@, d.kind, d.offset)
}

pub open spec fn steps_view(s: Seq<DrawStep>) -> Seq<(Seq<char>, DrawKind, Point)> {
    s.map_values(|d: DrawStep| step_view(d))
}

/// Draws the view `id` and the tree below it, its parent's space sitting at
/// `off`: nothing when it is missing or hidden; otherwise the view itself
/// when it has a way to be drawn, then its children in order, in its own
/// space. None when moving into the view's space, or back out of it, leaves
/// `i32`.
pub open spec fn plan_of(
    views: Map<Seq<char>, View>,
    kids: Map<Seq<char>, Seq<Seq<char>>>,
    id: Seq<char>,
    off: Point,
    fuel: nat,
) -> Option<Seq<(Seq<char>, DrawKind, Point)>>
    decreases fuel, 0nat,
{
    if fuel == 0 || !views.contains_key(id) || !views[id].visible {
        Some(Seq::empty())
    } else {
        let v = views[id];
        let me = match v.draw {
            Some(k) => seq![(id, k, off)],
            None => Seq::empty(),
        };
        let pos = v.bounds.position;
        if !point_plus_ok(off, pos) || pos.x == i32::MIN || pos.y == i32::MIN {
            None
        } else {
            match plan_list(views, kids, children_of(kids, id), point_plus(off, pos), (fuel - 1) as nat) {
                None => None,
                Some(rest) => Some(me + rest),
            }
        }
    }
}

/// `plan_of` for each id of `ids` in turn, all in the same space.
pub open spec fn plan_list(
    views: Map<Seq<char>, View>,
    kids: Map<Seq<char>, Seq<Seq<char>>>,
    ids: Seq<Seq<char>>,
    off: Point,
    fuel: nat,
) -> Option<Seq<(Seq<char>, DrawKind, Point)>>
    decreases fuel, ids.len() + 1,
{
    if ids.len() == 0 {
        Some(Seq::empty())
    } else {
        match plan_list(views, kids, ids.drop_last(), off, fuel) {
            None => None,
            Some(a) => match plan_of(views, kids, ids.last(), off, fuel) {
                None => None,
                Some(b) => Some(a + b),
            },
        }
    }
}

/// The drawing of a whole scene, from its root at the screen's origin.
pub open spec fn scene_plan(m: SceneModel) -> Option<Seq<(Seq<char>, DrawKind, Point)>> {
    plan_of(m.views, m.kids, m.root, Point { x: 0, y: 0 }, depth_limit(m.views))
}

fn plan_view(scene: &Scene, id: &ViewId, off: Point, fuel: usize, out: &mut Vec<DrawStep>) -> (r: Result<
    (),
    ArithmeticFault,
>)
    ensures
        match (r, plan_of(scene@.views, scene@.kids, id@, off, fuel as nat)) {
            (Ok(_), Some(p)) => steps_view(final(out)@) == steps_view(old(out)@) + p,
            (Err(_), None) => true,
            _ => false,
        },
    decreases fuel, 0nat,
{
    if fuel == 0 {
        assert(steps_view(out@) =~= steps_view(out@) + Seq::empty());
        return Ok(());
    }
    let (visible, draw, pos) = match scene.get_view(id) {
        Some(v) => (v.visible, v.draw, v.bounds.position),
        None => {
            assert(steps_view(out@) =~= steps_view(out@) + Seq::empty());
            return Ok(());
        },
    };
    if !visible {
        assert(steps_view(out@) =~= steps_view(out@) + Seq::empty());
        return Ok(());
    }
    let ghost before = steps_view(out@);
    match draw {
        Some(k) => {
            out.push(DrawStep { name: id.clone(), kind: k, offset: off });
            assert(steps_view(out@) =~= before + seq![(id@, k, off)]);
        },
        None => {
            assert(steps_view(out@) =~= before + Seq::empty());
        },
    }
    let ghost mid = steps_view(out@);
    let x = match off.x.checked_add(pos.x) {
        Some(x) => x,
        None => return Err(ArithmeticFault),
    };
    let y = match off.y.checked_add(pos.y) {
        Some(y) => y,
        None => return Err(ArithmeticFault),
    };
    if pos.x == i32::MIN || pos.y == i32::MIN {
        return Err(ArithmeticFault);
    }
    let kids = scene.get_children_ids(id);
    let res = plan_kids(scene, &kids, Point { x, y }, fuel - 1, out);
    proof {
        if res is Ok {
            let me = match draw {
                Some(k) => seq![(id@, k, off)],
                None => Seq::<(Seq<char>, DrawKind, Point)>::empty(),
            };
            let rest = plan_list(scene@.views, scene@.kids, kids.deep_view(), Point { x, y }, (fuel - 1) as nat)->0;
            assert(mid == before + me);
            assert(steps_view(out@) =~= before + (me + rest));
        }
    }
    res
}

fn plan_kids(scene: &Scene, ids: &Vec<ViewId>, off: Point, fuel: usize, out: &mut Vec<DrawStep>) -> (r: Result<
    (),
    ArithmeticFault,
>)
    ensures
        match (r, plan_list(scene@.views, scene@.kids, ids.deep_view(), off, fuel as nat)) {
            (Ok(_), Some(p)) => steps_view(final(out)@) == steps_view(old(out)@) + p,
            (Err(_), None) => true,
            _ => false,
        },
    decreases fuel, ids@.len() + 1,
{
    let ghost s = ids.deep_view();
    let ghost start = steps_view(out@);
    let mut i: usize = 0;
    assert(start =~= start + Seq::empty());
    while i < ids.len()
        invariant
            i <= ids@.len(),
            s == ids.deep_view(),
            s.len() == ids@.len(),
            start == steps_view(old(out)@),
            match plan_list(scene@.views, scene@.kids, s.take(i as int), off, fuel as nat) {
                Some(p) => steps_view(out@) == start + p,
                None => false,
            },
        decreases ids@.len() - i,
    {
        assert(s.take(i + 1).drop_last() =~= s.take(i as int));
        assert(s.take(i + 1).last() == ids@[i as int]@);
        let ghost a = plan_list(scene@.views, scene@.kids, s.take(i as int), off, fuel as nat)->0;
        let res = plan_view(scene, &ids[i], off, fuel, out);
        if res.is_err() {
            proof {
                lemma_plan_none(scene@.views, scene@.kids, s, off, fuel as nat, i + 1);
            }
            return Err(ArithmeticFault);
        }
        proof {
            let b = plan_of(scene@.views, scene@.kids, s[i as int], off, fuel as nat)->0;
            assert(start + a + b =~= start + (a + b));
        }
        i += 1;
    }
    assert(s.take(ids@.len() as int) =~= s);
    Ok(())
}

proof fn lemma_plan_none(
    views: Map<Seq<char>, View>,
    kids: Map<Seq<char>, Seq<Seq<char>>>,
    ids: Seq<Seq<char>>,
    off: Point,
    fuel: nat,
    k: int,
)
    requires
        0 <= k <= ids.len(),
        plan_list(views, kids, ids.take(k), off, fuel) is None,
    ensures
        plan_list(views, kids, ids, off, fuel) is None,
    decreases ids.len(),
{
    if k == ids.len() {
        assert(ids.take(k) =~= ids);
    } else {
        assert(ids.drop_last().take(k) =~= ids.take(k));
        lemma_plan_none(views, kids, ids.drop_last(), off, fuel, k);
    }
}

/// When the scene needs redrawing: the views to draw, in order, each with
/// the offset at which to draw it, and the scene marked as drawn. `None`
/// when nothing needs redrawing. The error where an offset leaves `i32`,
/// with the scene unchanged.
pub fn draw_scene(scene: &mut Scene) -> (r: Result<Option<Vec<DrawStep>>, ArithmeticFault>)
    ensures
        !old(scene)@.dirty ==> (r matches Ok(None) && final(scene)@ == old(scene)@),
        old(scene)@.dirty ==> match r {
            Ok(Some(steps)) => scene_plan(old(scene)@) == Some(steps_view(steps@)) && final(scene)@ == (SceneModel {
                dirty: false,
                dirty_rect: empty_bounds(),
                ..old(scene)@
            }),
            Ok(None) => false,
            Err(_) => scene_plan(old(scene)@) is None && final(scene)@ == old(scene)@,
        },
{
    if !scene.needs_redraw() {
        return Ok(None);
    }
    let mut out: Vec<DrawStep> = Vec::new();
    let root = scene.root_id();
    let fuel = scene.depth();
    assert(steps_view(out@) =~= Seq::empty());
    plan_view(scene, &root, Point { x: 0, y: 0 }, fuel, &mut out)?;
    assert(steps_view(out@) =~= Seq::empty() + scene_plan(scene@)->0);
    scene.mark_drawn();
    Ok(Some(out))
}


/// `s` draws the view it names, which exists, is visible and is drawn the
/// way that `s` says.
pub open spec fn draws_visible(views: Map<Seq<char>, View>, s: (Seq<char>, DrawKind, Point)) -> bool {
    views.contains_key(s.0) && views[s.0].visible && views[s.0].draw == Some(s.1)
}

proof fn lemma_plan_visible(
    views: Map<Seq<char>, View>,
    kids: Map<Seq<char>, Seq<Seq<char>>>,
    id: Seq<char>,
    off: Point,
    fuel: nat,
)
    ensures
        plan_of(views, kids, id, off, fuel) matches Some(p) ==> forall|i: int|
            0 <= i < p.len() ==> draws_visible(views, #[trigger] p[i]),
    decreases fuel, 0nat,
{
    if fuel > 0 && views.contains_key(id) && views[id].visible {
        let v = views[id];
        let pos = v.bounds.position;
        if point_plus_ok(off, pos) {
            lemma_plan_list_visible(views, kids, children_of(kids, id), point_plus(off, pos), (fuel - 1) as nat);
            let me = match v.draw {
                Some(k) => seq![(id, k, off)],
                None => Seq::empty(),
            };
            if let Some(rest) = plan_list(views, kids, children_of(kids, id), point_plus(off, pos), (fuel - 1) as nat) {
                assert forall|i: int| 0 <= i < (me + rest).len() implies draws_visible(views, #[trigger] (me + rest)[i]) by {
                    if i >= me.len() {
                        assert((me + rest)[i] == rest[i - me.len()]);
                    }
                }
            }
        }
    }
}

proof fn lemma_plan_list_visible(
    views: Map<Seq<char>, View>,
    kids: Map<Seq<char>, Seq<Seq<char>>>,
    ids: Seq<Seq<char>>,
    off: Point,
    fuel: nat,
)
    ensures
        plan_list(views, kids, ids, off, fuel) matches Some(p) ==> forall|i: int|
            0 <= i < p.len() ==> draws_visible(views, #[trigger] p[i]),
    decreases fuel, ids.len() + 1,
{
    if ids.len() > 0 {
        lemma_plan_list_visible(views, kids, ids.drop_last(), off, fuel);
        lemma_plan_visible(views, kids, ids.last(), off, fuel);
        if let Some(a) = plan_list(views, kids, ids.drop_last(), off, fuel) {
            if let Some(b) = plan_of(views, kids, ids.last(), off, fuel) {
                assert forall|i: int| 0 <= i < (a + b).len() implies draws_visible(views, #[trigger] (a + b)[i]) by {
                    if i >= a.len() {
                        assert((a + b)[i] == b[i - a.len()]);
                    }
                }
            }
        }
    }
}

/// Only what can be seen is drawn: every view in the drawing of a scene
/// exists, is visible, and is drawn the way it says.
pub proof fn law_only_visible_drawn(m: SceneModel)
    ensures
        scene_plan(m) matches Some(p) ==> forall|i: int| 0 <= i < p.len() ==> draws_visible(m.views, #[trigger] p[i]),
{
    lemma_plan_visible(m.views, m.kids, m.root, Point { x: 0, y: 0 }, depth_limit(m.views));
}

/// A hidden view draws nothing, and nothing below it is drawn either.
pub proof fn law_hidden_draws_nothing(
    views: Map<Seq<char>, View>,
    kids: Map<Seq<char>, Seq<Seq<char>>>,
    id: Seq<char>,
    off: Point,
    fuel: nat,
)
    requires
        views.contains_key(id),
        !views[id].visible,
    ensures
        plan_of(views, kids, id, off, fuel) == Some(Seq::<(Seq<char>, DrawKind, Point)>::empty()),
{
}

} // verus!
