//! What the box and grid layouts do to the children they place, stated in
//! terms of the children's sizes, the panel's padding and gap, and the cells
//! of a grid. Each law speaks of a layout pass with any depth of descent
//! (`run_layout`), and so of `layout_as`, which the executable passes
//! follow, and of the passes that a layout runs for its descendants.
use vstd::prelude::*;
use crate::geom::{fits, size_minus_insets, tdiv, Bounds, Size};
use crate::grid::{GridLayoutState, LayoutConstraint};
use crate::layouts::{
    add_ck, align_offset, flex_share, grid, grid_children, grid_place, hbox, hbox_finish, layout_child, layout_list,
    lemma_list_bounds, lemma_obd_rebound, lemma_obd_refl, lemma_obd_trans, max_extent, moved, only_bounds_differ,
    place_column, place_row, rebound, resized, run_layout, sum_extent, vbox, vbox_finish, Kids, Views,
};
use crate::panel::PanelState;
use crate::scene::{children_of, filter_kids, ChildFilter, SceneModel};
use crate::tables::constraint_entries;
use crate::util::LayoutTheme;
use crate::view::{Align, Flex, LayoutKind, View, ViewState};

verus! {

/// Placing a column keeps every view, the sizes of the placed ones and all
/// of the others; it puts the first at `y0` and each next one its
/// predecessor's height and `gap` further down.
#[verifier::spinoff_prover]
#[verifier::rlimit(40)]
proof fn lemma_column_stacks(views: Views, ids: Seq<Seq<char>>, y0: i32, avail_w: i32, left: i32, gap: i32)
    requires
        ids.no_duplicates(),
        forall|j: int| 0 <= j < ids.len() ==> views.contains_key(#[trigger] ids[j]),
        place_column(views, ids, y0, avail_w, left, gap) is Some,
    ensures
        ({
            let (v, y) = place_column(views, ids, y0, avail_w, left, gap)->0;
            &&& v.dom() == views.dom()
            &&& forall|k: Seq<char>| views.contains_key(k) && !ids.contains(k) ==> #[trigger] v[k] == views[k]
            &&& forall|j: int| 0 <= j < ids.len() ==> {
                &&& (#[trigger] v[ids[j]]).bounds.size == views[ids[j]].bounds.size
                &&& v[ids[j]].h_align == views[ids[j]].h_align
                &&& v[ids[j]].bounds.position.x == left + aligned_at(
                    views[ids[j]].h_align,
                    avail_w as int,
                    views[ids[j]].bounds.size.w as int,
                )
            }
            &&& ids.len() > 0 ==> v[ids[0]].bounds.position.y == y0
            &&& forall|i: int, j: int|
                #![trigger v[ids[i]], v[ids[j]]]
                0 <= i && j == i + 1 && j < ids.len() ==> v[ids[j]].bounds.position.y == v[ids[i]].bounds.position.y
                    + v[ids[i]].bounds.size.h + gap
            &&& y == if ids.len() == 0 {
                y0 as int
            } else {
                v[ids.last()].bounds.position.y + v[ids.last()].bounds.size.h + gap
            }
        }),
    decreases ids.len(),
{
    if ids.len() > 0 {
        let pre = ids.drop_last();
        assert(pre.no_duplicates()) by {
            assert forall|a: int, b: int| 0 <= a < pre.len() && 0 <= b < pre.len() && a != b implies pre[a] != pre[b] by {
                assert(pre[a] == ids[a] && pre[b] == ids[b]);
            }
        }
        assert forall|j: int| 0 <= j < pre.len() implies views.contains_key(#[trigger] pre[j]) by {
            assert(pre[j] == ids[j]);
        }
        lemma_column_stacks(views, pre, y0, avail_w, left, gap);
        let k = ids.last();
        assert(ids[ids.len() - 1] == k);
        assert(!pre.contains(k)) by {
            if pre.contains(k) {
                let a = choose|a: int| 0 <= a < pre.len() && pre[a] == k;
                assert(ids[a] == ids[ids.len() - 1]);
            }
        }
        assert forall|kk: Seq<char>| ids.contains(kk) && kk != k implies pre.contains(kk) by {
            let a = choose|a: int| 0 <= a < ids.len() && ids[a] == kk;
            assert(pre[a] == kk);
        }
        let (v, y) = place_column(views, pre, y0, avail_w, left, gap)->0;
        assert(views.contains_key(k));
        let kv = v[k];
        assert(kv == views[k]);
        let o = align_offset(kv.h_align, avail_w, kv.bounds.size.w)->0;
        let x = add_ck(o as int, left as int)->0;
        let step = add_ck(kv.bounds.size.h as int, gap as int)->0;
        let y2 = add_ck(y as int, step as int)->0;
        let nv = rebound(v, k, moved(kv, x, y));
        assert(place_column(views, ids, y0, avail_w, left, gap) == Some((nv, y2)));
        assert(nv[k].bounds.position.y == y);
        assert(nv.dom() =~= views.dom());
        assert forall|j: int| 0 <= j < ids.len() - 1 implies nv[ids[j]] == v[pre[j]] by {
            assert(ids[j] == pre[j]);
            assert(pre.contains(pre[j]));
        }
        assert(x == left + aligned_at(kv.h_align, avail_w as int, kv.bounds.size.w as int));
        assert forall|j: int| 0 <= j < ids.len() implies {
            &&& (#[trigger] nv[ids[j]]).bounds.size == views[ids[j]].bounds.size
            &&& nv[ids[j]].h_align == views[ids[j]].h_align
            &&& nv[ids[j]].bounds.position.x == left + aligned_at(
                views[ids[j]].h_align,
                avail_w as int,
                views[ids[j]].bounds.size.w as int,
            )
        } by {
            if j < ids.len() - 1 {
                assert(pre[j] == ids[j]);
            }
        }
        assert forall|i: int, j: int|
            #![trigger nv[ids[i]], nv[ids[j]]]
            0 <= i && j == i + 1 && j < ids.len() implies nv[ids[j]].bounds.position.y
            == nv[ids[i]].bounds.position.y + nv[ids[i]].bounds.size.h + gap by {
            assert(pre[i] == ids[i]);
            if j < ids.len() - 1 {
                assert(pre[j] == ids[j]);
                assert(v[pre[j]].bounds.position.y == v[pre[i]].bounds.position.y + v[pre[i]].bounds.size.h + gap);
            } else {
                assert(ids[i] == pre.last());
            }
        }
        if pre.len() == 0 {
            assert(ids[0] == k);
        } else {
            assert(ids[0] == pre[0]);
        }
    }
}

/// The offset of a child of extent `size` in a space of `avail` under the
/// alignment `a`: none at the start, half the room left (rounded toward
/// zero) in the center, all of it at the end.
pub open spec fn aligned_at(a: Align, avail: int, size: int) -> int {
    match a {
        Align::Start => 0,
        Align::Center => tdiv(avail - size, 2),
        Align::End => avail - size,
    }
}

/// Placing a row keeps every view, the sizes of the placed ones and all of
/// the others; it puts each placed one `top` plus its alignment's offset in
/// `avail_h` down.
#[verifier::spinoff_prover]
#[verifier::rlimit(40)]
proof fn lemma_row_aligns(views: Views, ids: Seq<Seq<char>>, x0: i32, avail_h: i32, top: i32, gap: i32)
    requires
        ids.no_duplicates(),
        forall|j: int| 0 <= j < ids.len() ==> views.contains_key(#[trigger] ids[j]),
        place_row(views, ids, x0, avail_h, top, gap) is Some,
    ensures
        ({
            let (v, x) = place_row(views, ids, x0, avail_h, top, gap)->0;
            &&& v.dom() == views.dom()
            &&& ids.len() > 0 ==> v[ids[0]].bounds.position.x == x0
            &&& forall|i: int, j: int|
                #![trigger v[ids[i]], v[ids[j]]]
                0 <= i && j == i + 1 && j < ids.len() ==> v[ids[j]].bounds.position.x == v[ids[i]].bounds.position.x
                    + v[ids[i]].bounds.size.w + gap
            &&& x == if ids.len() == 0 {
                x0 as int
            } else {
                v[ids.last()].bounds.position.x + v[ids.last()].bounds.size.w + gap
            }
            &&& forall|k: Seq<char>| views.contains_key(k) && !ids.contains(k) ==> #[trigger] v[k] == views[k]
            &&& forall|j: int| 0 <= j < ids.len() ==> {
                &&& (#[trigger] v[ids[j]]).bounds.size == views[ids[j]].bounds.size
                &&& v[ids[j]].v_align == views[ids[j]].v_align
                &&& v[ids[j]].bounds.position.y == top + aligned_at(
                    views[ids[j]].v_align,
                    avail_h as int,
                    views[ids[j]].bounds.size.h as int,
                )
            }
        }),
    decreases ids.len(),
{
    if ids.len() > 0 {
        let pre = ids.drop_last();
        assert(pre.no_duplicates()) by {
            assert forall|a: int, b: int| 0 <= a < pre.len() && 0 <= b < pre.len() && a != b implies pre[a] != pre[b] by {
                assert(pre[a] == ids[a] && pre[b] == ids[b]);
            }
        }
        assert forall|j: int| 0 <= j < pre.len() implies views.contains_key(#[trigger] pre[j]) by {
            assert(pre[j] == ids[j]);
        }
        lemma_row_aligns(views, pre, x0, avail_h, top, gap);
        let k = ids.last();
        assert(ids[ids.len() - 1] == k);
        assert(!pre.contains(k)) by {
            if pre.contains(k) {
                let a = choose|a: int| 0 <= a < pre.len() && pre[a] == k;
                assert(ids[a] == ids[ids.len() - 1]);
            }
        }
        assert forall|kk: Seq<char>| ids.contains(kk) && kk != k implies pre.contains(kk) by {
            let a = choose|a: int| 0 <= a < ids.len() && ids[a] == kk;
            assert(pre[a] == kk);
        }
        let (v, x) = place_row(views, pre, x0, avail_h, top, gap)->0;
        assert(views.contains_key(k));
        let kv = v[k];
        assert(kv == views[k]);
        let x1 = add_ck(x as int, kv.bounds.size.w as int)->0;
        let x2 = add_ck(x1 as int, gap as int)->0;
        let o = align_offset(kv.v_align, avail_h, kv.bounds.size.h)->0;
        let y = add_ck(o as int, top as int)->0;
        let nv = rebound(v, k, moved(kv, x, y));
        assert(place_row(views, ids, x0, avail_h, top, gap) == Some((nv, x2)));
        assert(nv.dom() =~= views.dom());
        assert(y == top + aligned_at(kv.v_align, avail_h as int, kv.bounds.size.h as int));
        assert(nv[k].bounds.position.x == x);
        assert forall|i: int, j: int|
            #![trigger nv[ids[i]], nv[ids[j]]]
            0 <= i && j == i + 1 && j < ids.len() implies nv[ids[j]].bounds.position.x
            == nv[ids[i]].bounds.position.x + nv[ids[i]].bounds.size.w + gap by {
            assert(pre[i] == ids[i]);
            assert(pre.contains(pre[i]));
            if j < ids.len() - 1 {
                assert(pre[j] == ids[j]);
                assert(pre.contains(pre[j]));
                assert(v[pre[j]].bounds.position.x == v[pre[i]].bounds.position.x + v[pre[i]].bounds.size.w + gap);
            } else {
                assert(ids[i] == pre.last());
            }
        }
        if pre.len() == 0 {
            assert(ids[0] == k);
        } else {
            assert(ids[0] == pre[0]);
            assert(pre.contains(pre[0]));
        }
        assert forall|j: int| 0 <= j < ids.len() implies {
            &&& (#[trigger] nv[ids[j]]).bounds.size == views[ids[j]].bounds.size
            &&& nv[ids[j]].v_align == views[ids[j]].v_align
            &&& nv[ids[j]].bounds.position.y == top + aligned_at(
                views[ids[j]].v_align,
                avail_h as int,
                views[ids[j]].bounds.size.h as int,
            )
        } by {
            if j < ids.len() - 1 {
                assert(pre[j] == ids[j]);
                assert(pre.contains(pre[j]));
            }
        }
    }
}

/// A vertical box that succeeds has laid out its children into views `v2`
/// (with the same views as before), placed them in a column across a width,
/// and then sized itself.
proof fn lemma_vbox_stages(views: Views, kids: Kids, id: Seq<char>, space: Size, th: LayoutTheme, fuel: nat, ps: PanelState) -> (r: (Views, i32))
    requires
        views[id].state == Some(ViewState::Panel(ps)),
        vbox(views, kids, id, space, th, fuel) is Some,
    ensures
        r.0.dom() == views.dom(),
        only_bounds_differ(views, r.0),
        r.1 == if views[id].h_flex == Flex::Intrinsic {
            max_extent(r.0, children_of(kids, id), false) as int
        } else {
            space.w - ps.padding.left - ps.padding.right
        },
        place_column(r.0, children_of(kids, id), ps.padding.top, r.1, ps.padding.left, ps.gap) matches Some((v3, _))
            && vbox(views, kids, id, space, th, fuel) == vbox_finish(
            v3,
            id,
            space,
            max_extent(r.0, children_of(kids, id), false),
            ps.padding,
        ),
{
    let parent = views[id];
    let pad = ps.padding;
    let all = children_of(kids, id);
    let avail = size_minus_insets(space, pad);
    let fixed = filter_kids(views, all, ChildFilter::VFlex(Flex::Intrinsic));
    lemma_list_bounds(views, kids, fixed, avail, th, fuel);
    let v1 = layout_list(views, kids, fixed, avail, th, fuel)->0;
    lemma_obd_refl(views);
    let sum = sum_extent(v1, fixed, true)->0;
    let leftover = add_ck(avail.h as int, -(sum as int))->0;
    let flex = filter_kids(v1, all, ChildFilter::VFlex(Flex::Resize));
    let v2 = if flex.len() > 0 {
        let w1 = add_ck(space.w as int, -(pad.left as int))->0;
        let share = flex_share(leftover, flex.len())->0;
        let fw = add_ck(w1 as int, -(pad.right as int))->0;
        lemma_list_bounds(v1, kids, flex, Size { w: fw, h: share }, th, fuel);
        let v2 = layout_list(v1, kids, flex, Size { w: fw, h: share }, th, fuel)->0;
        lemma_obd_trans(views, v1, v2);
        v2
    } else {
        v1
    };
    let max_w = max_extent(v2, all, false);
    let avail_w = if parent.h_flex == Flex::Intrinsic {
        max_w
    } else {
        avail.w
    };
    (v2, avail_w)
}

/// In a vertical box, the first child sits at the top padding and each next
/// child starts where its predecessor ends, plus the panel's gap: its `y` is
/// the previous child's `y` plus that child's height plus the gap. Across,
/// each child sits by its horizontal alignment in the column, which is the
/// box's width less its padding: at the left padding when aligned to the
/// start, with as much room left as right (rounded toward zero) when
/// centered, flush with the right of the column when aligned to the end.
/// (The box's children are distinct views of the scene, and the box is not
/// one of its own children.)
pub proof fn law_vbox_stacks_gap_apart(m: SceneModel, target: Seq<char>, ps: PanelState, space: Size, th: LayoutTheme, fuel: nat)
    requires
        m.views.contains_key(target),
        m.views[target].state == Some(ViewState::Panel(ps)),
        children_of(m.kids, target).no_duplicates(),
        !children_of(m.kids, target).contains(target),
        forall|j: int| 0 <= j < children_of(m.kids, target).len() ==> m.views.contains_key(#[trigger] children_of(m.kids, target)[j]),
    ensures
        run_layout(m.views, m.kids, target, LayoutKind::VBox, space, th, fuel) matches Some(r) ==> {
            let all = children_of(m.kids, target);
            let col_w = r[target].bounds.size.w - ps.padding.left - ps.padding.right;
            &&& all.len() > 0 ==> r[all[0]].bounds.position.y == ps.padding.top
            &&& forall|i: int, j: int|
                #![trigger r[all[i]], r[all[j]]]
                0 <= i && j == i + 1 && j < all.len() ==> r[all[j]].bounds.position.y == r[all[i]].bounds.position.y
                    + r[all[i]].bounds.size.h + ps.gap
            &&& forall|j: int|
                0 <= j < all.len() ==> (#[trigger] r[all[j]]).bounds.position.x == ps.padding.left + aligned_at(
                    r[all[j]].h_align,
                    col_w,
                    r[all[j]].bounds.size.w as int,
                )
        },
{
    if run_layout(m.views, m.kids, target, LayoutKind::VBox, space, th, fuel) is Some {
        let all = children_of(m.kids, target);
        assert(run_layout(m.views, m.kids, target, LayoutKind::VBox, space, th, fuel) == vbox(m.views, m.kids, target, space, th, fuel));
        let (v2, aw) = lemma_vbox_stages(m.views, m.kids, target, space, th, fuel, ps);
        assert forall|j: int| 0 <= j < all.len() implies v2.contains_key(#[trigger] all[j]) by {
            assert(m.views.contains_key(all[j]));
        }
        lemma_column_stacks(v2, all, ps.padding.top, aw, ps.padding.left, ps.gap);
        let (v3, _) = place_column(v2, all, ps.padding.top, aw, ps.padding.left, ps.gap)->0;
        let r = run_layout(m.views, m.kids, target, LayoutKind::VBox, space, th, fuel)->0;
        assert forall|j: int| 0 <= j < all.len() implies r[#[trigger] all[j]] == v3[all[j]] by {
            assert(all[j] != target);
        }
        if all.len() > 0 {
            assert(r[all[0]] == v3[all[0]]);
        }
        assert(v3.contains_key(target));
        assert(v3[target] == v2[target]);
        assert(v3[target].h_flex == m.views[target].h_flex);
        let col_w = r[target].bounds.size.w - ps.padding.left - ps.padding.right;
        assert(col_w == aw);
        assert forall|i: int, j: int|
            #![trigger r[all[i]], r[all[j]]]
            0 <= i && j == i + 1 && j < all.len() implies r[all[j]].bounds.position.y == r[all[i]].bounds.position.y
                + r[all[i]].bounds.size.h + ps.gap by {
            assert(r[all[i]] == v3[all[i]]);
            assert(r[all[j]] == v3[all[j]]);
            assert(v3[all[j]].bounds.position.y == v3[all[i]].bounds.position.y + v3[all[i]].bounds.size.h + ps.gap);
        }
    }
}

/// A horizontal box that succeeds has laid out its children into views
/// `v2` (with the same views as before), placed them in a row of a height,
/// and then sized itself.
proof fn lemma_hbox_stages(views: Views, kids: Kids, id: Seq<char>, space: Size, th: LayoutTheme, fuel: nat, ps: PanelState) -> (r: (Views, i32))
    requires
        views.contains_key(id),
        views[id].state == Some(ViewState::Panel(ps)),
        hbox(views, kids, id, space, th, fuel) is Some,
    ensures
        r.0.dom() == views.dom(),
        only_bounds_differ(views, r.0),
        r.1 == if views[id].v_flex == Flex::Intrinsic {
            max_extent(r.0, children_of(kids, id), true) as int
        } else {
            space.h - ps.padding.top - ps.padding.bottom
        },
        place_row(r.0, children_of(kids, id), ps.padding.left, r.1, ps.padding.top, ps.gap) matches Some((v3, x))
            && hbox(views, kids, id, space, th, fuel) == hbox_finish(v3, id, r.1, x, ps.padding),
{
    let parent = views[id];
    let pad = ps.padding;
    let all = children_of(kids, id);
    let h0 = if parent.v_flex == Flex::Resize {
        space.h
    } else {
        parent.bounds.size.h
    };
    let w0 = if parent.h_flex == Flex::Resize {
        space.w
    } else {
        parent.bounds.size.w
    };
    let v0 = rebound(views, id, resized(parent, w0, h0));
    assert(v0.dom() =~= views.dom());
    lemma_obd_rebound(views, views, id, resized(parent, w0, h0));
    lemma_obd_refl(views);
    let avail = size_minus_insets(space, pad);
    let fixed = filter_kids(v0, all, ChildFilter::HFlex(Flex::Intrinsic));
    lemma_list_bounds(v0, kids, fixed, avail, th, fuel);
    let v1 = layout_list(v0, kids, fixed, avail, th, fuel)->0;
    lemma_obd_trans(views, v0, v1);
    let sum = sum_extent(v1, fixed, false)->0;
    let leftover = add_ck(size_minus_insets(avail, pad).h as int, -(sum as int))->0;
    let flex = filter_kids(v1, all, ChildFilter::HFlex(Flex::Resize));
    let v2 = if flex.len() > 0 {
        let share = flex_share(leftover, flex.len())->0;
        let h1 = add_ck(space.h as int, -(pad.top as int))->0;
        let fh = add_ck(h1 as int, -(pad.bottom as int))->0;
        lemma_list_bounds(v1, kids, flex, Size { w: share, h: fh }, th, fuel);
        let v2 = layout_list(v1, kids, flex, Size { w: share, h: fh }, th, fuel)->0;
        lemma_obd_trans(views, v1, v2);
        v2
    } else {
        v1
    };
    let max_h = max_extent(v2, all, true);
    let avail_h = if parent.v_flex == Flex::Intrinsic {
        max_h
    } else {
        avail.h
    };
    (v2, avail_h)
}

/// In a horizontal box, the first child sits at the left padding and each
/// next child starts where its predecessor ends, plus the panel's gap.
/// Down the row, each child sits by its vertical
/// alignment: at the top padding when aligned to the start, with as much
/// room above as below (half the room left, rounded toward zero) when
/// centered, and flush with the bottom of the row when aligned to the end.
/// The row is the box's height less its padding: the offered height when
/// the box's height is resizable, its tallest child when it is intrinsic.
/// (The box's children are distinct views of the scene, and the box is not
/// one of its own children.)
pub proof fn law_hbox_aligns_down_the_row(m: SceneModel, target: Seq<char>, ps: PanelState, space: Size, th: LayoutTheme, fuel: nat)
    requires
        m.views.contains_key(target),
        m.views[target].state == Some(ViewState::Panel(ps)),
        children_of(m.kids, target).no_duplicates(),
        !children_of(m.kids, target).contains(target),
        forall|j: int| 0 <= j < children_of(m.kids, target).len() ==> m.views.contains_key(#[trigger] children_of(m.kids, target)[j]),
    ensures
        run_layout(m.views, m.kids, target, LayoutKind::HBox, space, th, fuel) matches Some(r) ==> {
            let all = children_of(m.kids, target);
            let row_h = if m.views[target].v_flex == Flex::Intrinsic {
                r[target].bounds.size.h - ps.padding.top - ps.padding.bottom
            } else {
                space.h - ps.padding.top - ps.padding.bottom
            };
            &&& forall|j: int|
                0 <= j < all.len() ==> (#[trigger] r[all[j]]).bounds.position.y == ps.padding.top + aligned_at(
                    r[all[j]].v_align,
                    row_h,
                    r[all[j]].bounds.size.h as int,
                )
            &&& all.len() > 0 ==> r[all[0]].bounds.position.x == ps.padding.left
            &&& forall|i: int, j: int|
                #![trigger r[all[i]], r[all[j]]]
                0 <= i && j == i + 1 && j < all.len() ==> r[all[j]].bounds.position.x == r[all[i]].bounds.position.x
                    + r[all[i]].bounds.size.w + ps.gap
        },
{
    if run_layout(m.views, m.kids, target, LayoutKind::HBox, space, th, fuel) is Some {
        let all = children_of(m.kids, target);
        assert(run_layout(m.views, m.kids, target, LayoutKind::HBox, space, th, fuel) == hbox(m.views, m.kids, target, space, th, fuel));
        let (v2, ah) = lemma_hbox_stages(m.views, m.kids, target, space, th, fuel, ps);
        assert forall|j: int| 0 <= j < all.len() implies v2.contains_key(#[trigger] all[j]) by {
            assert(m.views.contains_key(all[j]));
        }
        lemma_row_aligns(v2, all, ps.padding.left, ah, ps.padding.top, ps.gap);
        let (v3, x) = place_row(v2, all, ps.padding.left, ah, ps.padding.top, ps.gap)->0;
        let r = run_layout(m.views, m.kids, target, LayoutKind::HBox, space, th, fuel)->0;
        assert(v3.contains_key(target));
        let row_h = if m.views[target].v_flex == Flex::Intrinsic {
            r[target].bounds.size.h - ps.padding.top - ps.padding.bottom
        } else {
            space.h - ps.padding.top - ps.padding.bottom
        };
        if m.views[target].v_flex == Flex::Intrinsic {
            assert(v3[target] == v2[target]);
            assert(v3[target].v_flex == m.views[target].v_flex);
        }
        assert(row_h == ah);
        assert forall|j: int| 0 <= j < all.len() implies (#[trigger] r[all[j]]).bounds.position.y
            == ps.padding.top + aligned_at(r[all[j]].v_align, row_h, r[all[j]].bounds.size.h as int) by {
            assert(all[j] != target);
            assert(r[all[j]] == v3[all[j]]);
        }
        if all.len() > 0 {
            assert(r[all[0]] == v3[all[0]]);
        }
        assert forall|i: int, j: int|
            #![trigger r[all[i]], r[all[j]]]
            0 <= i && j == i + 1 && j < all.len() implies r[all[j]].bounds.position.x == r[all[i]].bounds.position.x
                + r[all[i]].bounds.size.w + ps.gap by {
            assert(r[all[i]] == v3[all[i]]);
            assert(r[all[j]] == v3[all[j]]);
            assert(v3[all[j]].bounds.position.x == v3[all[i]].bounds.position.x + v3[all[i]].bounds.size.w + ps.gap);
        }
    }
}

/// A grid places a child in the cell of its constraint by its alignments:
/// the cell starts at the column times the column width and the row times
/// the row height, and spans as many columns and rows as the constraint
/// says; across, the child sits at the cell's left edge when aligned to the
/// start, with as much room left as right (rounded toward zero) when
/// centered, and with its right edge on the cell's right edge when aligned
/// to the end; likewise down. Its size is kept. (The cell's position and
/// size are taken to fit in `i32`.)
pub proof fn law_grid_places_child_in_its_cell(
    v1: Views,
    id: Seq<char>,
    kid: Seq<char>,
    gs: GridLayoutState,
    c: LayoutConstraint,
)
    requires
        v1.contains_key(id),
        v1.contains_key(kid),
        v1[id].state == Some(ViewState::Grid(gs)),
        constraint_entries(gs.constraints).contains_key(kid),
        constraint_entries(gs.constraints)[kid] == c,
        gs.col_width <= i32::MAX,
        gs.row_height <= i32::MAX,
        c.col_span <= i32::MAX,
        c.row_span <= i32::MAX,
        fits(c.col * gs.col_width),
        fits(c.row * gs.row_height),
    ensures
        grid_place(v1, id, kid) matches Some(v) ==> {
            let cell_x = c.col * gs.col_width;
            let cell_y = c.row * gs.row_height;
            let cell_w = gs.col_width * c.col_span;
            let cell_h = gs.row_height * c.row_span;
            let b = v[kid].bounds;
            &&& b.size == v1[kid].bounds.size
            &&& b.position.x == cell_x + aligned_at(v1[kid].h_align, cell_w, b.size.w as int)
            &&& b.position.y == cell_y + aligned_at(v1[kid].v_align, cell_h, b.size.h as int)
        },
{
    if grid_place(v1, id, kid) is Some {
        assert(c.col * gs.col_width <= usize::MAX);
        assert(c.row * gs.row_height <= usize::MAX);
    }
}

/// Whether a view's own layout only sizes the view itself: it has none, or
/// it is a button, a label, a list or a view of the application's own
/// making.
pub open spec fn sizes_only_itself(v: View) -> bool {
    match v.layout {
        None => true,
        Some(k) => k == LayoutKind::Button || k == LayoutKind::Label || k == LayoutKind::List || k
            == LayoutKind::Custom,
    }
}

/// Whether `b` sits in the cell of the constraint of `kid` in the grid
/// state `gs` by the alignments `ha` and `va`, as
/// `law_grid_places_child_in_its_cell` says; it holds of a child without a
/// constraint, or whose cell does not fit in `i32`.
pub open spec fn in_its_cell(gs: GridLayoutState, kid: Seq<char>, b: Bounds, ha: Align, va: Align) -> bool {
    let cs = constraint_entries(gs.constraints);
    cs.contains_key(kid) && gs.col_width <= i32::MAX && gs.row_height <= i32::MAX && cs[kid].col_span <= i32::MAX
        && cs[kid].row_span <= i32::MAX && fits(cs[kid].col * gs.col_width) && fits(cs[kid].row * gs.row_height)
        ==> {
        let c = cs[kid];
        &&& b.position.x == c.col * gs.col_width + aligned_at(ha, gs.col_width * c.col_span, b.size.w as int)
        &&& b.position.y == c.row * gs.row_height + aligned_at(va, gs.row_height * c.row_span, b.size.h as int)
    }
}

/// Laying out a view whose layout only sizes itself changes nothing but
/// that view's bounds.
proof fn lemma_leaf_child(views: Views, kids: Kids, k: Seq<char>, space: Size, th: LayoutTheme, fuel: nat)
    requires
        views.contains_key(k) ==> sizes_only_itself(views[k]),
        layout_child(views, kids, k, space, th, fuel) is Some,
    ensures
        ({
            let v = layout_child(views, kids, k, space, th, fuel)->0;
            &&& v.dom() == views.dom()
            &&& forall|kk: Seq<char>| kk != k ==> #[trigger] v[kk] == views[kk]
            &&& views.contains_key(k) ==> v[k] == (View { bounds: v[k].bounds, ..views[k] })
        }),
{
    let v = layout_child(views, kids, k, space, th, fuel)->0;
    if fuel > 0 && views.contains_key(k) && views[k].layout is Some {
        assert(v == run_layout(views, kids, k, views[k].layout->0, space, th, (fuel - 1) as nat)->0);
        assert(v.dom() =~= views.dom());
    }
}

/// Placing the children `ids` of a grid one by one, each of whose layouts
/// only sizes itself, leaves each in its cell, changes nothing but their
/// bounds, and leaves every other view as it was.
proof fn lemma_grid_children_in_cells(
    views: Views,
    kids: Kids,
    id: Seq<char>,
    ids: Seq<Seq<char>>,
    space: Size,
    th: LayoutTheme,
    fuel: nat,
    gs: GridLayoutState,
)
    requires
        views.contains_key(id),
        views[id].state == Some(ViewState::Grid(gs)),
        ids.no_duplicates(),
        !ids.contains(id),
        forall|j: int| 0 <= j < ids.len() ==> views.contains_key(#[trigger] ids[j]),
        forall|j: int| 0 <= j < ids.len() ==> sizes_only_itself(views[#[trigger] ids[j]]),
        grid_children(views, kids, id, ids, space, th, fuel) is Some,
    ensures
        ({
            let r = grid_children(views, kids, id, ids, space, th, fuel)->0;
            &&& r.dom() == views.dom()
            &&& forall|kk: Seq<char>| !ids.contains(kk) ==> #[trigger] r[kk] == views[kk]
            &&& forall|j: int| 0 <= j < ids.len() ==> {
                &&& (#[trigger] r[ids[j]]) == (View { bounds: r[ids[j]].bounds, ..views[ids[j]] })
                &&& in_its_cell(gs, ids[j], r[ids[j]].bounds, r[ids[j]].h_align, r[ids[j]].v_align)
            }
        }),
    decreases ids.len(),
{
    if ids.len() > 0 {
        let pre = ids.drop_last();
        assert(pre.no_duplicates()) by {
            assert forall|a: int, b: int| 0 <= a < pre.len() && 0 <= b < pre.len() && a != b implies pre[a] != pre[b] by {
                assert(pre[a] == ids[a] && pre[b] == ids[b]);
            }
        }
        assert(!pre.contains(id)) by {
            if pre.contains(id) {
                let a = choose|a: int| 0 <= a < pre.len() && pre[a] == id;
                assert(ids[a] == id);
            }
        }
        assert forall|j: int| 0 <= j < pre.len() implies views.contains_key(#[trigger] pre[j]) && sizes_only_itself(views[pre[j]]) by {
            assert(pre[j] == ids[j]);
        }
        lemma_grid_children_in_cells(views, kids, id, pre, space, th, fuel, gs);
        let k = ids.last();
        assert(ids[ids.len() - 1] == k);
        assert(!pre.contains(k)) by {
            if pre.contains(k) {
                let a = choose|a: int| 0 <= a < pre.len() && pre[a] == k;
                assert(ids[a] == ids[ids.len() - 1]);
            }
        }
        assert(k != id);
        assert forall|kk: Seq<char>| ids.contains(kk) && kk != k implies pre.contains(kk) by {
            let a = choose|a: int| 0 <= a < ids.len() && ids[a] == kk;
            assert(pre[a] == kk);
        }
        let v = grid_children(views, kids, id, pre, space, th, fuel)->0;
        assert(v[k] == views[k]);
        assert(v[id] == views[id]);
        lemma_leaf_child(v, kids, k, space, th, fuel);
        let v1 = layout_child(v, kids, k, space, th, fuel)->0;
        assert(v1[id] == views[id]);
        let r = grid_place(v1, id, k)->0;
        assert(grid_children(views, kids, id, ids, space, th, fuel) == grid_place(v1, id, k));
        let cs = constraint_entries(gs.constraints);
        if cs.contains_key(k) && gs.col_width <= i32::MAX && gs.row_height <= i32::MAX && cs[k].col_span <= i32::MAX
            && cs[k].row_span <= i32::MAX && fits(cs[k].col * gs.col_width) && fits(cs[k].row * gs.row_height) {
            law_grid_places_child_in_its_cell(v1, id, k, gs, cs[k]);
        }
        assert(r.dom() =~= views.dom());
        assert forall|j: int| 0 <= j < ids.len() - 1 implies r[ids[j]] == v[ids[j]] by {
            assert(ids[j] == pre[j]);
            assert(pre.contains(pre[j]));
        }
        assert forall|j: int| 0 <= j < ids.len() implies {
            &&& (#[trigger] r[ids[j]]) == (View { bounds: r[ids[j]].bounds, ..views[ids[j]] })
            &&& in_its_cell(gs, ids[j], r[ids[j]].bounds, r[ids[j]].h_align, r[ids[j]].v_align)
        } by {
            if j < ids.len() - 1 {
                assert(pre[j] == ids[j]);
            }
        }
    }
}

/// A grid places each of its children in the cell of the child's
/// constraint by the child's alignments (see
/// `law_grid_places_child_in_its_cell`), when each child's own layout only
/// sizes that child: a child aligned to the end across has its right edge
/// on its cell's right edge, and likewise down. (The grid's children are
/// distinct views of the scene, and the grid is not one of its own
/// children.)
pub proof fn law_grid_children_sit_in_their_cells(
    m: SceneModel,
    target: Seq<char>,
    gs: GridLayoutState,
    space: Size,
    th: LayoutTheme,
    fuel: nat,
)
    requires
        m.views.contains_key(target),
        m.views[target].state == Some(ViewState::Grid(gs)),
        children_of(m.kids, target).no_duplicates(),
        !children_of(m.kids, target).contains(target),
        forall|j: int| 0 <= j < children_of(m.kids, target).len() ==> m.views.contains_key(#[trigger] children_of(m.kids, target)[j]),
        forall|j: int| 0 <= j < children_of(m.kids, target).len() ==> sizes_only_itself(m.views[#[trigger] children_of(m.kids, target)[j]]),
    ensures
        run_layout(m.views, m.kids, target, LayoutKind::Grid, space, th, fuel) matches Some(r) ==> {
            let all = children_of(m.kids, target);
            forall|j: int|
                0 <= j < all.len() ==> in_its_cell(gs, all[j], (#[trigger] r[all[j]]).bounds, r[all[j]].h_align, r[all[j]].v_align)
        },
{
    if run_layout(m.views, m.kids, target, LayoutKind::Grid, space, th, fuel) is Some {
        let all = children_of(m.kids, target);
        let v = m.views[target];
        assert(run_layout(m.views, m.kids, target, LayoutKind::Grid, space, th, fuel) == grid(m.views, m.kids, target, space, th, fuel));
        let w = if v.h_flex == Flex::Resize {
            space.w
        } else {
            v.bounds.size.w
        };
        let h = if v.v_flex == Flex::Resize {
            space.h
        } else {
            v.bounds.size.h
        };
        let v0 = rebound(m.views, target, resized(v, w, h));
        assert(v0.dom() =~= m.views.dom());
        assert forall|j: int| 0 <= j < all.len() implies v0.contains_key(#[trigger] all[j]) && sizes_only_itself(v0[all[j]]) by {
            assert(all[j] != target);
            assert(m.views.contains_key(all[j]));
        }
        lemma_grid_children_in_cells(v0, m.kids, target, all, Size { w, h }, th, fuel, gs);
    }
}

} // verus!
