//! Layout: each view with a layout sizes itself to the space that its
//! parent offers and places its children.
//!
//! The passes are stated as functions on the views of the scene that
//! return `None` exactly where the computation with `i32` (or `u32`)
//! arithmetic would overflow or divide by zero; the executable passes report
//! that case as an error.
use vstd::prelude::*;
use vstd::view::View as _;
use crate::geom::{
    div_i32, fits, size_minus_insets, size_minus_insets_ok, tdiv, Bounds, Insets, Point, Size,
};
use crate::input::ArithmeticFault;
use crate::scene::{children_of, depth_limit, filter_kids, ChildFilter, Scene, SceneModel};
use crate::tables::constraint_entries;
use crate::util::{byte_len, calc_size, text_fits, text_size, text_size_ok, FontMetrics, LayoutTheme};
use crate::view::{Align, Flex, LayoutKind, View, ViewId, ViewState};

verus! {

pub type Views = Map<Seq<char>, View>;

pub type Kids = Map<Seq<char>, Seq<Seq<char>>>;

/// `views` with the bounds of `id` replaced, when it exists.
pub open spec fn rebound(views: Views, id: Seq<char>, b: Bounds) -> Views {
    if views.contains_key(id) {
        views.insert(id, View { bounds: b, ..views[id] })
    } else {
        views
    }
}

/// The bounds of `v` with a new size.
pub open spec fn resized(v: View, w: i32, h: i32) -> Bounds {
    Bounds { position: v.bounds.position, size: Size { w, h } }
}

/// The bounds of `v` at a new position.
pub open spec fn moved(v: View, x: i32, y: i32) -> Bounds {
    Bounds { position: Point { x, y }, size: v.bounds.size }
}

/// `a + b` when it fits in `i32`.
pub open spec fn add_ck(a: int, b: int) -> Option<i32> {
    if fits(a + b) {
        Some((a + b) as i32)
    } else {
        None
    }
}

/// Where a child of size `size` starts in a space of `avail` under the
/// alignment `a`; none when the subtraction overflows.
pub open spec fn align_offset(a: Align, avail: i32, size: i32) -> Option<i32> {
    match a {
        Align::Start => Some(0),
        Align::Center => if fits(avail - size) {
            Some(tdiv(avail - size, 2) as i32)
        } else {
            None
        },
        Align::End => if fits(avail - size) {
            Some((avail - size) as i32)
        } else {
            None
        },
    }
}

/// The sum of the heights of the existing views of `ids` (`vertical`) or of
/// their widths, added in order to a running total that starts at zero.
pub open spec fn sum_extent(views: Views, ids: Seq<Seq<char>>, vertical: bool) -> Option<i32>
    decreases ids.len(),
{
    if ids.len() == 0 {
        Some(0)
    } else {
        match sum_extent(views, ids.drop_last(), vertical) {
            None => None,
            Some(a) => if views.contains_key(ids.last()) {
                let s = views[ids.last()].bounds.size;
                add_ck(if vertical { s.h as int } else { s.w as int }, a as int)
            } else {
                Some(a)
            },
        }
    }
}

/// The largest height (`vertical`) or width among the existing views of
/// `ids`, and zero.
pub open spec fn max_extent(views: Views, ids: Seq<Seq<char>>, vertical: bool) -> i32
    decreases ids.len(),
{
    if ids.len() == 0 {
        0
    } else {
        let m = max_extent(views, ids.drop_last(), vertical);
        if views.contains_key(ids.last()) {
            let s = views[ids.last()].bounds.size;
            let e = if vertical { s.h } else { s.w };
            if m >= e {
                m
            } else {
                e
            }
        } else {
            m
        }
    }
}

/// Places the existing views of `ids` in a column: each at `y`, which
/// starts at `y0` and grows by the view's height and `gap`, and across at
/// its horizontal alignment in `avail_w` plus `left`. Gives the views and the
/// final `y`.
pub open spec fn place_column(views: Views, ids: Seq<Seq<char>>, y0: i32, avail_w: i32, left: i32, gap: i32) -> Option<
    (Views, i32),
>
    decreases ids.len(),
{
    if ids.len() == 0 {
        Some((views, y0))
    } else {
        match place_column(views, ids.drop_last(), y0, avail_w, left, gap) {
            None => None,
            Some((v, y)) => {
                let k = ids.last();
                if v.contains_key(k) {
                    let kv = v[k];
                    match align_offset(kv.h_align, avail_w, kv.bounds.size.w) {
                        None => None,
                        Some(o) => match add_ck(o as int, left as int) {
                            None => None,
                            Some(x) => match add_ck(kv.bounds.size.h as int, gap as int) {
                                None => None,
                                Some(step) => match add_ck(y as int, step as int) {
                                    None => None,
                                    Some(y2) => Some((rebound(v, k, moved(kv, x, y)), y2)),
                                },
                            },
                        },
                    }
                } else {
                    Some((v, y))
                }
            },
        }
    }
}

/// Places the existing views of `ids` in a row: each at `x`, which starts
/// at `x0` and grows by the view's width and then by `gap`, and down at its
/// vertical alignment in `avail_h` plus `top`. Gives the views and the final
/// `x`.
pub open spec fn place_row(views: Views, ids: Seq<Seq<char>>, x0: i32, avail_h: i32, top: i32, gap: i32) -> Option<
    (Views, i32),
>
    decreases ids.len(),
{
    if ids.len() == 0 {
        Some((views, x0))
    } else {
        match place_row(views, ids.drop_last(), x0, avail_h, top, gap) {
            None => None,
            Some((v, x)) => {
                let k = ids.last();
                if v.contains_key(k) {
                    let kv = v[k];
                    match add_ck(x as int, kv.bounds.size.w as int) {
                        None => None,
                        Some(x1) => match add_ck(x1 as int, gap as int) {
                            None => None,
                            Some(x2) => match align_offset(kv.v_align, avail_h, kv.bounds.size.h) {
                                None => None,
                                Some(o) => match add_ck(o as int, top as int) {
                                    None => None,
                                    Some(y) => Some((rebound(v, k, moved(kv, x, y)), x2)),
                                },
                            },
                        },
                    }
                } else {
                    Some((v, x))
                }
            },
        }
    }
}

/// The share of `total` that each of `n` flexible children gets; none when
/// the division faults.
pub open spec fn flex_share(total: i32, n: nat) -> Option<i32> {
    let c = n as i32;
    if c == 0 || (total == i32::MIN && c == -1) {
        None
    } else {
        Some(tdiv(total as int, c as int) as i32)
    }
}

/// The height of a row of text in `font`: the character height plus half
/// of it above and below, in `u32`; none when it overflows.
pub open spec fn row_height(font: FontMetrics) -> Option<u32> {
    if font.height + (font.height / 2) * 2 <= u32::MAX {
        Some((font.height + (font.height / 2) * 2) as u32)
    } else {
        None
    }
}

/// The cell of a grid child: from its constraint, or the empty rectangle
/// at the origin when it has none; none when the arithmetic overflows.
pub open spec fn grid_cell(col_width: usize, row_height: usize, cons: Option<crate::grid::LayoutConstraint>) -> Option<
    Bounds,
> {
    match cons {
        None => Some(Bounds { position: Point { x: 0, y: 0 }, size: Size { w: 0, h: 0 } }),
        Some(c) => if c.col * col_width > usize::MAX || c.row * row_height > usize::MAX {
            None
        } else {
            let cw = col_width as i32;
            let rh = row_height as i32;
            let cs = c.col_span as i32;
            let rs = c.row_span as i32;
            if !fits(cw * cs) || !fits(rh * rs) {
                None
            } else {
                Some(
                    Bounds {
                        position: Point {
                            x: ((c.col * col_width) as usize) as i32,
                            y: ((c.row * row_height) as usize) as i32,
                        },
                        size: Size { w: (cw * cs) as i32, h: (rh * rs) as i32 },
                    },
                )
            }
        },
    }
}

/// Where a child of size `size` sits in a cell that starts at `start` and
/// spans `extent`, under the alignment `a`.
pub open spec fn cell_offset(a: Align, start: i32, extent: i32, size: i32) -> Option<i32> {
    match a {
        Align::Start => Some(start),
        Align::Center => if fits(extent - size) {
            add_ck(start as int, tdiv(extent - size, 2))
        } else {
            None
        },
        Align::End => match add_ck(start as int, extent as int) {
            None => None,
            Some(e) => add_ck(e as int, -(size as int)),
        },
    }
}

/// The text `tabs`.
pub open spec fn tabs_id() -> Seq<char> {
    seq!['t', 'a', 'b', 's']
}

/// Lays out the view `id` in `space`, when it exists and has a layout.
pub open spec fn layout_child(views: Views, kids: Kids, id: Seq<char>, space: Size, th: LayoutTheme, fuel: nat) -> Option<
    Views,
>
    decreases fuel, 0nat, 0nat,
{
    if fuel == 0 || !views.contains_key(id) {
        Some(views)
    } else {
        match views[id].layout {
            None => Some(views),
            Some(k) => run_layout(views, kids, id, k, space, th, (fuel - 1) as nat),
        }
    }
}

/// Lays out each view of `ids` in `space`, in order.
pub open spec fn layout_list(views: Views, kids: Kids, ids: Seq<Seq<char>>, space: Size, th: LayoutTheme, fuel: nat) -> Option<
    Views,
>
    decreases fuel, 1nat, ids.len(),
{
    if ids.len() == 0 {
        Some(views)
    } else {
        match layout_list(views, kids, ids.drop_last(), space, th, fuel) {
            None => None,
            Some(v) => layout_child(v, kids, ids.last(), space, th, fuel),
        }
    }
}

/// The layout `kind` of the view `id`, in `space`.
pub open spec fn run_layout(
    views: Views,
    kids: Kids,
    id: Seq<char>,
    kind: LayoutKind,
    space: Size,
    th: LayoutTheme,
    fuel: nat,
) -> Option<Views>
    decreases fuel, 3nat, 0nat,
{
    if !views.contains_key(id) {
        Some(views)
    } else {
        let v = views[id];
        match kind {
            LayoutKind::Root => layout_list(
                rebound(views, id, resized(v, space.w, space.h)),
                kids,
                children_of(kids, id),
                space,
                th,
                fuel,
            ),
            LayoutKind::VBox => vbox(views, kids, id, space, th, fuel),
            LayoutKind::HBox => hbox(views, kids, id, space, th, fuel),
            LayoutKind::StdPanel => std_panel(views, kids, id, space, th, fuel),
            LayoutKind::Grid => grid(views, kids, id, space, th, fuel),
            LayoutKind::ToggleGroup => {
                match row_height(th.font) {
                    None => None,
                    Some(height) => {
                        let w = if v.h_flex == Flex::Resize {
                            space.w
                        } else {
                            50i32
                        };
                        let h = if v.v_flex == Flex::Resize {
                            space.h
                        } else {
                            height as i32
                        };
                        layout_list(rebound(views, id, resized(v, w, h)), kids, children_of(kids, id), space, th, fuel)
                    },
                }
            },
            LayoutKind::TabbedPanel => tabbed(views, kids, id, space, th, fuel),
            LayoutKind::Button => if text_size_ok(th.bold_font, byte_len(v.title@)) {
                let s = text_size(th.bold_font, byte_len(v.title@));
                Some(rebound(views, id, resized(v, s.w, s.h)))
            } else {
                None
            },
            LayoutKind::Label => if text_size_ok(th.font, byte_len(v.title@)) {
                let s = text_size(th.font, byte_len(v.title@));
                Some(rebound(views, id, resized(v, s.w, s.h)))
            } else {
                None
            },
            LayoutKind::List => match v.state {
                Some(ViewState::List(_)) => match row_height(th.font) {
                    None => None,
                    Some(height) => Some(rebound(views, id, resized(v, v.bounds.size.w, height as i32))),
                },
                _ => Some(views),
            },
            LayoutKind::Custom => match v.state {
                Some(ViewState::Custom(c)) => {
                    let s = c.size_in(v.title@, v.bounds.size, space, th);
                    Some(rebound(views, id, resized(v, s.w, s.h)))
                },
                _ => Some(views),
            },
        }
    }
}

/// A standard panel: it takes the offered size along its flexible axes,
/// then lays out its children in its own size less its padding. A view
/// without panel state is left alone.
pub open spec fn std_panel(views: Views, kids: Kids, id: Seq<char>, space: Size, th: LayoutTheme, fuel: nat) -> Option<
    Views,
>
    decreases fuel, 2nat, 0nat,
{
    let v = views[id];
    match v.state {
        Some(ViewState::Panel(ps)) => {
            let h = if v.v_flex == Flex::Resize {
                space.h
            } else {
                v.bounds.size.h
            };
            let w = if v.h_flex == Flex::Resize {
                space.w
            } else {
                v.bounds.size.w
            };
            let size = Size { w, h };
            if !size_minus_insets_ok(size, ps.padding) {
                None
            } else {
                layout_list(
                    rebound(views, id, resized(v, w, h)),
                    kids,
                    children_of(kids, id),
                    size_minus_insets(size, ps.padding),
                    th,
                    fuel,
                )
            }
        },
        _ => Some(views),
    }
}

/// A vertical box: intrinsic-height children are laid out in the space
/// less the padding; the height that they leave is shared equally among
/// the resizable-height children; all children are then stacked from the
/// top padding, `gap` apart, each aligned across the box. The box takes
/// the offered width when it is resizable and its widest child plus the
/// padding otherwise, and the offered height when it is resizable. A view
/// without panel state is left alone.
pub open spec fn vbox(views: Views, kids: Kids, id: Seq<char>, space: Size, th: LayoutTheme, fuel: nat) -> Option<
    Views,
>
    decreases fuel, 2nat, 0nat,
{
    let parent = views[id];
    match parent.state {
        Some(ViewState::Panel(ps)) => {
            let pad = ps.padding;
            let all = children_of(kids, id);
            if !size_minus_insets_ok(space, pad) {
                None
            } else {
                let avail = size_minus_insets(space, pad);
                let fixed = filter_kids(views, all, ChildFilter::VFlex(Flex::Intrinsic));
                match layout_list(views, kids, fixed, avail, th, fuel) {
                    None => None,
                    Some(v1) => match sum_extent(v1, fixed, true) {
                        None => None,
                        Some(sum) => match add_ck(avail.h as int, -(sum as int)) {
                            None => None,
                            Some(leftover) => {
                                let flex = filter_kids(v1, all, ChildFilter::VFlex(Flex::Resize));
                                let v2 = if flex.len() > 0 {
                                    match (add_ck(space.w as int, -(pad.left as int)), flex_share(leftover, flex.len())) {
                                        (Some(w1), Some(share)) => match add_ck(w1 as int, -(pad.right as int)) {
                                            Some(fw) => layout_list(v1, kids, flex, Size { w: fw, h: share }, th, fuel),
                                            None => None,
                                        },
                                        _ => None,
                                    }
                                } else {
                                    Some(v1)
                                };
                                match v2 {
                                    None => None,
                                    Some(v2) => {
                                        let max_w = max_extent(v2, all, false);
                                        let avail_w = if parent.h_flex == Flex::Intrinsic {
                                            max_w
                                        } else {
                                            avail.w
                                        };
                                        match place_column(v2, all, pad.top, avail_w, pad.left, ps.gap) {
                                            None => None,
                                            Some((v3, _)) => vbox_finish(v3, id, space, max_w, pad),
                                        }
                                    },
                                }
                            },
                        },
                    },
                }
            }
        },
        _ => Some(views),
    }
}

/// The vertical box sizes itself.
pub open spec fn vbox_finish(v3: Views, id: Seq<char>, space: Size, max_w: i32, pad: Insets) -> Option<Views> {
    if !v3.contains_key(id) {
        Some(v3)
    } else {
        let p = v3[id];
        let w1 = if p.h_flex == Flex::Resize {
            Some(space.w)
        } else {
            match add_ck(max_w as int, pad.left as int) {
                None => None,
                Some(a) => add_ck(a as int, pad.right as int),
            }
        };
        match w1 {
            None => None,
            Some(w) => {
                let h = if p.v_flex == Flex::Resize {
                    space.h
                } else {
                    p.bounds.size.h
                };
                Some(rebound(v3, id, resized(p, w, h)))
            },
        }
    }
}

/// A horizontal box: it takes the offered size along its resizable axes;
/// intrinsic-width children are laid out in the space less the padding;
/// each flexible child gets, as its width, an equal share of the height of
/// that space, less the padding once more, less the widths of the intrinsic
/// children (a height, not the leftover width, and the padding taken off
/// twice: that is how this layout computes it), and as its height the
/// offered height less the padding; all children are
/// then placed in a row from the left padding, `gap` apart, each aligned
/// down the box. The box ends up as tall as its tallest child plus the
/// padding when its height is intrinsic, and as wide as the row when its
/// width is. A view without panel state is left alone.
pub open spec fn hbox(views: Views, kids: Kids, id: Seq<char>, space: Size, th: LayoutTheme, fuel: nat) -> Option<
    Views,
>
    decreases fuel, 2nat, 0nat,
{
    let parent = views[id];
    match parent.state {
        Some(ViewState::Panel(ps)) => {
            let pad = ps.padding;
            let all = children_of(kids, id);
            let h0 = if parent.v_flex == Flex::Resize {
                space.h
            } else {
                parent.bounds.size.h
            };
            let w0 = if parent.h_flex == Flex::Resize {
                space.w
            } else {
                parent.bounds.size.w
            };
            let v0 = rebound(views, id, resized(parent, w0, h0));
            if !size_minus_insets_ok(space, pad) {
                None
            } else {
                let avail = size_minus_insets(space, pad);
                let fixed = filter_kids(v0, all, ChildFilter::HFlex(Flex::Intrinsic));
                match layout_list(v0, kids, fixed, avail, th, fuel) {
                    None => None,
                    Some(v1) => match sum_extent(v1, fixed, false) {
                        None => None,
                        Some(sum) => if !size_minus_insets_ok(avail, pad) {
                            None
                        } else {
                            match add_ck(size_minus_insets(avail, pad).h as int, -(sum as int)) {
                                None => None,
                                Some(leftover) => {
                                    let flex = filter_kids(v1, all, ChildFilter::HFlex(Flex::Resize));
                                    let v2 = if flex.len() > 0 {
                                        match (flex_share(leftover, flex.len()), add_ck(space.h as int, -(pad.top as int))) {
                                            (Some(share), Some(h1)) => match add_ck(h1 as int, -(pad.bottom as int)) {
                                                Some(fh) => layout_list(v1, kids, flex, Size { w: share, h: fh }, th, fuel),
                                                None => None,
                                            },
                                            _ => None,
                                        }
                                    } else {
                                        Some(v1)
                                    };
                                    match v2 {
                                        None => None,
                                        Some(v2) => {
                                            let max_h = max_extent(v2, all, true);
                                            let avail_h = if parent.v_flex == Flex::Intrinsic {
                                                max_h
                                            } else {
                                                avail.h
                                            };
                                            match place_row(v2, all, pad.left, avail_h, pad.top, ps.gap) {
                                                None => None,
                                                Some((v3, x)) => hbox_finish(v3, id, avail_h, x, pad),
                                            }
                                        },
                                    }
                                },
                            }
                        },
                    },
                }
            }
        },
        _ => Some(views),
    }
}

/// The horizontal box sizes itself along its intrinsic axes.
pub open spec fn hbox_finish(v3: Views, id: Seq<char>, avail_h: i32, x: i32, pad: Insets) -> Option<Views> {
    if !v3.contains_key(id) {
        Some(v3)
    } else {
        let p = v3[id];
        let h1 = if p.v_flex == Flex::Intrinsic {
            match add_ck(avail_h as int, pad.top as int) {
                None => None,
                Some(a) => add_ck(a as int, pad.bottom as int),
            }
        } else {
            Some(p.bounds.size.h)
        };
        match h1 {
            None => None,
            Some(h) => {
                let w = if p.h_flex == Flex::Intrinsic {
                    x
                } else {
                    p.bounds.size.w
                };
                Some(rebound(v3, id, resized(p, w, h)))
            },
        }
    }
}

/// A grid: it takes the offered size along its resizable axes, then lays
/// out each child in its own size and places it in its cell by its
/// alignments.
pub open spec fn grid(views: Views, kids: Kids, id: Seq<char>, space: Size, th: LayoutTheme, fuel: nat) -> Option<
    Views,
>
    decreases fuel, 2nat, 0nat,
{
    let v = views[id];
    let w = if v.h_flex == Flex::Resize {
        space.w
    } else {
        v.bounds.size.w
    };
    let h = if v.v_flex == Flex::Resize {
        space.h
    } else {
        v.bounds.size.h
    };
    let v0 = rebound(views, id, resized(v, w, h));
    grid_children(v0, kids, id, children_of(kids, id), Size { w, h }, th, fuel)
}

/// Lays out and places each child of a grid in turn.
pub open spec fn grid_children(
    views: Views,
    kids: Kids,
    id: Seq<char>,
    ids: Seq<Seq<char>>,
    space: Size,
    th: LayoutTheme,
    fuel: nat,
) -> Option<Views>
    decreases fuel, 1nat, ids.len(),
{
    if ids.len() == 0 {
        Some(views)
    } else {
        match grid_children(views, kids, id, ids.drop_last(), space, th, fuel) {
            None => None,
            Some(v) => match layout_child(v, kids, ids.last(), space, th, fuel) {
                None => None,
                Some(v1) => grid_place(v1, id, ids.last()),
            },
        }
    }
}

/// Places the child `kid` in its cell of the grid `id`, when the grid has
/// grid state.
pub open spec fn grid_place(v1: Views, id: Seq<char>, kid: Seq<char>) -> Option<Views> {
    if !v1.contains_key(id) {
        Some(v1)
    } else {
        match v1[id].state {
            Some(ViewState::Grid(gs)) => {
                let cons = if constraint_entries(gs.constraints).contains_key(kid) {
                    Some(constraint_entries(gs.constraints)[kid])
                } else {
                    None
                };
                match grid_cell(gs.col_width, gs.row_height, cons) {
                    None => None,
                    Some(cell) => if !v1.contains_key(kid) {
                        Some(v1)
                    } else {
                        let kv = v1[kid];
                        match (
                            cell_offset(kv.h_align, cell.position.x, cell.size.w, kv.bounds.size.w),
                            cell_offset(kv.v_align, cell.position.y, cell.size.h, kv.bounds.size.h),
                        ) {
                            (Some(x), Some(y)) => Some(rebound(v1, kid, moved(kv, x, y))),
                            _ => None,
                        }
                    },
                }
            },
            _ => Some(v1),
        }
    }
}

/// A tabbed panel: it takes the offered size along its resizable axes,
/// lays out its `tabs` view in its own size, then lays out every other
/// child in that size less the height of the tabs above and one pixel on
/// the other sides, and places it just below the tabs, one pixel in.
pub open spec fn tabbed(views: Views, kids: Kids, id: Seq<char>, space: Size, th: LayoutTheme, fuel: nat) -> Option<
    Views,
>
    decreases fuel, 2nat, 0nat,
{
    let v = views[id];
    let w = if v.h_flex == Flex::Resize {
        space.w
    } else {
        v.bounds.size.w
    };
    let h = if v.v_flex == Flex::Resize {
        space.h
    } else {
        v.bounds.size.h
    };
    let v0 = rebound(views, id, resized(v, w, h));
    let size = Size { w, h };
    match layout_child(v0, kids, tabs_id(), size, th, fuel) {
        None => None,
        Some(v1) => if !v1.contains_key(tabs_id()) {
            Some(v1)
        } else {
            let insets = Insets { top: v1[tabs_id()].bounds.size.h, right: 1, bottom: 1, left: 1 };
            tab_pages(v1, kids, children_of(kids, id), size, insets, th, fuel)
        },
    }
}

/// Lays out and places each page of a tabbed panel in turn.
pub open spec fn tab_pages(
    views: Views,
    kids: Kids,
    ids: Seq<Seq<char>>,
    size: Size,
    insets: Insets,
    th: LayoutTheme,
    fuel: nat,
) -> Option<Views>
    decreases fuel, 1nat, ids.len(),
{
    if ids.len() == 0 {
        Some(views)
    } else {
        match tab_pages(views, kids, ids.drop_last(), size, insets, th, fuel) {
            None => None,
            Some(v) => {
                let k = ids.last();
                if k == tabs_id() {
                    Some(v)
                } else if !size_minus_insets_ok(size, insets) {
                    None
                } else {
                    match layout_child(v, kids, k, size_minus_insets(size, insets), th, fuel) {
                        None => None,
                        Some(v1) => if v1.contains_key(k) {
                            Some(rebound(v1, k, moved(v1[k], insets.left, insets.top)))
                        } else {
                            Some(v1)
                        },
                    }
                }
            },
        }
    }
}


/// `b` holds the same views as `a`, which differ from those of `a` in their
/// bounds at most.
pub open spec fn only_bounds_differ(a: Views, b: Views) -> bool {
    &&& a.dom() == b.dom()
    &&& forall|k: Seq<char>| a.contains_key(k) ==> #[trigger] b[k] == (View { bounds: b[k].bounds, ..a[k] })
}

/// `after` is `before` with, at most, other bounds for some of its views.
pub open spec fn bounds_only(before: SceneModel, after: SceneModel) -> bool {
    &&& only_bounds_differ(before.views, after.views)
    &&& after == (SceneModel { views: after.views, ..before })
}

pub(crate) proof fn lemma_obd_refl(a: Views)
    ensures
        only_bounds_differ(a, a),
{
}

pub(crate) proof fn lemma_obd_trans(a: Views, b: Views, c: Views)
    requires
        only_bounds_differ(a, b),
        only_bounds_differ(b, c),
    ensures
        only_bounds_differ(a, c),
{
    assert forall|k: Seq<char>| a.contains_key(k) implies #[trigger] c[k] == (View { bounds: c[k].bounds, ..a[k] }) by {
        assert(b.contains_key(k));
        assert(c[k] == (View { bounds: c[k].bounds, ..b[k] }));
        assert(b[k] == (View { bounds: b[k].bounds, ..a[k] }));
    }
}

proof fn lemma_obd_insert(a: Views, b: Views, k: Seq<char>, bb: Bounds)
    requires
        only_bounds_differ(a, b),
        b.contains_key(k),
    ensures
        only_bounds_differ(a, b.insert(k, View { bounds: bb, ..b[k] })),
{
    let c = b.insert(k, View { bounds: bb, ..b[k] });
    assert(a.dom() =~= c.dom());
    assert forall|j: Seq<char>| a.contains_key(j) implies #[trigger] c[j] == (View { bounds: c[j].bounds, ..a[j] }) by {
        assert(b[j] == (View { bounds: b[j].bounds, ..a[j] }));
    }
}

pub(crate) proof fn lemma_obd_rebound(a: Views, b: Views, k: Seq<char>, bb: Bounds)
    requires
        only_bounds_differ(a, b),
    ensures
        only_bounds_differ(a, rebound(b, k, bb)),
{
    if b.contains_key(k) {
        lemma_obd_insert(a, b, k, bb);
    }
}

proof fn lemma_column_bounds(views: Views, ids: Seq<Seq<char>>, y0: i32, avail_w: i32, left: i32, gap: i32)
    ensures
        place_column(views, ids, y0, avail_w, left, gap) matches Some((v, _)) ==> only_bounds_differ(views, v),
    decreases ids.len(),
{
    if ids.len() == 0 {
        lemma_obd_refl(views);
    } else {
        lemma_column_bounds(views, ids.drop_last(), y0, avail_w, left, gap);
        match place_column(views, ids.drop_last(), y0, avail_w, left, gap) {
            None => {},
            Some((v, _)) => {
                let k = ids.last();
                if v.contains_key(k) {
                    assert forall|bb: Bounds| #[trigger] only_bounds_differ(views, rebound(v, k, bb)) by {
                        lemma_obd_rebound(views, v, k, bb);
                    }
                }
            },
        }
    }
}

proof fn lemma_row_bounds(views: Views, ids: Seq<Seq<char>>, x0: i32, avail_h: i32, top: i32, gap: i32)
    ensures
        place_row(views, ids, x0, avail_h, top, gap) matches Some((v, _)) ==> only_bounds_differ(views, v),
    decreases ids.len(),
{
    if ids.len() == 0 {
        lemma_obd_refl(views);
    } else {
        lemma_row_bounds(views, ids.drop_last(), x0, avail_h, top, gap);
        match place_row(views, ids.drop_last(), x0, avail_h, top, gap) {
            None => {},
            Some((v, _)) => {
                let k = ids.last();
                if v.contains_key(k) {
                    assert forall|bb: Bounds| #[trigger] only_bounds_differ(views, rebound(v, k, bb)) by {
                        lemma_obd_rebound(views, v, k, bb);
                    }
                }
            },
        }
    }
}

proof fn lemma_child_bounds(views: Views, kids: Kids, id: Seq<char>, space: Size, th: LayoutTheme, fuel: nat)
    ensures
        layout_child(views, kids, id, space, th, fuel) matches Some(v) ==> only_bounds_differ(views, v),
    decreases fuel, 0nat, 0nat,
{
    if fuel == 0 || !views.contains_key(id) {
        lemma_obd_refl(views);
    } else {
        match views[id].layout {
            None => lemma_obd_refl(views),
            Some(k) => lemma_run_bounds(views, kids, id, k, space, th, (fuel - 1) as nat),
        }
    }
}

pub(crate) proof fn lemma_list_bounds(views: Views, kids: Kids, ids: Seq<Seq<char>>, space: Size, th: LayoutTheme, fuel: nat)
    ensures
        layout_list(views, kids, ids, space, th, fuel) matches Some(v) ==> only_bounds_differ(views, v),
    decreases fuel, 1nat, ids.len(),
{
    if ids.len() == 0 {
        lemma_obd_refl(views);
    } else {
        lemma_list_bounds(views, kids, ids.drop_last(), space, th, fuel);
        match layout_list(views, kids, ids.drop_last(), space, th, fuel) {
            None => {},
            Some(v) => {
                lemma_child_bounds(v, kids, ids.last(), space, th, fuel);
                if let Some(v2) = layout_child(v, kids, ids.last(), space, th, fuel) {
                    lemma_obd_trans(views, v, v2);
                }
            },
        }
    }
}

proof fn lemma_run_bounds(
    views: Views,
    kids: Kids,
    id: Seq<char>,
    kind: LayoutKind,
    space: Size,
    th: LayoutTheme,
    fuel: nat,
)
    ensures
        run_layout(views, kids, id, kind, space, th, fuel) matches Some(v) ==> only_bounds_differ(views, v),
    decreases fuel, 3nat, 0nat,
{
    if !views.contains_key(id) {
        lemma_obd_refl(views);
    } else {
        let v = views[id];
        lemma_obd_refl(views);
        match kind {
            LayoutKind::Root => {
                let v0 = rebound(views, id, resized(v, space.w, space.h));
                lemma_obd_rebound(views, views, id, resized(v, space.w, space.h));
                lemma_list_bounds(v0, kids, children_of(kids, id), space, th, fuel);
                if let Some(v1) = layout_list(v0, kids, children_of(kids, id), space, th, fuel) {
                    lemma_obd_trans(views, v0, v1);
                }
            },
            LayoutKind::VBox => lemma_vbox_bounds(views, kids, id, space, th, fuel),
            LayoutKind::HBox => lemma_hbox_bounds(views, kids, id, space, th, fuel),
            LayoutKind::StdPanel => lemma_panel_bounds(views, kids, id, space, th, fuel),
            LayoutKind::Grid => lemma_grid_bounds(views, kids, id, space, th, fuel),
            LayoutKind::ToggleGroup => {
                if let Some(height) = row_height(th.font) {
                    let w = if v.h_flex == Flex::Resize {
                        space.w
                    } else {
                        50i32
                    };
                    let h = if v.v_flex == Flex::Resize {
                        space.h
                    } else {
                        height as i32
                    };
                    let v0 = rebound(views, id, resized(v, w, h));
                    lemma_obd_rebound(views, views, id, resized(v, w, h));
                    lemma_list_bounds(v0, kids, children_of(kids, id), space, th, fuel);
                    if let Some(v1) = layout_list(v0, kids, children_of(kids, id), space, th, fuel) {
                        lemma_obd_trans(views, v0, v1);
                    }
                }
            },
            LayoutKind::TabbedPanel => lemma_tabbed_bounds(views, kids, id, space, th, fuel),
            LayoutKind::Button => {
                let s = text_size(th.bold_font, byte_len(v.title@));
                lemma_obd_rebound(views, views, id, resized(v, s.w, s.h));
            },
            LayoutKind::Label => {
                let s = text_size(th.font, byte_len(v.title@));
                lemma_obd_rebound(views, views, id, resized(v, s.w, s.h));
            },
            LayoutKind::List => {
                if let Some(height) = row_height(th.font) {
                    lemma_obd_rebound(views, views, id, resized(v, v.bounds.size.w, height as i32));
                }
            },
            LayoutKind::Custom => {
                if let Some(ViewState::Custom(c)) = v.state {
                    let s = c.size_in(v.title@, v.bounds.size, space, th);
                    lemma_obd_rebound(views, views, id, resized(v, s.w, s.h));
                }
            },
        }
    }
}

proof fn lemma_panel_bounds(views: Views, kids: Kids, id: Seq<char>, space: Size, th: LayoutTheme, fuel: nat)
    ensures
        std_panel(views, kids, id, space, th, fuel) matches Some(v) ==> only_bounds_differ(views, v),
    decreases fuel, 2nat, 0nat,
{
    lemma_obd_refl(views);
    let v = views[id];
    if let Some(ViewState::Panel(ps)) = v.state {
        let h = if v.v_flex == Flex::Resize {
            space.h
        } else {
            v.bounds.size.h
        };
        let w = if v.h_flex == Flex::Resize {
            space.w
        } else {
            v.bounds.size.w
        };
        let size = Size { w, h };
        let v0 = rebound(views, id, resized(v, w, h));
        lemma_obd_rebound(views, views, id, resized(v, w, h));
        lemma_list_bounds(v0, kids, children_of(kids, id), size_minus_insets(size, ps.padding), th, fuel);
        if let Some(v1) = layout_list(v0, kids, children_of(kids, id), size_minus_insets(size, ps.padding), th, fuel) {
            lemma_obd_trans(views, v0, v1);
        }
    }
}

proof fn lemma_vbox_bounds(views: Views, kids: Kids, id: Seq<char>, space: Size, th: LayoutTheme, fuel: nat)
    ensures
        vbox(views, kids, id, space, th, fuel) matches Some(v) ==> only_bounds_differ(views, v),
    decreases fuel, 2nat, 0nat,
{
    lemma_obd_refl(views);
    let parent = views[id];
    if let Some(ViewState::Panel(ps)) = parent.state {
        let pad = ps.padding;
        let all = children_of(kids, id);
        if size_minus_insets_ok(space, pad) {
            let avail = size_minus_insets(space, pad);
            let fixed = filter_kids(views, all, ChildFilter::VFlex(Flex::Intrinsic));
            lemma_list_bounds(views, kids, fixed, avail, th, fuel);
            if let Some(v1) = layout_list(views, kids, fixed, avail, th, fuel) {
                if let Some(sum) = sum_extent(v1, fixed, true) {
                    if let Some(leftover) = add_ck(avail.h as int, -(sum as int)) {
                        let flex = filter_kids(v1, all, ChildFilter::VFlex(Flex::Resize));
                        let v2 = if flex.len() > 0 {
                            match (add_ck(space.w as int, -(pad.left as int)), flex_share(leftover, flex.len())) {
                                (Some(w1), Some(share)) => match add_ck(w1 as int, -(pad.right as int)) {
                                    Some(fw) => {
                                        lemma_list_bounds(v1, kids, flex, Size { w: fw, h: share }, th, fuel);
                                        layout_list(v1, kids, flex, Size { w: fw, h: share }, th, fuel)
                                    },
                                    None => None,
                                },
                                _ => None,
                            }
                        } else {
                            lemma_obd_refl(v1);
                            Some(v1)
                        };
                        if let Some(v2) = v2 {
                            lemma_obd_trans(views, v1, v2);
                            let max_w = max_extent(v2, all, false);
                            let avail_w = if parent.h_flex == Flex::Intrinsic {
                                max_w
                            } else {
                                avail.w
                            };
                            lemma_column_bounds(v2, all, pad.top, avail_w, pad.left, ps.gap);
                            if let Some((v3, _)) = place_column(v2, all, pad.top, avail_w, pad.left, ps.gap) {
                                lemma_obd_trans(views, v2, v3);
                                lemma_obd_refl(v3);
                                if v3.contains_key(id) {
                                    assert forall|bb: Bounds| #[trigger] only_bounds_differ(views, rebound(v3, id, bb)) by {
                                        lemma_obd_rebound(views, v3, id, bb);
                                    }
                                }
                            }
                        }
                    }
                }
            }
        }
    }
}

proof fn lemma_hbox_bounds(views: Views, kids: Kids, id: Seq<char>, space: Size, th: LayoutTheme, fuel: nat)
    ensures
        hbox(views, kids, id, space, th, fuel) matches Some(v) ==> only_bounds_differ(views, v),
    decreases fuel, 2nat, 0nat,
{
    lemma_obd_refl(views);
    let parent = views[id];
    if let Some(ViewState::Panel(ps)) = parent.state {
        let pad = ps.padding;
        let all = children_of(kids, id);
        let h0 = if parent.v_flex == Flex::Resize {
            space.h
        } else {
            parent.bounds.size.h
        };
        let w0 = if parent.h_flex == Flex::Resize {
            space.w
        } else {
            parent.bounds.size.w
        };
        let v0 = rebound(views, id, resized(parent, w0, h0));
        lemma_obd_rebound(views, views, id, resized(parent, w0, h0));
        if size_minus_insets_ok(space, pad) {
            let avail = size_minus_insets(space, pad);
            let fixed = filter_kids(v0, all, ChildFilter::HFlex(Flex::Intrinsic));
            lemma_list_bounds(v0, kids, fixed, avail, th, fuel);
            if let Some(v1) = layout_list(v0, kids, fixed, avail, th, fuel) {
                lemma_obd_trans(views, v0, v1);
                if let Some(sum) = sum_extent(v1, fixed, false) {
                    if size_minus_insets_ok(avail, pad) {
                        if let Some(leftover) = add_ck(size_minus_insets(avail, pad).h as int, -(sum as int)) {
                            let flex = filter_kids(v1, all, ChildFilter::HFlex(Flex::Resize));
                            let v2 = if flex.len() > 0 {
                                match (flex_share(leftover, flex.len()), add_ck(space.h as int, -(pad.top as int))) {
                                    (Some(share), Some(h1)) => match add_ck(h1 as int, -(pad.bottom as int)) {
                                        Some(fh) => {
                                            lemma_list_bounds(v1, kids, flex, Size { w: share, h: fh }, th, fuel);
                                            layout_list(v1, kids, flex, Size { w: share, h: fh }, th, fuel)
                                        },
                                        None => None,
                                    },
                                    _ => None,
                                }
                            } else {
                                lemma_obd_refl(v1);
                                Some(v1)
                            };
                            if let Some(v2) = v2 {
                                lemma_obd_trans(views, v1, v2);
                                let max_h = max_extent(v2, all, true);
                                let avail_h = if parent.v_flex == Flex::Intrinsic {
                                    max_h
                                } else {
                                    avail.h
                                };
                                lemma_row_bounds(v2, all, pad.left, avail_h, pad.top, ps.gap);
                                if let Some((v3, _)) = place_row(v2, all, pad.left, avail_h, pad.top, ps.gap) {
                                    lemma_obd_trans(views, v2, v3);
                                    if v3.contains_key(id) {
                                        assert forall|bb: Bounds| #[trigger] only_bounds_differ(views, rebound(v3, id, bb)) by {
                                            lemma_obd_rebound(views, v3, id, bb);
                                        }
                                    }
                                }
                            }
                        }
                    }
                }
            }
        }
    }
}

proof fn lemma_grid_bounds(views: Views, kids: Kids, id: Seq<char>, space: Size, th: LayoutTheme, fuel: nat)
    ensures
        grid(views, kids, id, space, th, fuel) matches Some(v) ==> only_bounds_differ(views, v),
    decreases fuel, 2nat, 0nat,
{
    let v = views[id];
    let w = if v.h_flex == Flex::Resize {
        space.w
    } else {
        v.bounds.size.w
    };
    let h = if v.v_flex == Flex::Resize {
        space.h
    } else {
        v.bounds.size.h
    };
    let v0 = rebound(views, id, resized(v, w, h));
    lemma_obd_refl(views);
    lemma_obd_rebound(views, views, id, resized(v, w, h));
    lemma_grid_kids_bounds(v0, kids, id, children_of(kids, id), Size { w, h }, th, fuel);
    if let Some(v1) = grid_children(v0, kids, id, children_of(kids, id), Size { w, h }, th, fuel) {
        lemma_obd_trans(views, v0, v1);
    }
}

proof fn lemma_grid_kids_bounds(
    views: Views,
    kids: Kids,
    id: Seq<char>,
    ids: Seq<Seq<char>>,
    space: Size,
    th: LayoutTheme,
    fuel: nat,
)
    ensures
        grid_children(views, kids, id, ids, space, th, fuel) matches Some(v) ==> only_bounds_differ(views, v),
    decreases fuel, 1nat, ids.len(),
{
    if ids.len() == 0 {
        lemma_obd_refl(views);
    } else {
        lemma_grid_kids_bounds(views, kids, id, ids.drop_last(), space, th, fuel);
        if let Some(v) = grid_children(views, kids, id, ids.drop_last(), space, th, fuel) {
            lemma_child_bounds(v, kids, ids.last(), space, th, fuel);
            if let Some(v1) = layout_child(v, kids, ids.last(), space, th, fuel) {
                lemma_obd_trans(views, v, v1);
                lemma_obd_refl(v1);
                if v1.contains_key(ids.last()) {
                    assert forall|bb: Bounds| #[trigger] only_bounds_differ(views, rebound(v1, ids.last(), bb)) by {
                        lemma_obd_rebound(views, v1, ids.last(), bb);
                    }
                }
            }
        }
    }
}

proof fn lemma_tabbed_bounds(views: Views, kids: Kids, id: Seq<char>, space: Size, th: LayoutTheme, fuel: nat)
    ensures
        tabbed(views, kids, id, space, th, fuel) matches Some(v) ==> only_bounds_differ(views, v),
    decreases fuel, 2nat, 0nat,
{
    let v = views[id];
    let w = if v.h_flex == Flex::Resize {
        space.w
    } else {
        v.bounds.size.w
    };
    let h = if v.v_flex == Flex::Resize {
        space.h
    } else {
        v.bounds.size.h
    };
    let v0 = rebound(views, id, resized(v, w, h));
    lemma_obd_refl(views);
    lemma_obd_rebound(views, views, id, resized(v, w, h));
    let size = Size { w, h };
    lemma_child_bounds(v0, kids, tabs_id(), size, th, fuel);
    if let Some(v1) = layout_child(v0, kids, tabs_id(), size, th, fuel) {
        lemma_obd_trans(views, v0, v1);
        if v1.contains_key(tabs_id()) {
            let insets = Insets { top: v1[tabs_id()].bounds.size.h, right: 1, bottom: 1, left: 1 };
            lemma_pages_bounds(v1, kids, children_of(kids, id), size, insets, th, fuel);
            if let Some(v2) = tab_pages(v1, kids, children_of(kids, id), size, insets, th, fuel) {
                lemma_obd_trans(views, v1, v2);
            }
        }
    }
}

proof fn lemma_pages_bounds(
    views: Views,
    kids: Kids,
    ids: Seq<Seq<char>>,
    size: Size,
    insets: Insets,
    th: LayoutTheme,
    fuel: nat,
)
    ensures
        tab_pages(views, kids, ids, size, insets, th, fuel) matches Some(v) ==> only_bounds_differ(views, v),
    decreases fuel, 1nat, ids.len(),
{
    if ids.len() == 0 {
        lemma_obd_refl(views);
    } else {
        lemma_pages_bounds(views, kids, ids.drop_last(), size, insets, th, fuel);
        if let Some(v) = tab_pages(views, kids, ids.drop_last(), size, insets, th, fuel) {
            let k = ids.last();
            if k != tabs_id() && size_minus_insets_ok(size, insets) {
                lemma_child_bounds(v, kids, k, size_minus_insets(size, insets), th, fuel);
                if let Some(v1) = layout_child(v, kids, k, size_minus_insets(size, insets), th, fuel) {
                    lemma_obd_trans(views, v, v1);
                    if v1.contains_key(k) {
                        lemma_obd_rebound(views, v1, k, moved(v1[k], insets.left, insets.top));
                    }
                }
            }
        }
    }
}

/// Layout only sizes and places views: every layout keeps the same views,
/// and changes nothing of any view but its bounds.
pub proof fn law_layout_changes_only_bounds(m: SceneModel, target: Seq<char>, kind: LayoutKind, space: Size, th: LayoutTheme)
    ensures
        layout_as(m, target, kind, space, th) matches Some(v) ==> only_bounds_differ(m.views, v),
{
    lemma_run_bounds(m.views, m.kids, target, kind, space, th, depth_limit(m.views));
}

/// A layout step ended as `out` says: with these views, or in a fault.
pub open spec fn lands(r: Result<(), ArithmeticFault>, before: SceneModel, after: SceneModel, out: Option<Views>) -> bool {
    match (r, out) {
        (Ok(_), Some(v)) => after == (SceneModel { views: v, ..before }),
        (Err(_), None) => true,
        _ => false,
    }
}

fn or_fault(o: Option<i32>) -> (r: Result<i32, ArithmeticFault>)
    ensures
        match o {
            Some(v) => r == Ok::<i32, ArithmeticFault>(v),
            None => r is Err,
        },
{
    match o {
        Some(v) => Ok(v),
        None => Err(ArithmeticFault),
    }
}

/// Sets the bounds of the view `id`, when it exists.
fn set_bounds(scene: &mut Scene, id: &ViewId, b: Bounds)
    ensures
        bounds_only(old(scene)@, final(scene)@),
        final(scene)@ == (SceneModel { views: rebound(old(scene)@.views, id@, b), ..old(scene)@ }),
{
    let ghost m = scene@;
    match scene.take_view(id) {
        Some(mut v) => {
            v.bounds = b;
            scene.put_view(id.clone(), v);
            assert(scene@.views =~= rebound(m.views, id@, b));
        },
        None => {
            assert(scene@.views =~= rebound(m.views, id@, b));
        },
    }
}

/// `size` less `pad`, or the fault.
fn shrink(size: Size, pad: Insets) -> (r: Result<Size, ArithmeticFault>)
    ensures
        match r {
            Ok(s) => size_minus_insets_ok(size, pad) && s == size_minus_insets(size, pad),
            Err(_) => !size_minus_insets_ok(size, pad),
        },
{
    let w1 = or_fault(size.w.checked_sub(pad.left))?;
    let w = or_fault(w1.checked_sub(pad.right))?;
    let h1 = or_fault(size.h.checked_sub(pad.top))?;
    let h = or_fault(h1.checked_sub(pad.bottom))?;
    Ok(Size { w, h })
}

fn align_at(a: Align, avail: i32, size: i32) -> (r: Result<i32, ArithmeticFault>)
    ensures
        match (r, align_offset(a, avail, size)) {
            (Ok(x), Some(y)) => x == y,
            (Err(_), None) => true,
            _ => false,
        },
{
    match a {
        Align::Start => Ok(0),
        Align::Center => {
            let d = or_fault(avail.checked_sub(size))?;
            Ok(d / 2)
        },
        Align::End => or_fault(avail.checked_sub(size)),
    }
}

pub(crate) fn share_of(total: i32, n: usize) -> (r: Result<i32, ArithmeticFault>)
    ensures
        match (r, flex_share(total, n as nat)) {
            (Ok(x), Some(y)) => x == y,
            (Err(_), None) => true,
            _ => false,
        },
{
    let c = n as i32;
    if c == 0 || (total == i32::MIN && c == -1) {
        return Err(ArithmeticFault);
    }
    Ok(div_i32(total, c))
}

fn row_height_of(font: FontMetrics) -> (r: Result<u32, ArithmeticFault>)
    ensures
        match (r, row_height(font)) {
            (Ok(x), Some(y)) => x == y,
            (Err(_), None) => true,
            _ => false,
        },
{
    let half = font.height / 2;
    match font.height.checked_add(half + half) {
        Some(h) => Ok(h),
        None => Err(ArithmeticFault),
    }
}

fn grid_cell_of(col_width: usize, row_height: usize, cons: Option<crate::grid::LayoutConstraint>) -> (r: Result<
    Bounds,
    ArithmeticFault,
>)
    ensures
        match (r, grid_cell(col_width, row_height, cons)) {
            (Ok(x), Some(y)) => x == y,
            (Err(_), None) => true,
            _ => false,
        },
{
    match cons {
        None => Ok(Bounds::new(0, 0, 0, 0)),
        Some(c) => {
            let xu = match c.col.checked_mul(col_width) {
                Some(v) => v,
                None => return Err(ArithmeticFault),
            };
            let yu = match c.row.checked_mul(row_height) {
                Some(v) => v,
                None => return Err(ArithmeticFault),
            };
            let cw = col_width as i32;
            let rh = row_height as i32;
            let cs = c.col_span as i32;
            let rs = c.row_span as i32;
            let w = or_fault(cw.checked_mul(cs))?;
            let h = or_fault(rh.checked_mul(rs))?;
            Ok(Bounds::new(xu as i32, yu as i32, w, h))
        },
    }
}

fn cell_at(a: Align, start: i32, extent: i32, size: i32) -> (r: Result<i32, ArithmeticFault>)
    ensures
        match (r, cell_offset(a, start, extent, size)) {
            (Ok(x), Some(y)) => x == y,
            (Err(_), None) => true,
            _ => false,
        },
{
    match a {
        Align::Start => Ok(start),
        Align::Center => {
            let d = or_fault(extent.checked_sub(size))?;
            or_fault(start.checked_add(d / 2))
        },
        Align::End => {
            let e = or_fault(start.checked_add(extent))?;
            or_fault(e.checked_sub(size))
        },
    }
}

/// The sum of the heights (`vertical`) or widths of the existing views of
/// `ids` (see `sum_extent`).
fn sum_of(scene: &Scene, ids: &Vec<ViewId>, vertical: bool) -> (r: Result<i32, ArithmeticFault>)
    ensures
        match (r, sum_extent(scene@.views, ids.deep_view(), vertical)) {
            (Ok(x), Some(y)) => x == y,
            (Err(_), None) => true,
            _ => false,
        },
{
    let ghost s = ids.deep_view();
    let mut a: i32 = 0;
    let mut i: usize = 0;
    while i < ids.len()
        invariant
            i <= ids@.len(),
            s == ids.deep_view(),
            s.len() == ids@.len(),
            sum_extent(scene@.views, s.take(i as int), vertical) == Some(a),
        decreases ids@.len() - i,
    {
        assert(s.take(i + 1).drop_last() =~= s.take(i as int));
        assert(s.take(i + 1).last() == ids@[i as int]@);
        match scene.get_view(&ids[i]) {
            Some(v) => {
                let e = if vertical { v.bounds.size.h } else { v.bounds.size.w };
                match e.checked_add(a) {
                    Some(n) => {
                        a = n;
                    },
                    None => {
                        proof {
                            lemma_sum_none(scene@.views, s, vertical, i + 1);
                        }
                        return Err(ArithmeticFault);
                    },
                }
            },
            None => {},
        }
        i += 1;
    }
    assert(s.take(ids@.len() as int) =~= s);
    Ok(a)
}

/// The largest height (`vertical`) or width among the existing views of
/// `ids`, and zero (see `max_extent`).
fn max_of(scene: &Scene, ids: &Vec<ViewId>, vertical: bool) -> (r: i32)
    ensures
        r == max_extent(scene@.views, ids.deep_view(), vertical),
{
    let ghost s = ids.deep_view();
    let mut m: i32 = 0;
    let mut i: usize = 0;
    while i < ids.len()
        invariant
            i <= ids@.len(),
            s == ids.deep_view(),
            s.len() == ids@.len(),
            max_extent(scene@.views, s.take(i as int), vertical) == m,
        decreases ids@.len() - i,
    {
        assert(s.take(i + 1).drop_last() =~= s.take(i as int));
        assert(s.take(i + 1).last() == ids@[i as int]@);
        match scene.get_view(&ids[i]) {
            Some(v) => {
                let e = if vertical { v.bounds.size.h } else { v.bounds.size.w };
                if m < e {
                    m = e;
                }
            },
            None => {},
        }
        i += 1;
    }
    assert(s.take(ids@.len() as int) =~= s);
    m
}

/// Places the existing views of `ids` in a column (see `place_column`).
fn place_col(scene: &mut Scene, ids: &Vec<ViewId>, y0: i32, avail_w: i32, left: i32, gap: i32) -> (r: Result<i32, ArithmeticFault>)
    ensures
        bounds_only(old(scene)@, final(scene)@),
        match (r, place_column(old(scene)@.views, ids.deep_view(), y0, avail_w, left, gap)) {
            (Ok(y), Some((v, sy))) => y == sy && final(scene)@ == (SceneModel { views: v, ..old(scene)@ }),
            (Err(_), None) => true,
            _ => false,
        },
{
    let ghost s = ids.deep_view();
    let ghost m0 = scene@;
    let mut y = y0;
    let mut i: usize = 0;
    while i < ids.len()
        invariant
            i <= ids@.len(),
            s == ids.deep_view(),
            s.len() == ids@.len(),
            place_column(m0.views, s.take(i as int), y0, avail_w, left, gap) == Some((scene@.views, y)),
            old(scene)@ == m0,
            scene@ == (SceneModel { views: scene@.views, ..m0 }),
            only_bounds_differ(m0.views, scene@.views),
        decreases ids@.len() - i,
    {
        assert(s.take(i + 1).drop_last() =~= s.take(i as int));
        assert(s.take(i + 1).last() == ids@[i as int]@);
        let found = match scene.get_view(&ids[i]) {
            Some(kv) => Some((kv.h_align, kv.bounds)),
            None => None,
        };
        match found {
            None => {},
            Some((ha, b)) => {
                let step = match align_at(ha, avail_w, b.size.w) {
                    Ok(o) => match (o.checked_add(left), b.size.h.checked_add(gap)) {
                        (Some(x), Some(st)) => match y.checked_add(st) {
                            Some(y2) => Some((x, y2)),
                            None => None,
                        },
                        _ => None,
                    },
                    Err(_) => None,
                };
                match step {
                    None => {
                        proof {
                            lemma_column_none(m0.views, s, y0, avail_w, left, gap, i + 1);
                        }
                        return Err(ArithmeticFault);
                    },
                    Some((x, y2)) => {
                        set_bounds(scene, &ids[i], Bounds { position: Point { x, y }, size: b.size });
                        y = y2;
                    },
                }
            },
        }
        i += 1;
    }
    assert(s.take(ids@.len() as int) =~= s);
    Ok(y)
}

/// Places the existing views of `ids` in a row (see `place_row`).
fn place_in_row(scene: &mut Scene, ids: &Vec<ViewId>, x0: i32, avail_h: i32, top: i32, gap: i32) -> (r: Result<i32, ArithmeticFault>)
    ensures
        bounds_only(old(scene)@, final(scene)@),
        match (r, place_row(old(scene)@.views, ids.deep_view(), x0, avail_h, top, gap)) {
            (Ok(x), Some((v, sx))) => x == sx && final(scene)@ == (SceneModel { views: v, ..old(scene)@ }),
            (Err(_), None) => true,
            _ => false,
        },
{
    let ghost s = ids.deep_view();
    let ghost m0 = scene@;
    let mut x = x0;
    let mut i: usize = 0;
    while i < ids.len()
        invariant
            i <= ids@.len(),
            s == ids.deep_view(),
            s.len() == ids@.len(),
            place_row(m0.views, s.take(i as int), x0, avail_h, top, gap) == Some((scene@.views, x)),
            old(scene)@ == m0,
            scene@ == (SceneModel { views: scene@.views, ..m0 }),
            only_bounds_differ(m0.views, scene@.views),
        decreases ids@.len() - i,
    {
        assert(s.take(i + 1).drop_last() =~= s.take(i as int));
        assert(s.take(i + 1).last() == ids@[i as int]@);
        let found = match scene.get_view(&ids[i]) {
            Some(kv) => Some((kv.v_align, kv.bounds)),
            None => None,
        };
        match found {
            None => {},
            Some((va, b)) => {
                let step = match x.checked_add(b.size.w) {
                    Some(x1) => match x1.checked_add(gap) {
                        Some(x2) => match align_at(va, avail_h, b.size.h) {
                            Ok(o) => match o.checked_add(top) {
                                Some(yy) => Some((x2, yy)),
                                None => None,
                            },
                            Err(_) => None,
                        },
                        None => None,
                    },
                    None => None,
                };
                match step {
                    None => {
                        proof {
                            lemma_row_none(m0.views, s, x0, avail_h, top, gap, i + 1);
                        }
                        return Err(ArithmeticFault);
                    },
                    Some((x2, yy)) => {
                        set_bounds(scene, &ids[i], Bounds { position: Point { x, y: yy }, size: b.size });
                        x = x2;
                    },
                }
            },
        }
        i += 1;
    }
    assert(s.take(ids@.len() as int) =~= s);
    Ok(x)
}

proof fn lemma_sum_none(views: Views, ids: Seq<Seq<char>>, vertical: bool, k: int)
    requires
        0 <= k <= ids.len(),
        sum_extent(views, ids.take(k), vertical) is None,
    ensures
        sum_extent(views, ids, vertical) is None,
    decreases ids.len(),
{
    if k == ids.len() {
        assert(ids.take(k) =~= ids);
    } else {
        assert(ids.drop_last().take(k) =~= ids.take(k));
        lemma_sum_none(views, ids.drop_last(), vertical, k);
    }
}

proof fn lemma_column_none(views: Views, ids: Seq<Seq<char>>, y0: i32, avail_w: i32, left: i32, gap: i32, k: int)
    requires
        0 <= k <= ids.len(),
        place_column(views, ids.take(k), y0, avail_w, left, gap) is None,
    ensures
        place_column(views, ids, y0, avail_w, left, gap) is None,
    decreases ids.len(),
{
    if k == ids.len() {
        assert(ids.take(k) =~= ids);
    } else {
        assert(ids.drop_last().take(k) =~= ids.take(k));
        lemma_column_none(views, ids.drop_last(), y0, avail_w, left, gap, k);
    }
}

proof fn lemma_row_none(views: Views, ids: Seq<Seq<char>>, x0: i32, avail_h: i32, top: i32, gap: i32, k: int)
    requires
        0 <= k <= ids.len(),
        place_row(views, ids.take(k), x0, avail_h, top, gap) is None,
    ensures
        place_row(views, ids, x0, avail_h, top, gap) is None,
    decreases ids.len(),
{
    if k == ids.len() {
        assert(ids.take(k) =~= ids);
    } else {
        assert(ids.drop_last().take(k) =~= ids.take(k));
        lemma_row_none(views, ids.drop_last(), x0, avail_h, top, gap, k);
    }
}


/// The flexes, alignments and bounds of the view `id`, when it exists.
fn shape_of(scene: &Scene, id: &ViewId) -> (r: Option<(Flex, Flex, Align, Align, Bounds)>)
    ensures
        match r {
            Some((hf, vf, ha, va, b)) => scene@.views.contains_key(id@) && hf == scene@.views[id@].h_flex
                && vf == scene@.views[id@].v_flex && ha == scene@.views[id@].h_align && va
                == scene@.views[id@].v_align && b == scene@.views[id@].bounds,
            None => !scene@.views.contains_key(id@),
        },
{
    match scene.get_view(id) {
        Some(v) => Some((v.h_flex, v.v_flex, v.h_align, v.v_align, v.bounds)),
        None => None,
    }
}

/// The padding and gap of the view `id`, when it exists and has panel state.
fn panel_of(scene: &Scene, id: &ViewId) -> (r: Option<(Insets, i32)>)
    ensures
        match r {
            Some((pad, gap)) => scene@.views.contains_key(id@) && (scene@.views[id@].state matches Some(
                ViewState::Panel(ps),
            ) && ps.padding == pad && ps.gap == gap),
            None => !scene@.views.contains_key(id@) || !(scene@.views[id@].state matches Some(
                ViewState::Panel(_),
            )),
        },
{
    match scene.get_view_state(id) {
        Some(ViewState::Panel(ps)) => Some((ps.padding, ps.gap)),
        _ => None,
    }
}

/// Lays out the view `id` in `space` (see `layout_child`).
fn child_pass(scene: &mut Scene, id: &ViewId, space: Size, th: LayoutTheme, fuel: usize) -> (r: Result<
    (),
    ArithmeticFault,
>)
    ensures
        bounds_only(old(scene)@, final(scene)@),
        lands(r, old(scene)@, final(scene)@, layout_child(old(scene)@.views, old(scene)@.kids, id@, space, th, fuel as nat)),
    decreases fuel, 0nat, 0nat,
{
    if fuel == 0 {
        return Ok(());
    }
    match scene.get_view_layout(id) {
        None => Ok(()),
        Some(k) => kind_pass(scene, id, k, space, th, fuel - 1),
    }
}

/// Lays out each view of `ids` in `space`, in order (see `layout_list`).
fn list_pass(scene: &mut Scene, ids: &Vec<ViewId>, space: Size, th: LayoutTheme, fuel: usize) -> (r: Result<
    (),
    ArithmeticFault,
>)
    ensures
        bounds_only(old(scene)@, final(scene)@),
        lands(
            r,
            old(scene)@,
            final(scene)@,
            layout_list(old(scene)@.views, old(scene)@.kids, ids.deep_view(), space, th, fuel as nat),
        ),
    decreases fuel, 1nat, ids@.len(),
{
    let ghost s = ids.deep_view();
    let ghost m0 = scene@;
    let mut i: usize = 0;
    while i < ids.len()
        invariant
            i <= ids@.len(),
            s == ids.deep_view(),
            s.len() == ids@.len(),
            old(scene)@ == m0,
            layout_list(m0.views, m0.kids, s.take(i as int), space, th, fuel as nat) == Some(scene@.views),
            scene@ == (SceneModel { views: scene@.views, ..m0 }),
            only_bounds_differ(m0.views, scene@.views),
        decreases ids@.len() - i,
    {
        assert(s.take(i + 1).drop_last() =~= s.take(i as int));
        assert(s.take(i + 1).last() == ids@[i as int]@);
        let res = child_pass(scene, &ids[i], space, th, fuel);
        if res.is_err() {
            proof {
                lemma_list_none(m0.views, m0.kids, s, space, th, fuel as nat, i + 1);
            }
            return Err(ArithmeticFault);
        }
        i += 1;
    }
    assert(s.take(ids@.len() as int) =~= s);
    Ok(())
}

/// Runs the layout `kind` of the view `id` (see `run_layout`).
fn kind_pass(scene: &mut Scene, id: &ViewId, kind: LayoutKind, space: Size, th: LayoutTheme, fuel: usize) -> (r:
    Result<(), ArithmeticFault>)
    ensures
        bounds_only(old(scene)@, final(scene)@),
        lands(
            r,
            old(scene)@,
            final(scene)@,
            run_layout(old(scene)@.views, old(scene)@.kids, id@, kind, space, th, fuel as nat),
        ),
    decreases fuel, 3nat, 0nat,
{
    let (hf, vf, _, _, b) = match shape_of(scene, id) {
        None => return Ok(()),
        Some(s) => s,
    };
    match kind {
        LayoutKind::Root => {
            set_bounds(scene, id, Bounds { position: b.position, size: Size { w: space.w, h: space.h } });
            let kids = scene.get_children_ids(id);
            list_pass(scene, &kids, space, th, fuel)
        },
        LayoutKind::VBox => vbox_pass(scene, id, space, th, fuel),
        LayoutKind::HBox => hbox_pass(scene, id, space, th, fuel),
        LayoutKind::StdPanel => panel_pass(scene, id, space, th, fuel),
        LayoutKind::Grid => grid_pass(scene, id, space, th, fuel),
        LayoutKind::ToggleGroup => {
            let height = row_height_of(th.font)?;
            let w = if hf == Flex::Resize {
                space.w
            } else {
                50i32
            };
            let h = if vf == Flex::Resize {
                space.h
            } else {
                height as i32
            };
            set_bounds(scene, id, Bounds { position: b.position, size: Size { w, h } });
            let kids = scene.get_children_ids(id);
            list_pass(scene, &kids, space, th, fuel)
        },
        LayoutKind::TabbedPanel => tabbed_pass(scene, id, space, th, fuel),
        LayoutKind::Button => {
            let s = match scene.get_view(id) {
                Some(v) => if text_fits(th.bold_font, v.title.as_str()) {
                    Some(calc_size(th.bold_font, v.title.as_str()))
                } else {
                    None
                },
                None => None,
            };
            match s {
                Some(s) => {
                    set_bounds(scene, id, Bounds { position: b.position, size: s });
                    Ok(())
                },
                None => Err(ArithmeticFault),
            }
        },
        LayoutKind::Label => {
            let s = match scene.get_view(id) {
                Some(v) => if text_fits(th.font, v.title.as_str()) {
                    Some(calc_size(th.font, v.title.as_str()))
                } else {
                    None
                },
                None => None,
            };
            match s {
                Some(s) => {
                    set_bounds(scene, id, Bounds { position: b.position, size: s });
                    Ok(())
                },
                None => Err(ArithmeticFault),
            }
        },
        LayoutKind::List => {
            let is_list = match scene.get_view_state(id) {
                Some(ViewState::List(_)) => true,
                _ => false,
            };
            if is_list {
                let height = row_height_of(th.font)?;
                set_bounds(scene, id, Bounds { position: b.position, size: Size { w: b.size.w, h: height as i32 } });
            }
            Ok(())
        },
        LayoutKind::Custom => {
            let s = match scene.get_view(id) {
                Some(v) => match &v.state {
                    Some(ViewState::Custom(c)) => Some(c.layout(v.title.as_str(), v.bounds.size, space, &th)),
                    _ => None,
                },
                None => None,
            };
            match s {
                Some(s) => set_bounds(scene, id, Bounds { position: b.position, size: s }),
                None => {},
            }
            Ok(())
        },
    }
}

/// A standard panel (see `std_panel`).
fn panel_pass(scene: &mut Scene, id: &ViewId, space: Size, th: LayoutTheme, fuel: usize) -> (r: Result<
    (),
    ArithmeticFault,
>)
    requires
        old(scene)@.views.contains_key(id@),
    ensures
        bounds_only(old(scene)@, final(scene)@),
        lands(r, old(scene)@, final(scene)@, std_panel(old(scene)@.views, old(scene)@.kids, id@, space, th, fuel as nat)),
    decreases fuel, 2nat, 0nat,
{
    let (pad, _gap) = match panel_of(scene, id) {
        None => return Ok(()),
        Some(p) => p,
    };
    let (hf, vf, _, _, b) = shape_of(scene, id).unwrap();
    let h = if vf == Flex::Resize {
        space.h
    } else {
        b.size.h
    };
    let w = if hf == Flex::Resize {
        space.w
    } else {
        b.size.w
    };
    let size = Size { w, h };
    let inner = shrink(size, pad)?;
    set_bounds(scene, id, Bounds { position: b.position, size });
    let kids = scene.get_children_ids(id);
    list_pass(scene, &kids, inner, th, fuel)
}

/// A vertical box (see `vbox`).
fn vbox_pass(scene: &mut Scene, id: &ViewId, space: Size, th: LayoutTheme, fuel: usize) -> (r: Result<
    (),
    ArithmeticFault,
>)
    requires
        old(scene)@.views.contains_key(id@),
    ensures
        bounds_only(old(scene)@, final(scene)@),
        lands(r, old(scene)@, final(scene)@, vbox(old(scene)@.views, old(scene)@.kids, id@, space, th, fuel as nat)),
    decreases fuel, 2nat, 0nat,
{
    let (pad, gap) = match panel_of(scene, id) {
        None => return Ok(()),
        Some(p) => p,
    };
    let (hf, _, _, _, _) = shape_of(scene, id).unwrap();
    let all = scene.get_children_ids(id);
    let avail = shrink(space, pad)?;
    let fixed = scene.get_children_ids_filtered(id, ChildFilter::VFlex(Flex::Intrinsic));
    list_pass(scene, &fixed, avail, th, fuel)?;
    let sum = sum_of(scene, &fixed, true)?;
    let leftover = or_fault(avail.h.checked_sub(sum))?;
    let flex = scene.get_children_ids_filtered(id, ChildFilter::VFlex(Flex::Resize));
    if flex.len() > 0 {
        let w1 = or_fault(space.w.checked_sub(pad.left))?;
        let share = share_of(leftover, flex.len())?;
        let fw = or_fault(w1.checked_sub(pad.right))?;
        list_pass(scene, &flex, Size { w: fw, h: share }, th, fuel)?;
    }
    let max_w = max_of(scene, &all, false);
    let avail_w = if hf == Flex::Intrinsic {
        max_w
    } else {
        avail.w
    };
    place_col(scene, &all, pad.top, avail_w, pad.left, gap)?;
    vbox_finish_pass(scene, id, space, max_w, pad)
}

/// The vertical box sizes itself (see `vbox_finish`).
fn vbox_finish_pass(scene: &mut Scene, id: &ViewId, space: Size, max_w: i32, pad: Insets) -> (r: Result<
    (),
    ArithmeticFault,
>)
    ensures
        bounds_only(old(scene)@, final(scene)@),
        lands(r, old(scene)@, final(scene)@, vbox_finish(old(scene)@.views, id@, space, max_w, pad)),
{
    match shape_of(scene, id) {
        None => Ok(()),
        Some((hf, vf, _, _, b)) => {
            let w = if hf == Flex::Resize {
                space.w
            } else {
                let a = or_fault(max_w.checked_add(pad.left))?;
                or_fault(a.checked_add(pad.right))?
            };
            let h = if vf == Flex::Resize {
                space.h
            } else {
                b.size.h
            };
            set_bounds(scene, id, Bounds { position: b.position, size: Size { w, h } });
            Ok(())
        },
    }
}

/// A horizontal box (see `hbox`).
fn hbox_pass(scene: &mut Scene, id: &ViewId, space: Size, th: LayoutTheme, fuel: usize) -> (r: Result<
    (),
    ArithmeticFault,
>)
    requires
        old(scene)@.views.contains_key(id@),
    ensures
        bounds_only(old(scene)@, final(scene)@),
        lands(r, old(scene)@, final(scene)@, hbox(old(scene)@.views, old(scene)@.kids, id@, space, th, fuel as nat)),
    decreases fuel, 2nat, 0nat,
{
    let (pad, gap) = match panel_of(scene, id) {
        None => return Ok(()),
        Some(p) => p,
    };
    let (hf, vf, _, _, b) = shape_of(scene, id).unwrap();
    let all = scene.get_children_ids(id);
    let h0 = if vf == Flex::Resize {
        space.h
    } else {
        b.size.h
    };
    let w0 = if hf == Flex::Resize {
        space.w
    } else {
        b.size.w
    };
    set_bounds(scene, id, Bounds { position: b.position, size: Size { w: w0, h: h0 } });
    let avail = shrink(space, pad)?;
    let fixed = scene.get_children_ids_filtered(id, ChildFilter::HFlex(Flex::Intrinsic));
    list_pass(scene, &fixed, avail, th, fuel)?;
    let sum = sum_of(scene, &fixed, false)?;
    let inner = shrink(avail, pad)?;
    let leftover = or_fault(inner.h.checked_sub(sum))?;
    let flex = scene.get_children_ids_filtered(id, ChildFilter::HFlex(Flex::Resize));
    if flex.len() > 0 {
        let share = share_of(leftover, flex.len())?;
        let h1 = or_fault(space.h.checked_sub(pad.top))?;
        let fh = or_fault(h1.checked_sub(pad.bottom))?;
        list_pass(scene, &flex, Size { w: share, h: fh }, th, fuel)?;
    }
    let max_h = max_of(scene, &all, true);
    let avail_h = if vf == Flex::Intrinsic {
        max_h
    } else {
        avail.h
    };
    let x = place_in_row(scene, &all, pad.left, avail_h, pad.top, gap)?;
    hbox_finish_pass(scene, id, avail_h, x, pad)
}

/// The horizontal box sizes itself (see `hbox_finish`).
fn hbox_finish_pass(scene: &mut Scene, id: &ViewId, avail_h: i32, x: i32, pad: Insets) -> (r: Result<
    (),
    ArithmeticFault,
>)
    ensures
        bounds_only(old(scene)@, final(scene)@),
        lands(r, old(scene)@, final(scene)@, hbox_finish(old(scene)@.views, id@, avail_h, x, pad)),
{
    match shape_of(scene, id) {
        None => Ok(()),
        Some((hf, vf, _, _, b)) => {
            let h = if vf == Flex::Intrinsic {
                let a = or_fault(avail_h.checked_add(pad.top))?;
                or_fault(a.checked_add(pad.bottom))?
            } else {
                b.size.h
            };
            let w = if hf == Flex::Intrinsic {
                x
            } else {
                b.size.w
            };
            set_bounds(scene, id, Bounds { position: b.position, size: Size { w, h } });
            Ok(())
        },
    }
}

/// A grid (see `grid`).
fn grid_pass(scene: &mut Scene, id: &ViewId, space: Size, th: LayoutTheme, fuel: usize) -> (r: Result<
    (),
    ArithmeticFault,
>)
    requires
        old(scene)@.views.contains_key(id@),
    ensures
        bounds_only(old(scene)@, final(scene)@),
        lands(r, old(scene)@, final(scene)@, grid(old(scene)@.views, old(scene)@.kids, id@, space, th, fuel as nat)),
    decreases fuel, 2nat, 0nat,
{
    let (hf, vf, _, _, b) = shape_of(scene, id).unwrap();
    let w = if hf == Flex::Resize {
        space.w
    } else {
        b.size.w
    };
    let h = if vf == Flex::Resize {
        space.h
    } else {
        b.size.h
    };
    set_bounds(scene, id, Bounds { position: b.position, size: Size { w, h } });
    let kids = scene.get_children_ids(id);
    grid_kids_pass(scene, id, &kids, Size { w, h }, th, fuel)
}

/// Lays out and places each child of a grid (see `grid_children`).
fn grid_kids_pass(scene: &mut Scene, id: &ViewId, ids: &Vec<ViewId>, space: Size, th: LayoutTheme, fuel: usize) -> (r:
    Result<(), ArithmeticFault>)
    ensures
        bounds_only(old(scene)@, final(scene)@),
        lands(
            r,
            old(scene)@,
            final(scene)@,
            grid_children(old(scene)@.views, old(scene)@.kids, id@, ids.deep_view(), space, th, fuel as nat),
        ),
    decreases fuel, 1nat, ids@.len(),
{
    let ghost s = ids.deep_view();
    let ghost m0 = scene@;
    let mut i: usize = 0;
    while i < ids.len()
        invariant
            i <= ids@.len(),
            s == ids.deep_view(),
            s.len() == ids@.len(),
            old(scene)@ == m0,
            grid_children(m0.views, m0.kids, id@, s.take(i as int), space, th, fuel as nat) == Some(scene@.views),
            scene@ == (SceneModel { views: scene@.views, ..m0 }),
            only_bounds_differ(m0.views, scene@.views),
        decreases ids@.len() - i,
    {
        assert(s.take(i + 1).drop_last() =~= s.take(i as int));
        assert(s.take(i + 1).last() == ids@[i as int]@);
        let res = match child_pass(scene, &ids[i], space, th, fuel) {
            Ok(_) => grid_place_pass(scene, id, &ids[i]),
            Err(e) => Err(e),
        };
        if res.is_err() {
            proof {
                lemma_grid_none(m0.views, m0.kids, id@, s, space, th, fuel as nat, i + 1);
            }
            return Err(ArithmeticFault);
        }
        i += 1;
    }
    assert(s.take(ids@.len() as int) =~= s);
    Ok(())
}

/// Places the child `kid` in its cell of the grid `id` (see `grid_place`).
fn grid_place_pass(scene: &mut Scene, id: &ViewId, kid: &ViewId) -> (r: Result<(), ArithmeticFault>)
    ensures
        bounds_only(old(scene)@, final(scene)@),
        lands(r, old(scene)@, final(scene)@, grid_place(old(scene)@.views, id@, kid@)),
{
    let cell_inputs = match scene.get_view_state(id) {
        Some(ViewState::Grid(gs)) => {
            let cons = match gs.constraints.get(kid) {
                Some(c) => Some(*c),
                None => None,
            };
            Some((gs.col_width, gs.row_height, cons))
        },
        _ => None,
    };
    match cell_inputs {
        None => Ok(()),
        Some((cw, rh, cons)) => {
            let cell = grid_cell_of(cw, rh, cons)?;
            match shape_of(scene, kid) {
                None => Ok(()),
                Some((_, _, ha, va, b)) => {
                    let x = cell_at(ha, cell.position.x, cell.size.w, b.size.w)?;
                    let y = cell_at(va, cell.position.y, cell.size.h, b.size.h)?;
                    set_bounds(scene, kid, Bounds { position: Point { x, y }, size: b.size });
                    Ok(())
                },
            }
        },
    }
}

/// A tabbed panel (see `tabbed`).
fn tabbed_pass(scene: &mut Scene, id: &ViewId, space: Size, th: LayoutTheme, fuel: usize) -> (r: Result<
    (),
    ArithmeticFault,
>)
    requires
        old(scene)@.views.contains_key(id@),
    ensures
        bounds_only(old(scene)@, final(scene)@),
        lands(r, old(scene)@, final(scene)@, tabbed(old(scene)@.views, old(scene)@.kids, id@, space, th, fuel as nat)),
    decreases fuel, 2nat, 0nat,
{
    let (hf, vf, _, _, b) = shape_of(scene, id).unwrap();
    let w = if hf == Flex::Resize {
        space.w
    } else {
        b.size.w
    };
    let h = if vf == Flex::Resize {
        space.h
    } else {
        b.size.h
    };
    set_bounds(scene, id, Bounds { position: b.position, size: Size { w, h } });
    let size = Size { w, h };
    let tabs = ViewId::new("tabs");
    proof {
        reveal_strlit("tabs");
    }
    assert(tabs@ == tabs_id());
    child_pass(scene, &tabs, size, th, fuel)?;
    match scene.get_view_bounds(&tabs) {
        None => Ok(()),
        Some(tb) => {
            let insets = Insets { top: tb.size.h, right: 1, bottom: 1, left: 1 };
            let kids = scene.get_children_ids(id);
            pages_pass(scene, &kids, &tabs, size, insets, th, fuel)
        },
    }
}

/// Lays out and places each page of a tabbed panel (see `tab_pages`).
fn pages_pass(
    scene: &mut Scene,
    ids: &Vec<ViewId>,
    tabs: &ViewId,
    size: Size,
    insets: Insets,
    th: LayoutTheme,
    fuel: usize,
) -> (r: Result<(), ArithmeticFault>)
    requires
        tabs@ == tabs_id(),
    ensures
        bounds_only(old(scene)@, final(scene)@),
        lands(
            r,
            old(scene)@,
            final(scene)@,
            tab_pages(old(scene)@.views, old(scene)@.kids, ids.deep_view(), size, insets, th, fuel as nat),
        ),
    decreases fuel, 1nat, ids@.len(),
{
    let ghost s = ids.deep_view();
    let ghost m0 = scene@;
    let mut i: usize = 0;
    while i < ids.len()
        invariant
            i <= ids@.len(),
            s == ids.deep_view(),
            s.len() == ids@.len(),
            tabs@ == tabs_id(),
            old(scene)@ == m0,
            tab_pages(m0.views, m0.kids, s.take(i as int), size, insets, th, fuel as nat) == Some(scene@.views),
            scene@ == (SceneModel { views: scene@.views, ..m0 }),
            only_bounds_differ(m0.views, scene@.views),
        decreases ids@.len() - i,
    {
        assert(s.take(i + 1).drop_last() =~= s.take(i as int));
        assert(s.take(i + 1).last() == ids@[i as int]@);
        if !ids[i].same_as(tabs) {
            let res = match shrink(size, insets) {
                Ok(inner) => child_pass(scene, &ids[i], inner, th, fuel),
                Err(e) => Err(e),
            };
            if res.is_err() {
                proof {
                    lemma_pages_none(m0.views, m0.kids, s, size, insets, th, fuel as nat, i + 1);
                }
                return Err(ArithmeticFault);
            }
            match scene.get_view_bounds(&ids[i]) {
                None => {},
                Some(kb) => {
                    set_bounds(scene, &ids[i], Bounds { position: Point { x: insets.left, y: insets.top }, size: kb.size });
                },
            }
        }
        i += 1;
    }
    assert(s.take(ids@.len() as int) =~= s);
    Ok(())
}

proof fn lemma_list_none(views: Views, kids: Kids, ids: Seq<Seq<char>>, space: Size, th: LayoutTheme, fuel: nat, k: int)
    requires
        0 <= k <= ids.len(),
        layout_list(views, kids, ids.take(k), space, th, fuel) is None,
    ensures
        layout_list(views, kids, ids, space, th, fuel) is None,
    decreases ids.len(),
{
    if k == ids.len() {
        assert(ids.take(k) =~= ids);
    } else {
        assert(ids.drop_last().take(k) =~= ids.take(k));
        lemma_list_none(views, kids, ids.drop_last(), space, th, fuel, k);
    }
}

proof fn lemma_grid_none(
    views: Views,
    kids: Kids,
    id: Seq<char>,
    ids: Seq<Seq<char>>,
    space: Size,
    th: LayoutTheme,
    fuel: nat,
    k: int,
)
    requires
        0 <= k <= ids.len(),
        grid_children(views, kids, id, ids.take(k), space, th, fuel) is None,
    ensures
        grid_children(views, kids, id, ids, space, th, fuel) is None,
    decreases ids.len(),
{
    if k == ids.len() {
        assert(ids.take(k) =~= ids);
    } else {
        assert(ids.drop_last().take(k) =~= ids.take(k));
        lemma_grid_none(views, kids, id, ids.drop_last(), space, th, fuel, k);
    }
}

proof fn lemma_pages_none(
    views: Views,
    kids: Kids,
    ids: Seq<Seq<char>>,
    size: Size,
    insets: Insets,
    th: LayoutTheme,
    fuel: nat,
    k: int,
)
    requires
        0 <= k <= ids.len(),
        tab_pages(views, kids, ids.take(k), size, insets, th, fuel) is None,
    ensures
        tab_pages(views, kids, ids, size, insets, th, fuel) is None,
    decreases ids.len(),
{
    if k == ids.len() {
        assert(ids.take(k) =~= ids);
    } else {
        assert(ids.drop_last().take(k) =~= ids.take(k));
        lemma_pages_none(views, kids, ids.drop_last(), size, insets, th, fuel, k);
    }
}


/// Runs the layout `kind` on the view `target` in `space`, descending as
/// deep as the scene can nest.
pub open spec fn layout_as(m: SceneModel, target: Seq<char>, kind: LayoutKind, space: Size, th: LayoutTheme) -> Option<
    Views,
> {
    run_layout(m.views, m.kids, target, kind, space, th, depth_limit(m.views))
}

/// The views after the root is laid out in the scene's own size by its
/// layout; unchanged when the root is missing or has no layout.
pub open spec fn scene_layout(m: SceneModel, th: LayoutTheme) -> Option<Views> {
    if m.views.contains_key(m.root) {
        match m.views[m.root].layout {
            Some(k) => layout_as(m, m.root, k, m.bounds.size, th),
            None => Some(m.views),
        }
    } else {
        Some(m.views)
    }
}

fn run_kind(scene: &mut Scene, target: &ViewId, kind: LayoutKind, space: Size, theme: &LayoutTheme) -> (r: Result<
    (),
    ArithmeticFault,
>)
    ensures
        bounds_only(old(scene)@, final(scene)@),
        lands(r, old(scene)@, final(scene)@, layout_as(old(scene)@, target@, kind, space, *theme)),
{
    let fuel = scene.depth();
    kind_pass(scene, target, kind, space, *theme, fuel)
}

/// Lays out the vertical box `target` in `space`: see `vbox`. Fails only
/// where the `i32` arithmetic would overflow.
/// Succeeding or not, it changes nothing but the bounds of views.
pub fn layout_vbox(scene: &mut Scene, target: &ViewId, space: Size, theme: &LayoutTheme) -> (r: Result<
    (),
    ArithmeticFault,
>)
    ensures
        bounds_only(old(scene)@, final(scene)@),
        lands(r, old(scene)@, final(scene)@, layout_as(old(scene)@, target@, LayoutKind::VBox, space, *theme)),
{
    run_kind(scene, target, LayoutKind::VBox, space, theme)
}

/// Lays out the horizontal box `target` in `space`: see `hbox`.
/// Succeeding or not, it changes nothing but the bounds of views.
pub fn layout_hbox(scene: &mut Scene, target: &ViewId, space: Size, theme: &LayoutTheme) -> (r: Result<
    (),
    ArithmeticFault,
>)
    ensures
        bounds_only(old(scene)@, final(scene)@),
        lands(r, old(scene)@, final(scene)@, layout_as(old(scene)@, target@, LayoutKind::HBox, space, *theme)),
{
    run_kind(scene, target, LayoutKind::HBox, space, theme)
}

/// Lays out the standard panel `target` in `space`: see `std_panel`.
/// Succeeding or not, it changes nothing but the bounds of views.
pub fn layout_std_panel(scene: &mut Scene, target: &ViewId, space: Size, theme: &LayoutTheme) -> (r: Result<
    (),
    ArithmeticFault,
>)
    ensures
        bounds_only(old(scene)@, final(scene)@),
        lands(r, old(scene)@, final(scene)@, layout_as(old(scene)@, target@, LayoutKind::StdPanel, space, *theme)),
{
    run_kind(scene, target, LayoutKind::StdPanel, space, theme)
}

/// Lays out the toggle group `target` in `space`: one row of the regular
/// font tall, and `50` wide, along its intrinsic axes.
/// Succeeding or not, it changes nothing but the bounds of views.
pub fn layout_toggle_group(scene: &mut Scene, target: &ViewId, space: Size, theme: &LayoutTheme) -> (r: Result<
    (),
    ArithmeticFault,
>)
    ensures
        bounds_only(old(scene)@, final(scene)@),
        lands(r, old(scene)@, final(scene)@, layout_as(old(scene)@, target@, LayoutKind::ToggleGroup, space, *theme)),
{
    run_kind(scene, target, LayoutKind::ToggleGroup, space, theme)
}

/// Lays out the tabbed panel `target` in `space`: see `tabbed`.
/// Succeeding or not, it changes nothing but the bounds of views.
pub fn layout_tabbed_panel(scene: &mut Scene, target: &ViewId, space: Size, theme: &LayoutTheme) -> (r: Result<
    (),
    ArithmeticFault,
>)
    ensures
        bounds_only(old(scene)@, final(scene)@),
        lands(r, old(scene)@, final(scene)@, layout_as(old(scene)@, target@, LayoutKind::TabbedPanel, space, *theme)),
{
    run_kind(scene, target, LayoutKind::TabbedPanel, space, theme)
}

/// When the layout is stale, lays out the root in the scene's size and
/// marks the layout fresh; otherwise does nothing. Succeeding or not, it
/// changes nothing else but the bounds of views.
pub fn layout_scene(scene: &mut Scene, theme: &LayoutTheme) -> (r: Result<(), ArithmeticFault>)
    ensures
        !old(scene)@.layout_dirty ==> r is Ok && final(scene)@ == old(scene)@,
        old(scene)@.layout_dirty ==> lands(
            r,
            SceneModel { layout_dirty: false, ..old(scene)@ },
            final(scene)@,
            scene_layout(old(scene)@, *theme),
        ),
        old(scene)@.layout_dirty ==> bounds_only(SceneModel { layout_dirty: false, ..old(scene)@ }, final(scene)@),
{
    if !scene.needs_layout() {
        return Ok(());
    }
    scene.mark_layout_clean();
    let root = scene.root_id();
    let space = scene.size();
    match scene.get_view_layout(&root) {
        Some(k) => run_kind(scene, &root, k, space, theme),
        None => Ok(()),
    }
}
} // verus!
