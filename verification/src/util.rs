//! Text metrics: the size that a title needs in a monospaced font.
use vstd::prelude::*;
use crate::geom::{Bounds, Point, Size};

verus! {

/// The size of one character cell of a monospaced font.
#[derive(Debug, Copy, Clone, PartialEq, Eq, Structural)]
pub struct FontMetrics {
    pub width: u32,
    pub height: u32,
}

/// What layout needs to know of a theme: the cell sizes of its regular and
/// of its bold font.
#[derive(Debug, Copy, Clone, PartialEq, Eq, Structural)]
pub struct LayoutTheme {
    pub font: FontMetrics,
    pub bold_font: FontMetrics,
}

/// The length of a text in UTF-8 bytes, which is what `str::len` counts.
pub open spec fn byte_len(s: Seq<char>) -> nat {
    vstd::utf8::encode_utf8(s).len()
}

/// The unpadded width of `n` characters, then the padded width and height,
/// all as `u32` arithmetic; `text_size_ok` says that none of it overflows.
pub open spec fn text_size_ok(font: FontMetrics, n: nat) -> bool {
    &&& font.width * (((n as usize) as u32) as int) <= u32::MAX
    &&& font.width * 2 <= u32::MAX
    &&& font.width * (((n as usize) as u32) as int) + font.width * 2 <= u32::MAX
    &&& font.height + (font.height / 2) * 2 <= u32::MAX
}

/// The padded text width: one character width of padding on each side.
pub open spec fn text_width(font: FontMetrics, n: nat) -> u32 {
    (font.width * (((n as usize) as u32) as int) + font.width * 2) as u32
}

/// The padded text height: half a character height of padding above and below.
pub open spec fn text_height(font: FontMetrics) -> u32 {
    (font.height + (font.height / 2) * 2) as u32
}

/// The size of a title of `n` bytes, converted to `i32` as `as` does.
pub open spec fn text_size(font: FontMetrics, n: nat) -> Size {
    Size { w: text_width(font, n) as i32, h: text_height(font) as i32 }
}

/// The size that `title` needs in `font`, padded on all sides.
pub fn calc_size(font: FontMetrics, title: &str) -> (r: Size)
    requires
        text_size_ok(font, byte_len(title@)),
    ensures
        r == text_size(font, byte_len(title@)),
{
    let fw = font.width;
    let fh = font.height;
    let hpad = fw;
    let vpad = fh / 2;
    let n = title.len();
    let n32 = n as u32;
    let mut width = fw * n32;
    width += hpad * 2;
    let mut height = fh;
    height += vpad * 2;
    Size { w: width as i32, h: height as i32 }
}

/// The rectangle at the position of `bounds` with the size that `title`
/// needs in `font`.
pub fn calc_bounds(bounds: Bounds, font: FontMetrics, title: &str) -> (r: Bounds)
    requires
        text_size_ok(font, byte_len(title@)),
    ensures
        r == (Bounds { position: bounds.position, size: text_size(font, byte_len(title@)) }),
{
    let s = calc_size(font, title);
    Bounds::new(bounds.x(), bounds.y(), s.w, s.h)
}

} // verus!

verus! {

/// Whether `calc_size` can size `title` in `font` without overflow.
pub fn text_fits(font: FontMetrics, title: &str) -> (r: bool)
    ensures
        r == text_size_ok(font, byte_len(title@)),
{
    let n = title.len();
    let n32 = n as u32;
    match font.width.checked_mul(n32) {
        None => false,
        Some(a) => match font.width.checked_mul(2) {
            None => false,
            Some(b) => match a.checked_add(b) {
                None => false,
                Some(_) => {
                    let half = font.height / 2;
                    font.height.checked_add(half + half).is_some()
                },
            },
        },
    }
}

} // verus!
