use vstd::prelude::*;

verus! {

/// One drawing primitive for a monochrome screen of 128 by 64 pixels.
/// A colour is `true` for a lit pixel and `false` for a dark one; `None`
/// leaves the primitive's default.
#[derive(Debug, PartialEq, Eq)]
pub enum DrawCmd {
    /// A rectangle from corner to corner, with a lit outline.
    Rect { x0: i32, y0: i32, x1: i32, y1: i32, fill: Option<bool> },
    /// A lit line between two points.
    Line { x0: i32, y0: i32, x1: i32, y1: i32 },
    /// Text in a 6 by 8 font with its top-left corner at a point.
    Text { text: Vec<char>, x: i32, y: i32, stroke: Option<bool>, fill: Option<bool> },
    /// The 5 by 8 down-arrow glyph with its top-left corner at a point.
    ArrowDown { x: i32, y: i32 },
}

/// Whether `c` draws the text `s` at `(x, y)` with the given colours.
pub open spec fn is_text(c: DrawCmd, s: Seq<char>, x: int, y: int, stroke: Option<bool>, fill: Option<bool>) -> bool {
    match c {
        DrawCmd::Text { text, x: cx, y: cy, stroke: cs, fill: cf } =>
            text@ == s && cx == x && cy == y && cs == stroke && cf == fill,
        _ => false,
    }
}

pub open spec fn is_rect(c: DrawCmd, x0: int, y0: int, x1: int, y1: int, fill: Option<bool>) -> bool {
    c == (DrawCmd::Rect { x0: x0 as i32, y0: y0 as i32, x1: x1 as i32, y1: y1 as i32, fill })
        && i32::MIN <= x0 <= i32::MAX && i32::MIN <= y0 <= i32::MAX
        && i32::MIN <= x1 <= i32::MAX && i32::MIN <= y1 <= i32::MAX
}

pub open spec fn is_line(c: DrawCmd, x0: int, y0: int, x1: int, y1: int) -> bool {
    c == (DrawCmd::Line { x0: x0 as i32, y0: y0 as i32, x1: x1 as i32, y1: y1 as i32 })
        && i32::MIN <= x0 <= i32::MAX && i32::MIN <= y0 <= i32::MAX
        && i32::MIN <= x1 <= i32::MAX && i32::MIN <= y1 <= i32::MAX
}

} // verus!
