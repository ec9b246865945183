//! Inline CSS and class names of the map canvas's cells, frames and object
//! overlays.
use vstd::prelude::*;
use crate::document::ObjectShape;
use crate::text::{push_signed_decimal, signed_decimal};

verus! {

/// An absolutely placed box: `left:..px;top:..px;width:..px;height:..px;`.
pub open spec fn box_style(left: int, top: int, width: int, height: int) -> Seq<char> {
    "left:"@ + signed_decimal(left) + "px;top:"@ + signed_decimal(top) + "px;width:"@ + signed_decimal(width)
        + "px;height:"@ + signed_decimal(height) + "px;"@
}

pub fn box_string(left: i128, top: i128, width: i128, height: i128) -> (s: String)
    requires
        left > i128::MIN,
        top > i128::MIN,
        width > i128::MIN,
        height > i128::MIN,
    ensures
        s@ == box_style(left as int, top as int, width as int, height as int),
{
    let mut s = "left:".to_string();
    push_signed_decimal(&mut s, left);
    s.append("px;top:");
    push_signed_decimal(&mut s, top);
    s.append("px;width:");
    push_signed_decimal(&mut s, width);
    s.append("px;height:");
    push_signed_decimal(&mut s, height);
    s.append("px;");
    s
}

/// The box of map cell (x, y).
pub fn cell_style(tile_width: u32, tile_height: u32, x: u32, y: u32) -> (s: String)
    requires
        x * tile_width <= u32::MAX,
        y * tile_height <= u32::MAX,
    ensures
        s@ == box_style(x * tile_width, y * tile_height, tile_width as int, tile_height as int),
{
    box_string((x * tile_width) as i128, (y * tile_height) as i128, tile_width as i128, tile_height as i128)
}

/// `n` read as an `i32`, as the cast `n as i32` reads it: values past
/// `i32::MAX` wrap around to negative ones.
pub open spec fn wrapped_i32(n: u32) -> int {
    if n <= i32::MAX { n as int } else { n - 0x1_0000_0000 }
}

/// `n as i32`.
pub(crate) fn to_i32(n: u32) -> (r: i32)
    ensures
        r == wrapped_i32(n),
{
    let r = n as i32;
    assert(n <= 0x7fff_ffff ==> r == n) by (bit_vector)
        requires
            r == n as i32,
    ;
    assert(n > 0x7fff_ffff ==> r == n - 0x1_0000_0000) by (bit_vector)
        requires
            r == n as i32,
    ;
    r
}

/// The box of map cell (x, y), where the cell may lie left of or above the
/// map; the tile size is read as an `i32` for the position.
pub fn signed_cell_style(tile_width: u32, tile_height: u32, x: i32, y: i32) -> (s: String)
    requires
        i32::MIN <= x * wrapped_i32(tile_width) <= i32::MAX,
        i32::MIN <= y * wrapped_i32(tile_height) <= i32::MAX,
    ensures
        s@ == box_style(x * wrapped_i32(tile_width), y * wrapped_i32(tile_height), tile_width as int, tile_height as int),
{
    let left = x * to_i32(tile_width);
    let top = y * to_i32(tile_height);
    box_string(left as i128, top as i128, tile_width as i128, tile_height as i128)
}

/// The frame around the cells from (min_x, min_y) to (max_x, max_y), both included.
pub fn preview_frame_style(tile_width: u32, tile_height: u32, min_x: u32, min_y: u32, max_x: u32, max_y: u32) -> (s: String)
    requires
        min_x <= max_x,
        min_y <= max_y,
        max_x - min_x + 1 <= u32::MAX,
        max_y - min_y + 1 <= u32::MAX,
        min_x * tile_width <= u32::MAX,
        min_y * tile_height <= u32::MAX,
        (max_x - min_x + 1) * tile_width <= u32::MAX,
        (max_y - min_y + 1) * tile_height <= u32::MAX,
    ensures
        s@ == box_style(
            min_x * tile_width,
            min_y * tile_height,
            (max_x - min_x + 1) * tile_width,
            (max_y - min_y + 1) * tile_height,
        ),
{
    box_string(
        (min_x * tile_width) as i128,
        (min_y * tile_height) as i128,
        ((max_x - min_x + 1) * tile_width) as i128,
        ((max_y - min_y + 1) * tile_height) as i128,
    )
}

/// The frame around the cells from (min_x, min_y) to (max_x, max_y), both
/// included, in cell coordinates that may be negative. The tile size is read
/// as an `i32` for the position, and the span as a `u32` for the size.
pub fn signed_preview_frame_style(
    tile_width: u32,
    tile_height: u32,
    min_x: i32,
    min_y: i32,
    max_x: i32,
    max_y: i32,
) -> (s: String)
    requires
        i32::MIN <= min_x * wrapped_i32(tile_width) <= i32::MAX,
        i32::MIN <= min_y * wrapped_i32(tile_height) <= i32::MAX,
        i32::MIN <= max_x - min_x <= i32::MAX,
        i32::MIN <= max_x - min_x + 1 <= i32::MAX,
        i32::MIN <= max_y - min_y <= i32::MAX,
        i32::MIN <= max_y - min_y + 1 <= i32::MAX,
        ((max_x - min_x + 1) as u32) * tile_width <= u32::MAX,
        ((max_y - min_y + 1) as u32) * tile_height <= u32::MAX,
    ensures
        s@ == box_style(
            min_x * wrapped_i32(tile_width),
            min_y * wrapped_i32(tile_height),
            ((max_x - min_x + 1) as u32) * tile_width,
            ((max_y - min_y + 1) as u32) * tile_height,
        ),
{
    let left = min_x * to_i32(tile_width);
    let top = min_y * to_i32(tile_height);
    let columns = (max_x - min_x + 1) as u32;
    let rows = (max_y - min_y + 1) as u32;
    box_string(left as i128, top as i128, (columns * tile_width) as i128, (rows * tile_height) as i128)
}

/// The box of a cached map slice covering the cells `min_x..max_x` by
/// `min_y..max_y`, at least one cell wide and high; nothing without a cache.
pub fn flat_tile_cache_style(cache_bounds: Option<(u32, u32, u32, u32)>, tile_width: u32, tile_height: u32) -> (s: Option<String>)
    requires
        cache_bounds matches Some((min_x, max_x, min_y, max_y)) ==> {
            &&& min_x * tile_width <= u32::MAX
            &&& min_y * tile_height <= u32::MAX
            &&& span(min_x, max_x) * tile_width <= u32::MAX
            &&& span(min_y, max_y) * tile_height <= u32::MAX
        },
    ensures
        match cache_bounds {
            None => s is None,
            Some((min_x, max_x, min_y, max_y)) => s matches Some(t) && t@ == box_style(
                min_x * tile_width,
                min_y * tile_height,
                span(min_x, max_x) * tile_width,
                span(min_y, max_y) * tile_height,
            ),
        },
{
    let (min_x, max_x, min_y, max_y) = match cache_bounds {
        None => return None,
        Some(b) => b,
    };
    let columns = if max_x > min_x { max_x - min_x } else { 1 };
    let rows = if max_y > min_y { max_y - min_y } else { 1 };
    Some(box_string(
        (min_x * tile_width) as i128,
        (min_y * tile_height) as i128,
        (columns * tile_width) as i128,
        (rows * tile_height) as i128,
    ))
}

/// The number of cells from `min` up to `max`, and at least one.
pub open spec fn span(min: u32, max: u32) -> int {
    if max > min { max - min } else { 1 }
}

/// The corners of the rectangle spanned by two cells: (min_x, min_y, max_x, max_y).
pub fn preview_bounds(start_cell: (u32, u32), end_cell: (u32, u32)) -> (b: (u32, u32, u32, u32))
    ensures
        b.0 == if start_cell.0 <= end_cell.0 { start_cell.0 } else { end_cell.0 },
        b.1 == if start_cell.1 <= end_cell.1 { start_cell.1 } else { end_cell.1 },
        b.2 == if start_cell.0 >= end_cell.0 { start_cell.0 } else { end_cell.0 },
        b.3 == if start_cell.1 >= end_cell.1 { start_cell.1 } else { end_cell.1 },
{
    (
        if start_cell.0 <= end_cell.0 { start_cell.0 } else { end_cell.0 },
        if start_cell.1 <= end_cell.1 { start_cell.1 } else { end_cell.1 },
        if start_cell.0 >= end_cell.0 { start_cell.0 } else { end_cell.0 },
        if start_cell.1 >= end_cell.1 { start_cell.1 } else { end_cell.1 },
    )
}

/// The class list of an object overlay.
pub open spec fn object_class_text(selected: bool, shape: ObjectShape) -> Seq<char> {
    match (selected, shape) {
        (true, ObjectShape::Rectangle) => "object-overlay rectangle selected"@,
        (true, ObjectShape::Point) => "object-overlay point selected"@,
        (false, ObjectShape::Rectangle) => "object-overlay rectangle"@,
        (false, ObjectShape::Point) => "object-overlay point"@,
    }
}

/// The class list of the overlay of object `object_id`, marked when it is the selected one.
pub fn object_class(selected: Option<u32>, object_id: u32, shape: ObjectShape) -> (class: &'static str)
    ensures
        class@ == object_class_text(selected == Some(object_id), shape),
{
    let is_selected = match selected {
        Some(id) => id == object_id,
        None => false,
    };
    match (is_selected, shape) {
        (true, ObjectShape::Rectangle) => "object-overlay rectangle selected",
        (true, ObjectShape::Point) => "object-overlay point selected",
        (false, ObjectShape::Rectangle) => "object-overlay rectangle",
        (false, ObjectShape::Point) => "object-overlay point",
    }
}

} // verus!
