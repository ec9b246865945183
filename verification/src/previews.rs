//! The canvas overlays that preview an edit before it is applied: the shape
//! fill preview, the tile selection frame and the tiles carried by a moving
//! selection.
use vstd::prelude::*;
use std::collections::BTreeMap;
use crate::document::{MapModel, TileMap};
use crate::styles::{
    box_style, cell_style, preview_frame_style, signed_cell_style, signed_preview_frame_style, to_i32, wrapped_i32,
};
use crate::tiles::{preview_suffix, preview_tile_style, preview_tile_style_signed, sheets_fit, sprite_style_text, tile_ref};

verus! {

/// One previewed tile: its cell, its style, and whether it is drawn as a bare
/// cell because its tile is unknown.
pub struct PreviewTile {
    pub x: i32,
    pub y: i32,
    pub style: String,
    pub fallback: bool,
}

pub open spec fn preview_tile_view(t: PreviewTile) -> (i32, i32, Seq<char>, bool) {
    (t.x, t.y, t.style@, t.fallback)
}

pub open spec fn preview_tiles_view(ts: Seq<PreviewTile>) -> Seq<(i32, i32, Seq<char>, bool)> {
    ts.map_values(|t: PreviewTile| preview_tile_view(t))
}

/// The style of `gid` previewed with its top-left corner at (left, top): the
/// faded sprite, or a bare cell when the sprite cannot be drawn.
pub open spec fn previewed_style<G>(m: MapModel<G>, images: Map<usize, String>, gid: u32, left: int, top: int) -> Seq<char> {
    match sprite_style_text(m, images, gid, left, top) {
        Some(t) => t + preview_suffix(),
        None => box_style(left, top, m.tile_width as int, m.tile_height as int),
    }
}

/// The shape fill preview: a faded tile on each cell to be filled, and the
/// frame around the rectangle the fill was dragged over.
pub struct ShapeFillPreviewVisual {
    pub tiles: Vec<PreviewTile>,
    pub frame_style: String,
}

/// Every cell position, and the frame, fit in the map's pixel coordinates.
pub open spec fn fill_fits<G>(m: MapModel<G>, cells: Seq<(u32, u32)>, start: (u32, u32), end: (u32, u32)) -> bool {
    &&& forall|i: int| 0 <= i < cells.len() ==> #[trigger] cells[i].0 * m.tile_width <= u32::MAX
        && cells[i].1 * m.tile_height <= u32::MAX
    &&& {
        let min_x = if start.0 <= end.0 { start.0 } else { end.0 };
        let min_y = if start.1 <= end.1 { start.1 } else { end.1 };
        let max_x = if start.0 >= end.0 { start.0 } else { end.0 };
        let max_y = if start.1 >= end.1 { start.1 } else { end.1 };
        &&& max_x - min_x + 1 <= u32::MAX
        &&& max_y - min_y + 1 <= u32::MAX
        &&& min_x * m.tile_width <= u32::MAX
        &&& min_y * m.tile_height <= u32::MAX
        &&& (max_x - min_x + 1) * m.tile_width <= u32::MAX
        &&& (max_y - min_y + 1) * m.tile_height <= u32::MAX
    }
}

/// The shape fill preview of `selected_gid` over `cells` (the cells the fill
/// covers), dragged from `start_cell` to `end_cell`.
pub fn build_shape_fill_preview<G>(
    map: &TileMap<G>,
    image_cache: &BTreeMap<usize, String>,
    selected_gid: u32,
    cells: &Vec<(u32, u32)>,
    start_cell: (u32, u32),
    end_cell: (u32, u32),
) -> (v: ShapeFillPreviewVisual)
    requires
        sheets_fit(map.tilesets@),
        fill_fits(map@, cells@, start_cell, end_cell),
    ensures
        preview_tiles_view(v.tiles@) == cells@.map_values(
            |c: (u32, u32)|
                (
                    c.0 as i32,
                    c.1 as i32,
                    previewed_style(map@, image_cache@, selected_gid, c.0 * map.tile_width, c.1 * map.tile_height),
                    tile_ref(map@.tilesets, selected_gid) is None,
                ),
        ),
        ({
            let (min_x, min_y, max_x, max_y) = (
                if start_cell.0 <= end_cell.0 { start_cell.0 } else { end_cell.0 },
                if start_cell.1 <= end_cell.1 { start_cell.1 } else { end_cell.1 },
                if start_cell.0 >= end_cell.0 { start_cell.0 } else { end_cell.0 },
                if start_cell.1 >= end_cell.1 { start_cell.1 } else { end_cell.1 },
            );
            v.frame_style@ == box_style(
                min_x * map.tile_width,
                min_y * map.tile_height,
                (max_x - min_x + 1) * map.tile_width,
                (max_y - min_y + 1) * map.tile_height,
            )
        }),
{
    let (min_x, min_y, max_x, max_y) = crate::styles::preview_bounds(start_cell, end_cell);
    let fallback = map.tile_reference_for_gid(selected_gid).is_none();
    let ghost f = |c: (u32, u32)|
        (
            c.0 as i32,
            c.1 as i32,
            previewed_style(map@, image_cache@, selected_gid, c.0 * map.tile_width, c.1 * map.tile_height),
            tile_ref(map@.tilesets, selected_gid) is None,
        );
    let mut tiles: Vec<PreviewTile> = Vec::new();
    let mut i: usize = 0;
    while i < cells.len()
        invariant
            0 <= i <= cells@.len(),
            sheets_fit(map.tilesets@),
            fill_fits(map@, cells@, start_cell, end_cell),
            fallback == (tile_ref(map@.tilesets, selected_gid) is None),
            f == (|c: (u32, u32)|
                (
                    c.0 as i32,
                    c.1 as i32,
                    previewed_style(map@, image_cache@, selected_gid, c.0 * map.tile_width, c.1 * map.tile_height),
                    tile_ref(map@.tilesets, selected_gid) is None,
                )),
            preview_tiles_view(tiles@) == cells@.take(i as int).map_values(f),
        decreases cells.len() - i,
    {
        let (x, y) = cells[i];
        assert(x * map.tile_width <= u32::MAX && y * map.tile_height <= u32::MAX) by {
            assert(cells@[i as int] == (x, y));
        }
        let style = match preview_tile_style(map, image_cache, selected_gid, x, y) {
            Some(style) => style,
            None => cell_style(map.tile_width, map.tile_height, x, y),
        };
        let ghost before = tiles@;
        let tile = PreviewTile { x: x as i32, y: y as i32, style, fallback };
        assert(preview_tile_view(tile) == f(cells@[i as int]));
        tiles.push(tile);
        assert(preview_tiles_view(tiles@) =~= preview_tiles_view(before).push(f(cells@[i as int])));
        assert(cells@.take(i as int + 1).map_values(f) =~= cells@.take(i as int).map_values(f).push(f(cells@[i as int])));
        i += 1;
    }
    assert(cells@.take(i as int) =~= cells@);
    let frame_style = preview_frame_style(map.tile_width, map.tile_height, min_x, min_y, max_x, max_y);
    ShapeFillPreviewVisual { tiles, frame_style }
}

/// A block of tiles carried by a moving selection, row by row; 0 is an empty cell.
pub struct TileTransfer {
    pub width: u32,
    pub height: u32,
    pub tiles: Vec<u32>,
}

/// The previewed tile of cell (lx, ly) of a carried block whose top-left
/// corner is at (min_x, min_y); nothing for an empty cell.
pub open spec fn transfer_cell<G>(
    m: MapModel<G>,
    images: Map<usize, String>,
    t: TileTransfer,
    min_x: i32,
    min_y: i32,
    lx: u32,
    ly: u32,
) -> Seq<(i32, i32, Seq<char>, bool)> {
    let gid = t.tiles@[ly * t.width + lx];
    if gid == 0 {
        Seq::empty()
    } else {
        let x = min_x + wrapped_i32(lx);
        let y = min_y + wrapped_i32(ly);
        seq![
            (
                x as i32,
                y as i32,
                previewed_style(m, images, gid, x * wrapped_i32(m.tile_width), y * wrapped_i32(m.tile_height)),
                tile_ref(m.tilesets, gid) is None,
            ),
        ]
    }
}

pub open spec fn transfer_row<G>(m: MapModel<G>, images: Map<usize, String>, t: TileTransfer, min_x: i32, min_y: i32, ly: u32, n: int) -> Seq<
    (i32, i32, Seq<char>, bool),
>
    decreases n,
{
    if n <= 0 {
        Seq::empty()
    } else {
        transfer_row(m, images, t, min_x, min_y, ly, n - 1) + transfer_cell(m, images, t, min_x, min_y, (n - 1) as u32, ly)
    }
}

/// The previewed tiles of the first `n` rows of a carried block.
pub open spec fn transfer_tiles<G>(m: MapModel<G>, images: Map<usize, String>, t: TileTransfer, min_x: i32, min_y: i32, n: int) -> Seq<
    (i32, i32, Seq<char>, bool),
>
    decreases n,
{
    if n <= 0 {
        Seq::empty()
    } else {
        transfer_tiles(m, images, t, min_x, min_y, n - 1) + transfer_row(m, images, t, min_x, min_y, (n - 1) as u32, t.width as int)
    }
}

/// Entry `e` previews cell (lx, ly) of the carried block `t`, read row by
/// row: it is the block's non-empty entry `ly * width + lx`, shown at
/// (min_x + lx, min_y + ly).
spec fn shows_block_cell<G>(
    m: MapModel<G>,
    images: Map<usize, String>,
    t: TileTransfer,
    min_x: i32,
    min_y: i32,
    e: (i32, i32, Seq<char>, bool),
    lx: u32,
    ly: u32,
) -> bool {
    let gid = t.tiles@[ly * t.width + lx];
    let x = min_x + wrapped_i32(lx);
    let y = min_y + wrapped_i32(ly);
    &&& lx < t.width
    &&& ly < t.height
    &&& gid != 0
    &&& e == (
        x as i32,
        y as i32,
        previewed_style(m, images, gid, x * wrapped_i32(m.tile_width), y * wrapped_i32(m.tile_height)),
        tile_ref(m.tilesets, gid) is None,
    )
}

/// The column of the block cell that entry `j` of the first `n` previewed
/// cells of row `ly` previews.
spec fn row_entry_column<G>(
    m: MapModel<G>,
    images: Map<usize, String>,
    t: TileTransfer,
    min_x: i32,
    min_y: i32,
    ly: u32,
    n: int,
    j: int,
) -> u32 {
    choose|v: u32| shows_block_cell(m, images, t, min_x, min_y, transfer_row(m, images, t, min_x, min_y, ly, n)[j], v, ly)
}

/// The cell of the block that entry `j` of the first `n` previewed rows previews.
spec fn tiles_entry_cell<G>(m: MapModel<G>, images: Map<usize, String>, t: TileTransfer, min_x: i32, min_y: i32, n: int, j: int) -> (
    u32,
    u32,
) {
    choose|a: u32, b: u32| shows_block_cell(m, images, t, min_x, min_y, transfer_tiles(m, images, t, min_x, min_y, n)[j], a, b)
}

proof fn lemma_row_shows_block<G>(
    m: MapModel<G>,
    images: Map<usize, String>,
    t: TileTransfer,
    min_x: i32,
    min_y: i32,
    ly: u32,
    n: int,
)
    requires
        0 <= n <= t.width,
        ly < t.height,
    ensures
        forall|j: int|
            0 <= j < transfer_row(m, images, t, min_x, min_y, ly, n).len() ==> shows_block_cell(
                m,
                images,
                t,
                min_x,
                min_y,
                #[trigger] transfer_row(m, images, t, min_x, min_y, ly, n)[j],
                row_entry_column(m, images, t, min_x, min_y, ly, n, j),
                ly,
            ),
    decreases n,
{
    if n > 0 {
        lemma_row_shows_block(m, images, t, min_x, min_y, ly, n - 1);
        let prev = transfer_row(m, images, t, min_x, min_y, ly, n - 1);
        let row = transfer_row(m, images, t, min_x, min_y, ly, n);
        let lx = (n - 1) as u32;
        let cell = transfer_cell(m, images, t, min_x, min_y, lx, ly);
        assert(row == prev + cell);
        assert forall|j: int| 0 <= j < row.len() implies shows_block_cell(
            m,
            images,
            t,
            min_x,
            min_y,
            #[trigger] row[j],
            row_entry_column(m, images, t, min_x, min_y, ly, n, j),
            ly,
        ) by {
            if j < prev.len() {
                assert(row[j] == prev[j]);
                let u = row_entry_column(m, images, t, min_x, min_y, ly, n - 1, j);
                assert(shows_block_cell(m, images, t, min_x, min_y, prev[j], u, ly));
                assert(shows_block_cell(m, images, t, min_x, min_y, row[j], u, ly));
            } else {
                assert(row[j] == cell[0]);
                assert(shows_block_cell(m, images, t, min_x, min_y, row[j], lx, ly));
            }
        }
    }
}

proof fn lemma_tiles_show_block<G>(
    m: MapModel<G>,
    images: Map<usize, String>,
    t: TileTransfer,
    min_x: i32,
    min_y: i32,
    n: int,
)
    requires
        0 <= n <= t.height,
    ensures
        forall|j: int|
            0 <= j < transfer_tiles(m, images, t, min_x, min_y, n).len() ==> shows_block_cell(
                m,
                images,
                t,
                min_x,
                min_y,
                #[trigger] transfer_tiles(m, images, t, min_x, min_y, n)[j],
                tiles_entry_cell(m, images, t, min_x, min_y, n, j).0,
                tiles_entry_cell(m, images, t, min_x, min_y, n, j).1,
            ),
    decreases n,
{
    if n > 0 {
        lemma_tiles_show_block(m, images, t, min_x, min_y, n - 1);
        let ly = (n - 1) as u32;
        lemma_row_shows_block(m, images, t, min_x, min_y, ly, t.width as int);
        let prev = transfer_tiles(m, images, t, min_x, min_y, n - 1);
        let row = transfer_row(m, images, t, min_x, min_y, ly, t.width as int);
        let all = transfer_tiles(m, images, t, min_x, min_y, n);
        assert(all == prev + row);
        assert forall|j: int| 0 <= j < all.len() implies shows_block_cell(
            m,
            images,
            t,
            min_x,
            min_y,
            #[trigger] all[j],
            tiles_entry_cell(m, images, t, min_x, min_y, n, j).0,
            tiles_entry_cell(m, images, t, min_x, min_y, n, j).1,
        ) by {
            if j < prev.len() {
                assert(all[j] == prev[j]);
                let c = tiles_entry_cell(m, images, t, min_x, min_y, n - 1, j);
                assert(shows_block_cell(m, images, t, min_x, min_y, prev[j], c.0, c.1));
                assert(shows_block_cell(m, images, t, min_x, min_y, all[j], c.0, c.1));
            } else {
                let r = j - prev.len();
                assert(all[j] == row[r]);
                let a = row_entry_column(m, images, t, min_x, min_y, ly, t.width as int, r);
                assert(shows_block_cell(m, images, t, min_x, min_y, row[r], a, ly));
                assert(shows_block_cell(m, images, t, min_x, min_y, all[j], a, ly));
            }
        }
    }
}

/// Every previewed tile of a carried block is the block's entry for its row
/// and column, the block being stored row by row: preview entry `j`, shown at
/// (min_x + lx, min_y + ly), is the non-empty entry `tiles[ly * width + lx]`,
/// drawn as that tile's faded sprite (or a bare cell, marked as a fallback,
/// when no tileset holds it).
pub proof fn transfer_preview_shows_block_row_major<G>(
    m: MapModel<G>,
    images: Map<usize, String>,
    t: TileTransfer,
    min_x: i32,
    min_y: i32,
    j: int,
)
    requires
        0 <= j < transfer_tiles(m, images, t, min_x, min_y, t.height as int).len(),
    ensures
        exists|lx: u32, ly: u32|
            #![trigger wrapped_i32(lx), wrapped_i32(ly)]
            {
                let e = transfer_tiles(m, images, t, min_x, min_y, t.height as int)[j];
                let gid = t.tiles@[ly * t.width + lx];
                let x = min_x + wrapped_i32(lx);
                let y = min_y + wrapped_i32(ly);
                &&& lx < t.width
                &&& ly < t.height
                &&& gid != 0
                &&& e.0 == x as i32
                &&& e.1 == y as i32
                &&& e.2 == previewed_style(m, images, gid, x * wrapped_i32(m.tile_width), y * wrapped_i32(m.tile_height))
                &&& e.3 == (tile_ref(m.tilesets, gid) is None)
            },
{
    let all = transfer_tiles(m, images, t, min_x, min_y, t.height as int);
    lemma_tiles_show_block(m, images, t, min_x, min_y, t.height as int);
    let c = tiles_entry_cell(m, images, t, min_x, min_y, t.height as int, j);
    assert(shows_block_cell(m, images, t, min_x, min_y, all[j], c.0, c.1));
    assert(wrapped_i32(c.0) == wrapped_i32(c.0) && wrapped_i32(c.1) == wrapped_i32(c.1));
}

/// The carried block can be placed at (min_x, min_y): its cells are all
/// stored and numbered within a `u32`, and every cell and pixel position fits
/// in an `i32` (offsets and tile sizes read as `i32`).
pub open spec fn transfer_fits<G>(m: MapModel<G>, t: TileTransfer, min_x: i32, min_y: i32) -> bool {
    &&& t.tiles@.len() >= t.width * t.height
    &&& t.width * t.height <= u32::MAX + 1
    &&& forall|lx: u32| lx < t.width ==> i32::MIN <= min_x + #[trigger] wrapped_i32(lx) <= i32::MAX
        && i32::MIN <= (min_x + wrapped_i32(lx)) * wrapped_i32(m.tile_width) <= i32::MAX
    &&& forall|ly: u32| ly < t.height ==> i32::MIN <= min_y + #[trigger] wrapped_i32(ly) <= i32::MAX
        && i32::MIN <= (min_y + wrapped_i32(ly)) * wrapped_i32(m.tile_height) <= i32::MAX
}

/// The tiles a moving selection carries, previewed where the selection now
/// starts (`selection_min`); nothing without a carried block or a selection.
pub fn active_tile_selection_transfer_preview<G>(
    map: &TileMap<G>,
    image_cache: &BTreeMap<usize, String>,
    transfer: Option<&TileTransfer>,
    selection_min: Option<(i32, i32)>,
) -> (r: Option<Vec<PreviewTile>>)
    requires
        sheets_fit(map.tilesets@),
        transfer matches Some(t) && selection_min matches Some((min_x, min_y)) ==> transfer_fits(map@, *t, min_x, min_y),
    ensures
        match (transfer, selection_min) {
            (Some(t), Some((min_x, min_y))) => r matches Some(tiles) && preview_tiles_view(tiles@) == transfer_tiles(
                map@,
                image_cache@,
                *t,
                min_x,
                min_y,
                t.height as int,
            ),
            _ => r is None,
        },
{
    let transfer = match transfer {
        None => return None,
        Some(t) => t,
    };
    let (min_x, min_y) = match selection_min {
        None => return None,
        Some(m) => m,
    };
    let ghost m = map@;
    let ghost images = image_cache@;
    let ghost t = *transfer;
    let mut tiles: Vec<PreviewTile> = Vec::new();
    let mut local_y: u32 = 0;
    while local_y < transfer.height
        invariant
            0 <= local_y <= transfer.height,
            m == map@,
            images == image_cache@,
            t == *transfer,
            sheets_fit(map.tilesets@),
            transfer_fits(m, t, min_x, min_y),
            preview_tiles_view(tiles@) == transfer_tiles(m, images, t, min_x, min_y, local_y as int),
        decreases transfer.height - local_y,
    {
        let ghost row_start = preview_tiles_view(tiles@);
        let mut local_x: u32 = 0;
        while local_x < transfer.width
            invariant
                0 <= local_x <= transfer.width,
                local_y < transfer.height,
                m == map@,
                images == image_cache@,
                t == *transfer,
                sheets_fit(map.tilesets@),
                transfer_fits(m, t, min_x, min_y),
                preview_tiles_view(tiles@) == row_start + transfer_row(m, images, t, min_x, min_y, local_y, local_x as int),
            decreases transfer.width - local_x,
        {
            let ghost before = preview_tiles_view(tiles@);
            proof { reveal_with_fuel(transfer_row, 2); }
            assert(i32::MIN <= min_x + wrapped_i32(local_x) <= i32::MAX);
            assert(i32::MIN <= (min_x + wrapped_i32(local_x)) * wrapped_i32(map.tile_width) <= i32::MAX);
            assert(i32::MIN <= min_y + wrapped_i32(local_y) <= i32::MAX);
            assert(i32::MIN <= (min_y + wrapped_i32(local_y)) * wrapped_i32(map.tile_height) <= i32::MAX);
            let x = min_x + to_i32(local_x);
            let y = min_y + to_i32(local_y);
            assert(local_y * transfer.width + local_x < transfer.width * transfer.height) by (nonlinear_arith)
                requires
                    local_x < transfer.width,
                    local_y < transfer.height,
            ;
            let len = transfer.tiles.len();
            assert((local_y as usize) * (transfer.width as usize) + (local_x as usize) < len);
            let row_offset = (local_y as usize) * (transfer.width as usize);
            let gid = transfer.tiles[row_offset + (local_x as usize)];
            if gid != 0 {
                let style = match preview_tile_style_signed(map, image_cache, gid, x, y) {
                    Some(style) => style,
                    None => signed_cell_style(map.tile_width, map.tile_height, x, y),
                };
                let fallback = map.tile_reference_for_gid(gid).is_none();
                let tile = PreviewTile { x, y, style, fallback };
                let ghost entry = preview_tile_view(tile);
                tiles.push(tile);
                assert(preview_tiles_view(tiles@) =~= before.push(entry));
                assert(transfer_cell(m, images, t, min_x, min_y, local_x, local_y) =~= seq![entry]);
            } else {
                assert(transfer_cell(m, images, t, min_x, min_y, local_x, local_y) =~= Seq::<(i32, i32, Seq<char>, bool)>::empty());
            }
            assert(preview_tiles_view(tiles@) =~= row_start + transfer_row(m, images, t, min_x, min_y, local_y, local_x as int + 1));
            local_x += 1;
        }
        assert(preview_tiles_view(tiles@) =~= transfer_tiles(m, images, t, min_x, min_y, local_y as int + 1));
        local_y += 1;
    }
    Some(tiles)
}

/// One corner handle of the selection frame: its position class and its style.
pub struct TileSelectionHandle {
    pub position: &'static str,
    pub style: &'static str,
}

/// The selection frame drawn over the map.
pub struct TileSelectionOverlay {
    pub preview: bool,
    pub closing: bool,
    pub irregular: bool,
    pub region_style: String,
    pub cell_styles: Vec<String>,
    pub show_handles: bool,
    pub show_irregular_handles: bool,
    pub handles: Vec<TileSelectionHandle>,
}

/// The frame of one selected cell.
pub open spec fn single_cell_style<G>(m: MapModel<G>, c: (i32, i32)) -> Seq<char> {
    box_style(c.0 * wrapped_i32(m.tile_width), c.1 * wrapped_i32(m.tile_height), m.tile_width as int, m.tile_height as int)
}

/// The corner handles, in the order they are drawn.
pub open spec fn handles_view(hs: Seq<TileSelectionHandle>) -> Seq<(Seq<char>, Seq<char>)> {
    hs.map_values(|h: TileSelectionHandle| (h.position@, h.style@))
}

pub open spec fn corner_handles() -> Seq<(Seq<char>, Seq<char>)> {
    seq![
        ("top-left"@, "left:-11px;top:-11px;"@),
        ("top-right"@, "right:-11px;top:-11px;"@),
        ("bottom-left"@, "left:-11px;bottom:-11px;"@),
        ("bottom-right"@, "right:-11px;bottom:-11px;"@),
    ]
}

/// Every selected cell and the selection frame fit in `i32` pixel coordinates
/// (tile sizes read as `i32`), and the frame's size in a `u32`.
pub open spec fn selection_fits(tile_width: u32, tile_height: u32, bounds: (i32, i32, i32, i32), cells: Seq<(i32, i32)>) -> bool {
    let (min_x, min_y, max_x, max_y) = bounds;
    &&& i32::MIN <= min_x * wrapped_i32(tile_width) <= i32::MAX
    &&& i32::MIN <= min_y * wrapped_i32(tile_height) <= i32::MAX
    &&& i32::MIN <= max_x - min_x <= i32::MAX
    &&& i32::MIN <= max_x - min_x + 1 <= i32::MAX
    &&& i32::MIN <= max_y - min_y <= i32::MAX
    &&& i32::MIN <= max_y - min_y + 1 <= i32::MAX
    &&& ((max_x - min_x + 1) as u32) * tile_width <= u32::MAX
    &&& ((max_y - min_y + 1) as u32) * tile_height <= u32::MAX
    &&& forall|i: int| 0 <= i < cells.len() ==> i32::MIN <= #[trigger] cells[i].0 * wrapped_i32(tile_width) <= i32::MAX
        && i32::MIN <= cells[i].1 * wrapped_i32(tile_height) <= i32::MAX
}

/// The selection frame for the cells `cells` (in increasing order) spanning
/// `bounds` = (min_x, min_y, max_x, max_y). A selection that is not a full
/// rectangle also outlines each cell; corner handles show on a selection wider
/// or taller than one cell, and on a rectangle only while no block is carried.
pub fn build_tile_selection_overlay(
    tile_width: u32,
    tile_height: u32,
    bounds: (i32, i32, i32, i32),
    cells: &Vec<(i32, i32)>,
    rectangular: bool,
    preview: bool,
    closing: bool,
    transfer_active: bool,
) -> (o: TileSelectionOverlay)
    requires
        selection_fits(tile_width, tile_height, bounds, cells@),
    ensures
        ({
            let (min_x, min_y, max_x, max_y) = bounds;
            let big = max_x - min_x + 1 > 1 || max_y - min_y + 1 > 1;
            &&& o.preview == preview
            &&& o.closing == closing
            &&& o.irregular == !rectangular
            &&& o.show_handles == (rectangular && !transfer_active && big)
            &&& o.show_irregular_handles == (!rectangular && big)
            &&& o.region_style@ == box_style(
                min_x * wrapped_i32(tile_width),
                min_y * wrapped_i32(tile_height),
                ((max_x - min_x + 1) as u32) * tile_width,
                ((max_y - min_y + 1) as u32) * tile_height,
            )
            &&& o.cell_styles@.map_values(|s: String| s@) == if rectangular {
                Seq::empty()
            } else {
                cells@.map_values(
                    |c: (i32, i32)| box_style(c.0 * wrapped_i32(tile_width), c.1 * wrapped_i32(tile_height), tile_width as int, tile_height as int),
                )
            }
            &&& handles_view(o.handles@) == if o.show_handles || o.show_irregular_handles {
                corner_handles()
            } else {
                Seq::empty()
            }
        }),
{
    let (min_x, min_y, max_x, max_y) = bounds;
    let width_in_cells = max_x - min_x + 1;
    let height_in_cells = max_y - min_y + 1;
    let irregular = !rectangular;
    let big = width_in_cells > 1 || height_in_cells > 1;
    let show_handles = !irregular && !transfer_active && big;
    let show_irregular_handles = irregular && big;
    let region_style = signed_preview_frame_style(tile_width, tile_height, min_x, min_y, max_x, max_y);
    let ghost f = |c: (i32, i32)| box_style(c.0 * wrapped_i32(tile_width), c.1 * wrapped_i32(tile_height), tile_width as int, tile_height as int);
    let mut cell_styles: Vec<String> = Vec::new();
    if irregular {
        let mut i: usize = 0;
        while i < cells.len()
            invariant
                0 <= i <= cells@.len(),
                selection_fits(tile_width, tile_height, bounds, cells@),
                f == (|c: (i32, i32)| box_style(c.0 * wrapped_i32(tile_width), c.1 * wrapped_i32(tile_height), tile_width as int, tile_height as int)),
                cell_styles@.map_values(|s: String| s@) == cells@.take(i as int).map_values(f),
            decreases cells.len() - i,
        {
            let (x, y) = cells[i];
            assert(i32::MIN <= x * wrapped_i32(tile_width) <= i32::MAX && i32::MIN <= y * wrapped_i32(tile_height) <= i32::MAX) by {
                assert(cells@[i as int] == (x, y));
            }
            let style = signed_cell_style(tile_width, tile_height, x, y);
            let ghost before = cell_styles@;
            let ghost seen = style@;
            cell_styles.push(style);
            assert(cell_styles@.map_values(|s: String| s@) =~= before.map_values(|s: String| s@).push(seen));
            assert(cells@.take(i as int + 1).map_values(f) =~= cells@.take(i as int).map_values(f).push(f(cells@[i as int])));
            i += 1;
        }
        assert(cells@.take(i as int) =~= cells@);
    } else {
        assert(cell_styles@.map_values(|s: String| s@) =~= Seq::<Seq<char>>::empty());
    }
    let mut handles: Vec<TileSelectionHandle> = Vec::new();
    if show_handles || show_irregular_handles {
        handles.push(TileSelectionHandle { position: "top-left", style: "left:-11px;top:-11px;" });
        handles.push(TileSelectionHandle { position: "top-right", style: "right:-11px;top:-11px;" });
        handles.push(TileSelectionHandle { position: "bottom-left", style: "left:-11px;bottom:-11px;" });
        handles.push(TileSelectionHandle { position: "bottom-right", style: "right:-11px;bottom:-11px;" });
        assert(handles_view(handles@) =~= corner_handles());
    } else {
        assert(handles_view(handles@) =~= Seq::<(Seq<char>, Seq<char>)>::empty());
    }
    TileSelectionOverlay {
        preview,
        closing,
        irregular,
        region_style,
        cell_styles,
        show_handles,
        show_irregular_handles,
        handles,
    }
}

} // verus!
