//! The tileset screen: the first tileset's sheet laid out in rows of cells,
//! the selected tile, and the tile summary of the mobile editor.
use vstd::prelude::*;
use crate::document::TileMap;
use crate::text::{decimal, push_decimal};
use crate::tiles::tile_ref;

verus! {

/// What the tileset screen shows of the map's first tileset.
pub struct SheetInfo {
    pub columns: u32,
    pub tile_count: u32,
    pub first_gid: u32,
    pub tile_width: u32,
    pub tile_height: u32,
    pub name: String,
}

/// The first tileset's layout (at least one column), or, without a tileset,
/// one column of no tiles of 16 by 16 pixels starting at global id 1.
pub fn sheet_info<G>(map: &TileMap<G>) -> (info: SheetInfo)
    ensures
        map.tilesets@.len() == 0 ==> info.columns == 1 && info.tile_count == 0 && info.first_gid == 1
            && info.tile_width == 16 && info.tile_height == 16 && info.name@.len() == 0,
        map.tilesets@.len() > 0 ==> {
            let ts = map.tilesets@[0];
            &&& info.columns == if ts.columns >= 1 { ts.columns } else { 1 }
            &&& info.tile_count == ts.tile_count
            &&& info.first_gid == ts.first_gid
            &&& info.tile_width == ts.tile_width
            &&& info.tile_height == ts.tile_height
            &&& info.name@ == ts.name@
        },
{
    if map.tilesets.len() == 0 {
        return SheetInfo { columns: 1, tile_count: 0, first_gid: 1, tile_width: 16, tile_height: 16, name: String::new() };
    }
    let ts = &map.tilesets[0];
    SheetInfo {
        columns: if ts.columns >= 1 { ts.columns } else { 1 },
        tile_count: ts.tile_count,
        first_gid: ts.first_gid,
        tile_width: ts.tile_width,
        tile_height: ts.tile_height,
        name: ts.name.clone(),
    }
}

/// The number of rows the sheet's tiles fill.
pub fn sheet_rows(columns: u32, tile_count: u32) -> (rows: u32)
    requires
        columns >= 1,
    ensures
        rows == (tile_count + columns - 1) / (columns as int),
{
    let rows = tile_count / columns;
    if tile_count % columns == 0 {
        assert(rows == (tile_count + columns - 1) / (columns as int)) by (nonlinear_arith)
            requires
                columns >= 1,
                rows == tile_count / columns,
                tile_count % columns == 0,
        ;
        rows
    } else {
        assert(rows + 1 == (tile_count + columns - 1) / (columns as int) && rows < u32::MAX) by (nonlinear_arith)
            requires
                columns >= 1,
                rows == tile_count / columns,
                tile_count % columns != 0,
                tile_count <= u32::MAX,
        {
            assert(columns >= 2);
            assert(rows * columns <= tile_count);
            assert(rows * 2 <= rows * columns);
        }
        rows + 1
    }
}

/// The key under which a sheet's zoom is remembered.
pub fn sheet_zoom_key(columns: u32, tile_width: u32) -> (key: u32)
    requires
        columns * 10000 + tile_width <= u32::MAX,
    ensures
        key == columns * 10000 + tile_width,
{
    columns * 10000 + tile_width
}

/// The global ids shown in sheet row `row`: the row's cells that hold a tile.
pub fn sheet_row_gids(row: u32, columns: u32, tile_count: u32, first_gid: u32) -> (gids: Vec<u32>)
    requires
        row * columns <= u32::MAX,
        first_gid + tile_count <= u32::MAX + 1,
    ensures
        gids@.len() == if row * columns >= tile_count {
            0
        } else if tile_count - row * columns >= columns {
            columns as int
        } else {
            tile_count - row * columns
        },
        forall|i: int| 0 <= i < gids@.len() ==> #[trigger] gids@[i] == first_gid + row * columns + i,
{
    let start = row * columns;
    let available = if start >= tile_count {
        0
    } else if tile_count - start >= columns {
        columns
    } else {
        tile_count - start
    };
    let mut gids: Vec<u32> = Vec::new();
    let mut col: u32 = 0;
    while col < available
        invariant
            0 <= col <= available,
            start == row * columns,
            available <= columns,
            start + available <= tile_count || available == 0,
            first_gid + tile_count <= u32::MAX + 1,
            gids@.len() == col,
            forall|i: int| 0 <= i < gids@.len() ==> #[trigger] gids@[i] == first_gid + row * columns + i,
        decreases available - col,
    {
        gids.push(first_gid + start + col);
        col += 1;
    }
    gids
}

/// The selected tile's id inside the first tileset (0 below it).
pub fn selected_local_id(selected_gid: u32, first_gid: u32) -> (local: u32)
    ensures
        local == if selected_gid >= first_gid { selected_gid - first_gid } else { 0 },
{
    selected_gid.saturating_sub(first_gid)
}

/// The pixel position of tile `local_id` in a sheet of `columns` columns.
pub fn tile_origin(local_id: u32, columns: u32, tile_width: u32, tile_height: u32) -> (p: (u32, u32))
    requires
        columns >= 1,
        (local_id % columns) * tile_width <= u32::MAX,
        (local_id / columns) * tile_height <= u32::MAX,
    ensures
        p.0 == (local_id % columns) * tile_width,
        p.1 == (local_id / columns) * tile_height,
{
    ((local_id % columns) * tile_width, (local_id / columns) * tile_height)
}

/// The line describing the selected tile.
pub open spec fn tile_summary_text<G>(map: crate::document::MapModel<G>, gid: u32) -> Seq<char> {
    match tile_ref(map.tilesets, gid) {
        Some((k, _)) => "Tile ID "@ + decimal(gid as nat) + " from "@ + map.tilesets[k].name@,
        None => "Choose a tile from the sheet below."@,
    }
}

/// The line describing the selected tile: its id and tileset, or a prompt to choose one.
pub fn selected_tile_summary<G>(map: &TileMap<G>, selected_gid: u32) -> (s: String)
    ensures
        s@ == tile_summary_text(map@, selected_gid),
{
    match map.tile_reference_for_gid(selected_gid) {
        Some(reference) => {
            let mut s = "Tile ID ".to_string();
            push_decimal(&mut s, selected_gid as u128);
            s.append(" from ");
            s.append(map.tilesets[reference.tileset_index].name.as_str());
            s
        },
        None => "Choose a tile from the sheet below.".to_string(),
    }
}

} // verus!
