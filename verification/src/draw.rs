//! The data that the canvas draws the tile layers from, and the scripts that
//! draw it.
use vstd::prelude::*;
use std::collections::BTreeMap;
use vstd::std_specs::iter::IteratorSpec;
use crate::document::{ContentModel, GridModel, LayerContent, MapModel, TileGrid, TileMap, Tileset};
use crate::text::{decimal, joined, push_decimal};
use crate::tiles::{sheets_fit, sheet_fits, source_position, source_x, source_y, tile_ref};

verus! {

/// The tileset that cell (x, y) of `g` is drawn from, when the cell holds a
/// tile of a known tileset whose image is loaded.
pub open spec fn cell_tileset<G>(m: MapModel<G>, images: Map<usize, String>, g: GridModel, x: u32, y: u32) -> Option<int> {
    let gid = g.tiles[y * g.width + x];
    if gid == 0 {
        None
    } else {
        match tile_ref(m.tilesets, gid) {
            None => None,
            Some((k, _)) => if images.contains_key(k as usize) { Some(k) } else { None },
        }
    }
}

/// The five numbers that draw cell (x, y) of `g`: the tileset, the tile's
/// position in the tileset image, and the cell's position on the map.
pub open spec fn cell_draw<G>(m: MapModel<G>, images: Map<usize, String>, g: GridModel, x: u32, y: u32) -> Seq<u32> {
    match cell_tileset(m, images, g, x, y) {
        None => Seq::empty(),
        Some(k) => {
            let local = tile_ref(m.tilesets, g.tiles[y * g.width + x]).unwrap().1;
            seq![
                k as u32,
                source_x(m.tilesets[k], local) as u32,
                source_y(m.tilesets[k], local) as u32,
                (x * m.tile_width) as u32,
                (y * m.tile_height) as u32,
            ]
        },
    }
}

/// The draw data of the first `n` cells of row `y`.
pub open spec fn row_draw<G>(m: MapModel<G>, images: Map<usize, String>, g: GridModel, y: u32, n: int) -> Seq<u32>
    decreases n,
{
    if n <= 0 {
        Seq::empty()
    } else {
        row_draw(m, images, g, y, n - 1) + cell_draw(m, images, g, (n - 1) as u32, y)
    }
}

/// The draw data of the first `n` rows of `g`, row by row.
pub open spec fn grid_draw<G>(m: MapModel<G>, images: Map<usize, String>, g: GridModel, n: int) -> Seq<u32>
    decreases n,
{
    if n <= 0 {
        Seq::empty()
    } else {
        grid_draw(m, images, g, n - 1) + row_draw(m, images, g, (n - 1) as u32, g.width as int)
    }
}

/// Cell (x, y) of a grid is drawn, with the five numbers (tileset, source x,
/// source y, map x, map y), exactly when it holds a tile of a tileset whose
/// image is loaded: the tileset is the first holding the id, the source
/// position is the tile's column and row in that tileset times its tile size,
/// and the map position is the cell times the map's tile size.
pub proof fn drawn_cell_numbers<G>(m: MapModel<G>, images: Map<usize, String>, g: GridModel, x: u32, y: u32, k: int)
    requires
        0 <= k < m.tilesets.len(),
        g.tiles[y * g.width + x] != 0,
        m.tilesets[k].first_gid <= g.tiles[y * g.width + x] < m.tilesets[k].first_gid + m.tilesets[k].tile_count,
        forall|j: int|
            0 <= j < k ==> !(#[trigger] m.tilesets[j].first_gid <= g.tiles[y * g.width + x] < m.tilesets[j].first_gid
                + m.tilesets[j].tile_count),
    ensures
        ({
            let ts = m.tilesets[k];
            let local = g.tiles[y * g.width + x] - ts.first_gid;
            let columns = crate::tiles::sheet_columns(ts) as int;
            &&& !images.contains_key(k as usize) ==> cell_draw(m, images, g, x, y).len() == 0
            &&& images.contains_key(k as usize) ==> cell_draw(m, images, g, x, y) == seq![
                k as u32,
                ((local % columns) * ts.tile_width) as u32,
                ((local / columns) * ts.tile_height) as u32,
                (x * m.tile_width) as u32,
                (y * m.tile_height) as u32,
            ]
        }),
{
    let gid = g.tiles[y * g.width + x];
    crate::tiles::gid_points_into_first_holding_tileset(m.tilesets, gid);
    let pred = |j: int| crate::tiles::holds_gid(m.tilesets[j], gid);
    assert forall|j: int| 0 <= j < k implies !#[trigger] pred(j) by {}
    crate::search::lemma_first_match_is(m.tilesets.len() as int, pred, k);
    assert(tile_ref(m.tilesets, gid) == Some((k, (gid - m.tilesets[k].first_gid) as u32)));
}

/// An empty cell, or one whose id no tileset holds, is not drawn.
pub proof fn undrawn_cells<G>(m: MapModel<G>, images: Map<usize, String>, g: GridModel, x: u32, y: u32)
    requires
        g.tiles[y * g.width + x] == 0 || forall|j: int|
            0 <= j < m.tilesets.len() ==> !(#[trigger] m.tilesets[j].first_gid <= g.tiles[y * g.width + x]
                < m.tilesets[j].first_gid + m.tilesets[j].tile_count),
    ensures
        cell_draw(m, images, g, x, y).len() == 0,
{
    let gid = g.tiles[y * g.width + x];
    crate::tiles::gid_points_into_first_holding_tileset(m.tilesets, gid);
}

/// The draw data of a row holds five numbers per drawn cell.
proof fn lemma_row_draw_fives<G>(m: MapModel<G>, images: Map<usize, String>, g: GridModel, y: u32, n: int)
    ensures
        row_draw(m, images, g, y, n).len() % 5 == 0,
    decreases n,
{
    if n > 0 {
        lemma_row_draw_fives(m, images, g, y, n - 1);
    }
}

/// The draw data of a grid holds five numbers per drawn cell.
proof fn lemma_grid_draw_fives<G>(m: MapModel<G>, images: Map<usize, String>, g: GridModel, n: int)
    ensures
        grid_draw(m, images, g, n).len() % 5 == 0,
    decreases n,
{
    if n > 0 {
        lemma_grid_draw_fives(m, images, g, n - 1);
        lemma_row_draw_fives(m, images, g, (n - 1) as u32, g.width as int);
    }
}

/// Some cell of `g` is drawn from tileset `k`.
pub open spec fn grid_uses<G>(m: MapModel<G>, images: Map<usize, String>, g: GridModel, k: int) -> bool {
    exists|x: u32, y: u32| x < g.width && y < g.height && #[trigger] cell_tileset(m, images, g, x, y) == Some(k)
}

/// Every drawn coordinate of `g` fits in a `u32`.
pub open spec fn grid_fits<G>(m: MapModel<G>, g: GridModel) -> bool {
    &&& forall|x: u32| x < g.width ==> #[trigger] (x * m.tile_width) <= u32::MAX
    &&& forall|y: u32| y < g.height ==> #[trigger] (y * m.tile_height) <= u32::MAX
}

/// The draw data and the tilesets it uses, gathered one tile layer at a time.
pub struct DrawAccumulator {
    pub tile_data: Vec<u32>,
    pub used: Vec<bool>,
}

/// Appends the draw data of every cell of `grid` to `acc`, and marks the
/// tilesets those cells are drawn from.
pub fn collect_layer_tile_data<G>(map: &TileMap<G>, image_cache: &BTreeMap<usize, String>, grid: &TileGrid, acc: &mut DrawAccumulator)
    requires
        grid.tiles@.len() == grid.width * grid.height,
        sheets_fit(map.tilesets@),
        grid_fits(map@, grid@),
        old(acc).used@.len() == map.tilesets@.len(),
    ensures
        final(acc).tile_data@ == old(acc).tile_data@ + grid_draw(map@, image_cache@, grid@, grid.height as int),
        final(acc).used@.len() == map.tilesets@.len(),
        forall|k: int| 0 <= k < map.tilesets@.len() ==> #[trigger] final(acc).used@[k] == (old(acc).used@[k] || grid_uses(map@, image_cache@, grid@, k)),
{
    let ghost m = map@;
    let ghost images = image_cache@;
    let ghost g = grid@;
    let ghost start = acc.tile_data@;
    let ghost start_used = acc.used@;
    let mut y: u32 = 0;
    while y < grid.height
        invariant
            0 <= y <= grid.height,
            m == map@,
            images == image_cache@,
            g == grid@,
            grid.tiles@.len() == grid.width * grid.height,
            sheets_fit(map.tilesets@),
            grid_fits(m, g),
            acc.used@.len() == map.tilesets@.len(),
            acc.tile_data@ == start + grid_draw(m, images, g, y as int),
            forall|k: int| 0 <= k < map.tilesets@.len() ==> #[trigger] acc.used@[k] == (start_used[k] || exists|cx: u32, cy: u32|
                cx < g.width && cy < y && #[trigger] cell_tileset(m, images, g, cx, cy) == Some(k)),
        decreases grid.height - y,
    {
        let ghost row_start = acc.tile_data@;
        let ghost used_before = acc.used@;
        let mut x: u32 = 0;
        while x < grid.width
            invariant
                0 <= x <= grid.width,
                y < grid.height,
                m == map@,
                images == image_cache@,
                g == grid@,
                grid.tiles@.len() == grid.width * grid.height,
                sheets_fit(map.tilesets@),
                grid_fits(m, g),
                acc.used@.len() == map.tilesets@.len(),
                acc.tile_data@ == row_start + row_draw(m, images, g, y, x as int),
                forall|k: int| 0 <= k < map.tilesets@.len() ==> #[trigger] acc.used@[k] == (used_before[k] || exists|cx: u32|
                    cx < x && #[trigger] cell_tileset(m, images, g, cx, y) == Some(k)),
            decreases grid.width - x,
        {
            let ghost cell_start = acc.tile_data@;
            let ghost used_now = acc.used@;
            proof { reveal_with_fuel(row_draw, 2); }
            let gid = match grid.tile_at(x, y) {
                Some(gid) => gid,
                None => 0,
            };
            assert(gid == g.tiles[y * g.width + x]);
            let mut drawn = false;
            if gid != 0 {
                if let Some(tile_ref) = map.tile_reference_for_gid(gid) {
                    proof { lemma_keys_ordered(); }
                    if image_cache.contains_key(&tile_ref.tileset_index) {
                        let ts: &Tileset = &map.tilesets[tile_ref.tileset_index];
                        proof {
                            assert(sheet_fits(map.tilesets@[tile_ref.tileset_index as int]));
                            assert(source_x(*ts, tile_ref.local_id) <= u32::MAX);
                            assert(source_y(*ts, tile_ref.local_id) <= u32::MAX);
                            assert(x * m.tile_width <= u32::MAX);
                            assert(y * m.tile_height <= u32::MAX);
                        }
                        let (sx, sy) = source_position(ts, tile_ref.local_id);
                        let dx = x * map.tile_width;
                        let dy = y * map.tile_height;
                        acc.tile_data.push(tile_ref.tileset_index as u32);
                        acc.tile_data.push(sx);
                        acc.tile_data.push(sy);
                        acc.tile_data.push(dx);
                        acc.tile_data.push(dy);
                        acc.used.set(tile_ref.tileset_index, true);
                        drawn = true;
                        assert(cell_tileset(m, images, g, x, y) == Some(tile_ref.tileset_index as int));
                        assert(acc.tile_data@ =~= cell_start + cell_draw(m, images, g, x, y));
                    }
                }
            }
            if !drawn {
                assert(cell_tileset(m, images, g, x, y) is None);
                assert(acc.tile_data@ =~= cell_start + cell_draw(m, images, g, x, y));
            }
            assert forall|k: int| 0 <= k < map.tilesets@.len() implies #[trigger] acc.used@[k] == (used_before[k] || exists|cx: u32|
                cx < x + 1 && #[trigger] cell_tileset(m, images, g, cx, y) == Some(k)) by {
                if cell_tileset(m, images, g, x, y) == Some(k) {
                    assert(acc.used@[k]);
                } else if exists|cx: u32| cx < x + 1 && #[trigger] cell_tileset(m, images, g, cx, y) == Some(k) {
                    let cx = choose|cx: u32| cx < x + 1 && #[trigger] cell_tileset(m, images, g, cx, y) == Some(k);
                    assert(cx < x);
                }
            }
            x += 1;
        }
        assert forall|k: int| 0 <= k < map.tilesets@.len() implies #[trigger] acc.used@[k] == (start_used[k] || exists|cx: u32, cy: u32|
            cx < g.width && cy < y + 1 && #[trigger] cell_tileset(m, images, g, cx, cy) == Some(k)) by {
            if exists|cx: u32| cx < g.width && #[trigger] cell_tileset(m, images, g, cx, y) == Some(k) {
                let cx = choose|cx: u32| cx < g.width && #[trigger] cell_tileset(m, images, g, cx, y) == Some(k);
                assert(cx < g.width && y < y + 1 && cell_tileset(m, images, g, cx, y) == Some(k));
            } else if exists|cx: u32, cy: u32| cx < g.width && cy < y + 1 && #[trigger] cell_tileset(m, images, g, cx, cy) == Some(k) {
                let (cx, cy) = choose|cx: u32, cy: u32| cx < g.width && cy < y + 1 && #[trigger] cell_tileset(m, images, g, cx, cy) == Some(k);
                assert(cy < y);
            }
        }
        y += 1;
    }
}

/// Map keys compare as integers do.
proof fn lemma_keys_ordered()
    ensures
        vstd::laws_cmp::obeys_cmp::<usize>(),
        vstd::std_specs::btree::key_obeys_cmp_spec::<usize>(),
{
}

/// The tileset entries are listed by strictly increasing tileset index, so
/// each tileset appears at most once.
pub open spec fn ascending_dims(dims: Seq<(usize, u32, u32)>) -> bool {
    forall|i: int, j: int| 0 <= i < j < dims.len() ==> #[trigger] dims[i].0 < #[trigger] dims[j].0
}

/// The entries that `dims_upto` lists lie below `n`, by increasing index.
proof fn lemma_dims_ascending(tilesets: Seq<Tileset>, used: spec_fn(int) -> bool, n: int)
    requires
        0 <= n <= usize::MAX + 1,
    ensures
        ascending_dims(dims_upto(tilesets, used, n)),
        forall|i: int| 0 <= i < dims_upto(tilesets, used, n).len() ==> #[trigger] dims_upto(tilesets, used, n)[i].0 < n,
    decreases n,
{
    if n > 0 {
        lemma_dims_ascending(tilesets, used, n - 1);
        let before = dims_upto(tilesets, used, n - 1);
        let now = dims_upto(tilesets, used, n);
        assert forall|i: int| 0 <= i < now.len() implies #[trigger] now[i].0 < n by {
            if i < before.len() {
                assert(now[i] == before[i]);
            }
        }
        assert forall|i: int, j: int| 0 <= i < j < now.len() implies #[trigger] now[i].0 < #[trigger] now[j].0 by {
            assert(now[i] == before[i]);
            if j < before.len() {
                assert(now[j] == before[j]);
            } else {
                assert(now[j].0 == n - 1);
            }
        }
    }
}

/// The tile data of a drawing: five numbers per drawn cell, and the tile size
/// of every tileset the cells come from, by increasing tileset index.
pub struct TileDrawData {
    pub tile_data: Vec<u32>,
    pub ts_dims: Vec<(usize, u32, u32)>,
}

/// Layer `i` is drawn: a visible tile layer other than `excluded`.
pub open spec fn layer_drawn<G>(m: MapModel<G>, i: int, excluded: Option<usize>) -> bool {
    &&& excluded != Some(i as usize)
    &&& m.layers[i].visible
    &&& m.layers[i].content is Tiles
}

pub open spec fn layer_grid<G>(m: MapModel<G>, i: int) -> GridModel {
    match m.layers[i].content {
        ContentModel::Tiles(g) => g,
        ContentModel::Objects(_) => arbitrary(),
    }
}

/// The draw data of the drawn layers among the first `n`, bottom layer first.
pub open spec fn layers_draw<G>(m: MapModel<G>, images: Map<usize, String>, excluded: Option<usize>, n: int) -> Seq<u32>
    decreases n,
{
    if n <= 0 {
        Seq::empty()
    } else {
        layers_draw(m, images, excluded, n - 1) + if layer_drawn(m, n - 1, excluded) {
            let g = layer_grid(m, n - 1);
            grid_draw(m, images, g, g.height as int)
        } else {
            Seq::empty()
        }
    }
}

/// The draw data of the layers is made of five numbers per drawn cell: the
/// tileset, the source position and the position on the map.
pub proof fn draw_data_comes_in_fives<G>(m: MapModel<G>, images: Map<usize, String>, excluded: Option<usize>, n: int)
    ensures
        layers_draw(m, images, excluded, n).len() % 5 == 0,
    decreases n,
{
    if n > 0 {
        draw_data_comes_in_fives(m, images, excluded, n - 1);
        let g = layer_grid(m, n - 1);
        lemma_grid_draw_fives(m, images, g, g.height as int);
    }
}

/// Some drawn layer among the first `n` draws a cell from tileset `k`.
pub open spec fn layers_use<G>(m: MapModel<G>, images: Map<usize, String>, excluded: Option<usize>, n: int, k: int) -> bool {
    exists|i: int| 0 <= i < n && layer_drawn(m, i, excluded) && #[trigger] grid_uses(m, images, layer_grid(m, i), k)
}

/// The tile sizes of the tilesets below `n` that `used` marks, by increasing index.
pub open spec fn dims_upto(tilesets: Seq<Tileset>, used: spec_fn(int) -> bool, n: int) -> Seq<(usize, u32, u32)>
    decreases n,
{
    if n <= 0 {
        Seq::empty()
    } else {
        dims_upto(tilesets, used, n - 1) + if used(n - 1) {
            seq![((n - 1) as usize, tilesets[n - 1].tile_width, tilesets[n - 1].tile_height)]
        } else {
            Seq::empty()
        }
    }
}

proof fn lemma_dims_agree(tilesets: Seq<Tileset>, a: spec_fn(int) -> bool, b: spec_fn(int) -> bool, n: int)
    requires
        forall|k: int| 0 <= k < n ==> #[trigger] a(k) == b(k),
    ensures
        dims_upto(tilesets, a, n) == dims_upto(tilesets, b, n),
    decreases n,
{
    if n > 0 {
        lemma_dims_agree(tilesets, a, b, n - 1);
        assert(a(n - 1) == b(n - 1));
    }
}

/// Every tile layer is sized to its grid and every drawn coordinate fits in a `u32`.
pub open spec fn drawable<G>(m: MapModel<G>) -> bool {
    &&& crate::edit::map_wf(m)
    &&& sheets_fit(m.tilesets)
    &&& forall|i: int| 0 <= i < m.layers.len() && #[trigger] m.layers[i].content is Tiles ==> grid_fits(m, layer_grid(m, i))
}

fn draw_dims(tilesets: &Vec<Tileset>, used: &Vec<bool>) -> (dims: Vec<(usize, u32, u32)>)
    requires
        used@.len() == tilesets@.len(),
    ensures
        dims@ == dims_upto(tilesets@, |k: int| used@[k], tilesets@.len() as int),
        ascending_dims(dims@),
{
    let ghost u = |k: int| used@[k];
    let mut dims: Vec<(usize, u32, u32)> = Vec::new();
    let mut k: usize = 0;
    while k < tilesets.len()
        invariant
            0 <= k <= tilesets@.len(),
            used@.len() == tilesets@.len(),
            u == (|k: int| used@[k]),
            dims@ == dims_upto(tilesets@, u, k as int),
        decreases tilesets.len() - k,
    {
        if used[k] {
            dims.push((k, tilesets[k].tile_width, tilesets[k].tile_height));
        }
        assert(dims@ =~= dims_upto(tilesets@, u, k as int + 1));
        k += 1;
    }
    proof { lemma_dims_ascending(tilesets@, u, tilesets@.len() as int); }
    dims
}

/// The draw data of every visible tile layer but `excluded`, or nothing when
/// no cell is drawn.
pub fn collect_tile_draw_data<G>(map: &TileMap<G>, image_cache: &BTreeMap<usize, String>, excluded_layer_index: Option<usize>) -> (r: Option<TileDrawData>)
    requires
        drawable(map@),
    ensures
        match r {
            None => layers_draw(map@, image_cache@, excluded_layer_index, map@.layers.len() as int).len() == 0,
            Some(d) => {
                &&& d.tile_data@ == layers_draw(map@, image_cache@, excluded_layer_index, map@.layers.len() as int)
                &&& d.tile_data@.len() > 0
                &&& ascending_dims(d.ts_dims@)
                &&& d.ts_dims@ == dims_upto(
                    map@.tilesets,
                    |k: int| layers_use(map@, image_cache@, excluded_layer_index, map@.layers.len() as int, k),
                    map@.tilesets.len() as int,
                )
            },
        },
{
    let ghost m = map@;
    let ghost images = image_cache@;
    let mut used: Vec<bool> = Vec::new();
    let mut k: usize = 0;
    while k < map.tilesets.len()
        invariant
            0 <= k <= map.tilesets@.len(),
            used@.len() == k,
            forall|j: int| 0 <= j < k ==> !#[trigger] used@[j],
        decreases map.tilesets.len() - k,
    {
        used.push(false);
        k += 1;
    }
    let mut acc = DrawAccumulator { tile_data: Vec::new(), used };
    let mut i: usize = 0;
    while i < map.layers.len()
        invariant
            0 <= i <= map.layers@.len(),
            m == map@,
            images == image_cache@,
            drawable(m),
            acc.used@.len() == map.tilesets@.len(),
            acc.tile_data@ == layers_draw(m, images, excluded_layer_index, i as int),
            forall|k: int| 0 <= k < map.tilesets@.len() ==> #[trigger] acc.used@[k] == layers_use(m, images, excluded_layer_index, i as int, k),
        decreases map.layers.len() - i,
    {
        assert(m.layers[i as int] == map.layers@[i as int]@);
        let skip = match excluded_layer_index {
            Some(e) => e == i,
            None => false,
        };
        let ghost before_used = acc.used@;
        if !skip && map.layers[i].visible {
            if let LayerContent::Tiles(grid) = &map.layers[i].content {
                assert(grid@ == layer_grid(m, i as int));
                assert(grid_fits(m, layer_grid(m, i as int)));
                collect_layer_tile_data(map, image_cache, grid, &mut acc);
            }
        }
        assert forall|k: int| 0 <= k < map.tilesets@.len() implies #[trigger] acc.used@[k] == layers_use(m, images, excluded_layer_index, i as int + 1, k) by {
            if layers_use(m, images, excluded_layer_index, i as int + 1, k) && !layers_use(m, images, excluded_layer_index, i as int, k) {
                let w = choose|w: int| 0 <= w < i + 1 && layer_drawn(m, w, excluded_layer_index) && #[trigger] grid_uses(m, images, layer_grid(m, w), k);
                assert(w == i);
            }
        }
        i += 1;
    }
    if acc.tile_data.len() == 0 {
        return None;
    }
    let ghost used_view = acc.used@;
    let ts_dims = draw_dims(&map.tilesets, &acc.used);
    proof {
        lemma_dims_agree(
            m.tilesets,
            |k: int| used_view[k],
            |k: int| layers_use(m, images, excluded_layer_index, m.layers.len() as int, k),
            m.tilesets.len() as int,
        );
    }
    Some(TileDrawData { tile_data: acc.tile_data, ts_dims })
}

/// The draw data of one tile layer, or nothing when no cell is drawn.
pub fn collect_single_layer_draw_data<G>(map: &TileMap<G>, image_cache: &BTreeMap<usize, String>, grid: &TileGrid) -> (r: Option<TileDrawData>)
    requires
        grid.tiles@.len() == grid.width * grid.height,
        sheets_fit(map.tilesets@),
        grid_fits(map@, grid@),
    ensures
        match r {
            None => grid_draw(map@, image_cache@, grid@, grid.height as int).len() == 0,
            Some(d) => {
                &&& d.tile_data@ == grid_draw(map@, image_cache@, grid@, grid.height as int)
                &&& d.tile_data@.len() > 0
                &&& ascending_dims(d.ts_dims@)
                &&& d.ts_dims@ == dims_upto(map@.tilesets, |k: int| grid_uses(map@, image_cache@, grid@, k), map@.tilesets.len() as int)
            },
        },
{
    let mut used: Vec<bool> = Vec::new();
    let mut k: usize = 0;
    while k < map.tilesets.len()
        invariant
            0 <= k <= map.tilesets@.len(),
            used@.len() == k,
            forall|j: int| 0 <= j < k ==> !#[trigger] used@[j],
        decreases map.tilesets.len() - k,
    {
        used.push(false);
        k += 1;
    }
    let mut acc = DrawAccumulator { tile_data: Vec::new(), used };
    collect_layer_tile_data(map, image_cache, grid, &mut acc);
    assert(acc.tile_data@ =~= grid_draw(map@, image_cache@, grid@, grid.height as int));
    if acc.tile_data.len() == 0 {
        return None;
    }
    let ghost used_view = acc.used@;
    let ts_dims = draw_dims(&map.tilesets, &acc.used);
    proof {
        lemma_dims_agree(
            map@.tilesets,
            |k: int| used_view[k],
            |k: int| grid_uses(map@, image_cache@, grid@, k),
            map@.tilesets.len() as int,
        );
    }
    Some(TileDrawData { tile_data: acc.tile_data, ts_dims })
}

/// Numbers written in decimal, separated by commas.
pub open spec fn numbers_text(data: Seq<u32>) -> Seq<char> {
    joined(data.map_values(|v: u32| decimal(v as nat)), ","@)
}

/// One tileset's entry in a drawing script: `index:[width,height]`.
pub open spec fn dims_entry(d: (usize, u32, u32)) -> Seq<char> {
    decimal(d.0 as nat) + ":["@ + decimal(d.1 as nat) + ","@ + decimal(d.2 as nat) + "]"@
}

/// The tileset entries of a drawing script, separated by commas.
pub open spec fn dims_text(dims: Seq<(usize, u32, u32)>) -> Seq<char> {
    joined(dims.map_values(|d: (usize, u32, u32)| dims_entry(d)), ","@)
}

fn numbers_string(data: &Vec<u32>) -> (s: String)
    ensures
        s@ == numbers_text(data@),
{
    let mut s = String::new();
    let mut i: usize = 0;
    let ghost f = |v: u32| decimal(v as nat);
    while i < data.len()
        invariant
            0 <= i <= data@.len(),
            f == (|v: u32| decimal(v as nat)),
            s@ == joined(data@.take(i as int).map_values(f), ","@),
        decreases data.len() - i,
    {
        let ghost taken = data@.take(i as int + 1).map_values(f);
        assert(taken.drop_last() =~= data@.take(i as int).map_values(f));
        if i > 0 {
            s.append(",");
        }
        push_decimal(&mut s, data[i] as u128);
        proof {
            if i == 0 {
                assert(s@ =~= taken[0]);
            }
        }
        i += 1;
    }
    assert(data@.take(i as int) =~= data@);
    s
}

fn dims_string(dims: &Vec<(usize, u32, u32)>) -> (s: String)
    ensures
        s@ == dims_text(dims@),
{
    let mut s = String::new();
    let mut i: usize = 0;
    let ghost f = |d: (usize, u32, u32)| dims_entry(d);
    while i < dims.len()
        invariant
            0 <= i <= dims@.len(),
            f == (|d: (usize, u32, u32)| dims_entry(d)),
            s@ == joined(dims@.take(i as int).map_values(f), ","@),
        decreases dims.len() - i,
    {
        let ghost taken = dims@.take(i as int + 1).map_values(f);
        assert(taken.drop_last() =~= dims@.take(i as int).map_values(f));
        let ghost before = s@;
        if i > 0 {
            s.append(",");
        }
        let ghost sep = s@;
        let (index, width, height) = dims[i];
        push_decimal(&mut s, index as u128);
        s.append(":[");
        push_decimal(&mut s, width as u128);
        s.append(",");
        push_decimal(&mut s, height as u128);
        s.append("]");
        assert(s@ =~= sep + dims_entry(dims@[i as int]));
        proof {
            if i == 0 {
                assert(s@ =~= taken[0]);
            }
        }
        i += 1;
    }
    assert(dims@.take(i as int) =~= dims@);
    s
}

/// The script that draws the tiles of `data` into an offscreen canvas the
/// size of the map and shows the result in the image element `img_id`.
pub open spec fn tile_draw_script(
    img_id: Seq<char>,
    dims: Seq<(usize, u32, u32)>,
    data: Seq<u32>,
    map_width_px: u32,
    map_height_px: u32,
    tile_width: u32,
    tile_height: u32,
) -> Seq<char> {
    "requestAnimationFrame(function _td(){var ts=window._taledTs;if(!ts)return;var sd={"@ + dims_text(dims)
        + "};for(var k in sd){if(!ts[k]||!ts[k].complete){setTimeout(_td,50);return}}var c=document.createElement('canvas');c.width="@
        + decimal(map_width_px as nat) + ";c.height="@ + decimal(map_height_px as nat)
        + ";var x=c.getContext('2d');x.imageSmoothingEnabled=false;var d=["@ + numbers_text(data) + "];var dw="@
        + decimal(tile_width as nat) + ",dh="@ + decimal(tile_height as nat)
        + ";for(var i=0;i<d.length;i+=5){var s=sd[d[i]];x.drawImage(ts[d[i]],d[i+1],d[i+2],s[0],s[1],d[i+3],d[i+4],dw,dh)}c.toBlob(function(b){var el=document.getElementById('"@
        + img_id
        + "');if(!el)return;var old=el.dataset.blobUrl;if(old)URL.revokeObjectURL(old);var u=URL.createObjectURL(b);el.dataset.blobUrl=u;el.src=u})})"@
}

/// The drawing script draws every tile at the map's tile size: it sets `dw`
/// to the tile width and `dh` to the tile height, in decimal.
pub proof fn draw_script_uses_map_tile_size(
    img_id: Seq<char>,
    dims: Seq<(usize, u32, u32)>,
    data: Seq<u32>,
    map_width_px: u32,
    map_height_px: u32,
    tile_width: u32,
    tile_height: u32,
)
    ensures
        exists|p: Seq<char>, q: Seq<char>|
            tile_draw_script(img_id, dims, data, map_width_px, map_height_px, tile_width, tile_height) == p + ("var dw="@
                + decimal(tile_width as nat) + ",dh="@ + decimal(tile_height as nat) + ";"@) + q,
{
    reveal_strlit("];var dw=");
    reveal_strlit("];");
    reveal_strlit("var dw=");
    reveal_strlit(";");
    reveal_strlit(";for(var i=0;i<d.length;i+=5){var s=sd[d[i]];x.drawImage(ts[d[i]],d[i+1],d[i+2],s[0],s[1],d[i+3],d[i+4],dw,dh)}c.toBlob(function(b){var el=document.getElementById('");
    let l = ";for(var i=0;i<d.length;i+=5){var s=sd[d[i]];x.drawImage(ts[d[i]],d[i+1],d[i+2],s[0],s[1],d[i+3],d[i+4],dw,dh)}c.toBlob(function(b){var el=document.getElementById('"@;
    let p = "requestAnimationFrame(function _td(){var ts=window._taledTs;if(!ts)return;var sd={"@ + dims_text(dims) + "};for(var k in sd){if(!ts[k]||!ts[k].complete){setTimeout(_td,50);return}}var c=document.createElement('canvas');c.width="@ + decimal(map_width_px as nat) + ";c.height="@ + decimal(map_height_px as nat)
        + ";var x=c.getContext('2d');x.imageSmoothingEnabled=false;var d=["@ + numbers_text(data) + "];"@;
    let q = l.subrange(1, l.len() as int) + img_id + "');if(!el)return;var old=el.dataset.blobUrl;if(old)URL.revokeObjectURL(old);var u=URL.createObjectURL(b);el.dataset.blobUrl=u;el.src=u})})"@;
    assert("];var dw="@ =~= "];"@ + "var dw="@);
    assert(l =~= ";"@ + l.subrange(1, l.len() as int));
    assert(tile_draw_script(img_id, dims, data, map_width_px, map_height_px, tile_width, tile_height) =~= p + ("var dw="@
        + decimal(tile_width as nat) + ",dh="@ + decimal(tile_height as nat) + ";"@) + q);
}

/// The drawing script for `draw_data`.
pub fn generate_tile_draw_js(
    img_id: &str,
    draw_data: &TileDrawData,
    map_width_px: u32,
    map_height_px: u32,
    map_tile_width: u32,
    map_tile_height: u32,
) -> (js: String)
    requires
        ascending_dims(draw_data.ts_dims@),
    ensures
        js@ == tile_draw_script(
            img_id@,
            draw_data.ts_dims@,
            draw_data.tile_data@,
            map_width_px,
            map_height_px,
            map_tile_width,
            map_tile_height,
        ),
{
    let data = numbers_string(&draw_data.tile_data);
    let dims = dims_string(&draw_data.ts_dims);
    let mut js = "requestAnimationFrame(function _td(){var ts=window._taledTs;if(!ts)return;var sd={".to_string();
    js.append(dims.as_str());
    js.append("};for(var k in sd){if(!ts[k]||!ts[k].complete){setTimeout(_td,50);return}}var c=document.createElement('canvas');c.width=");
    push_decimal(&mut js, map_width_px as u128);
    js.append(";c.height=");
    push_decimal(&mut js, map_height_px as u128);
    js.append(";var x=c.getContext('2d');x.imageSmoothingEnabled=false;var d=[");
    js.append(data.as_str());
    js.append("];var dw=");
    push_decimal(&mut js, map_tile_width as u128);
    js.append(",dh=");
    push_decimal(&mut js, map_tile_height as u128);
    js.append(";for(var i=0;i<d.length;i+=5){var s=sd[d[i]];x.drawImage(ts[d[i]],d[i+1],d[i+2],s[0],s[1],d[i+3],d[i+4],dw,dh)}c.toBlob(function(b){var el=document.getElementById('");
    js.append(img_id);
    js.append("');if(!el)return;var old=el.dataset.blobUrl;if(old)URL.revokeObjectURL(old);var u=URL.createObjectURL(b);el.dataset.blobUrl=u;el.src=u})})");
    js
}

/// The script that empties the image element `id` and frees its blob.
pub open spec fn clear_script(id: Seq<char>) -> Seq<char> {
    "requestAnimationFrame(function(){var el=document.getElementById('"@ + id
        + "');if(!el)return;var old=el.dataset.blobUrl;if(old)URL.revokeObjectURL(old);el.removeAttribute('src');el.dataset.blobUrl=''})"@
}

/// The script that empties the image element `id`.
pub fn clear_tile_img_js(id: &str) -> (js: String)
    ensures
        js@ == clear_script(id@),
{
    let mut js = "requestAnimationFrame(function(){var el=document.getElementById('".to_string();
    js.append(id);
    js.append("');if(!el)return;var old=el.dataset.blobUrl;if(old)URL.revokeObjectURL(old);el.removeAttribute('src');el.dataset.blobUrl=''})");
    js
}

/// The statements that start loading one tileset image.
pub open spec fn preload_entry(index: usize, uri: Seq<char>) -> Seq<char> {
    "window._taledTs["@ + decimal(index as nat) + "]=new Image();window._taledTs["@ + decimal(index as nat) + "].src=\""@ + uri
        + "\";"@
}

/// The loading statements of the first `n` images of a run.
pub open spec fn preload_entries(entries: Seq<(&usize, &String)>, n: int) -> Seq<char>
    decreases n,
{
    if n <= 0 {
        Seq::empty()
    } else {
        preload_entries(entries, n - 1) + preload_entry(*entries[n - 1].0, entries[n - 1].1@)
    }
}

/// The script that starts loading every tileset image of the cache, in
/// increasing tileset order, into `window._taledTs`.
pub fn preload_tileset_images_js(image_cache: &BTreeMap<usize, String>) -> (js: String)
    ensures
        js@ == "window._taledTs={};"@ + preload_entries(
            image_cache.iter().remaining(),
            image_cache.iter().remaining().len() as int,
        ),
{
    let mut js = "window._taledTs={};".to_string();
    let ghost prefix = js@;
    proof { lemma_keys_ordered(); }
    for entry in it: image_cache.iter()
        invariant
            js@ == prefix + preload_entries(it.seq(), it.index() as int),
    {
        let (index, data_uri) = entry;
        let ghost before = js@;
        js.append("window._taledTs[");
        push_decimal(&mut js, *index as u128);
        js.append("]=new Image();window._taledTs[");
        push_decimal(&mut js, *index as u128);
        js.append("].src=\"");
        js.append(data_uri.as_str());
        js.append("\";");
    }
    js
}

} // verus!
