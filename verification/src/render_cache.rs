//! The canvas's render caches: what each rebuild records and which script it
//! hands to the web view. Running the scripts, timing the rebuilds and drawing
//! the object layers' SVG are left to the caller.
use vstd::prelude::*;
use std::collections::BTreeMap;
use crate::bounds::{
    active_cache_refresh, cache_bounds_for, flat_object_cache_bounds, fresh_object_cache_is_kept, object_cache_refresh,
    lemma_visible_objects_grow, recorded, tile_cache_refresh, visible_objects, CacheRefresh, VisibleCellBounds,
};
use crate::data_url::{base64_len, base64_standard, create_svg_url};
use crate::document::{GridModel, LayerContent, MapModel, TileMap};
use crate::edit_ops::Tool;
use crate::tiles::{sheet_columns, sheet_fits, sheets_fit, source_x, source_y, sprite_style, sprite_style_text};
use crate::document::{ContentModel, Tileset};
use vstd::arithmetic::div_mod::{lemma_div_is_ordered, lemma_mod_pos_bound, lemma_small_mod};
use vstd::arithmetic::mul::lemma_mul_inequality;
use vstd::string::StringSliceAdditionalSpecFns;
use crate::draw::{
    clear_script, clear_tile_img_js, collect_single_layer_draw_data, collect_tile_draw_data, dims_upto, drawable,
    generate_tile_draw_js, grid_draw, grid_fits, grid_uses, layer_grid, layers_draw, layers_use, tile_draw_script,
};

verus! {

/// The cached renderings of the map and the cells they cover, each as
/// (min_x, max_x, min_y, max_y).
pub struct RenderCaches {
    pub flat_tile_layers_data_url: Option<String>,
    pub flat_tile_layers_cell_bounds: Option<(u32, u32, u32, u32)>,
    pub active_tile_layer_data_url: Option<String>,
    pub active_tile_layer_cell_bounds: Option<(u32, u32, u32, u32)>,
    pub active_tile_layer_cache_dirty: bool,
    pub flat_object_layers_data_url: Option<String>,
    pub flat_object_layers_cell_bounds: Option<(u32, u32, u32, u32)>,
}

/// The text of an optional string.
pub open spec fn opt_text(s: Option<String>) -> Option<Seq<char>> {
    match s {
        Some(t) => Some(t@),
        None => None,
    }
}

/// The map can be drawn, and its size in pixels fits in a `u32`.
pub open spec fn renderable<G>(m: MapModel<G>) -> bool {
    &&& drawable(m)
    &&& m.width * m.tile_width <= u32::MAX
    &&& m.height * m.tile_height <= u32::MAX
}

/// The cells of the whole map, as recorded bounds.
pub open spec fn whole_map<G>(m: MapModel<G>) -> (u32, u32, u32, u32) {
    (0, m.width, 0, m.height)
}

/// The script that draws `data` (using the tilesets `used` marks) into the
/// image element `id`, sized to the whole map.
pub open spec fn map_draw_script<G>(m: MapModel<G>, id: Seq<char>, used: spec_fn(int) -> bool, data: Seq<u32>) -> Seq<char> {
    tile_draw_script(
        id,
        dims_upto(m.tilesets, used, m.tilesets.len() as int),
        data,
        (m.width * m.tile_width) as u32,
        (m.height * m.tile_height) as u32,
        m.tile_width,
        m.tile_height,
    )
}

/// The layer left out of the flat tile cache: the active layer, when it is a
/// tile layer drawn apart from the others.
pub open spec fn excluded_layer<G>(m: MapModel<G>, separated: bool, active_layer: usize) -> Option<usize> {
    if separated && active_layer < m.layers.len() && m.layers[active_layer as int].content is Tiles {
        Some(active_layer)
    } else {
        None
    }
}

/// A rebuild's result: the script to run, and the cache's new data URL and bounds.
pub open spec fn drawn_cache<G>(m: MapModel<G>, id: Seq<char>, used: spec_fn(int) -> bool, data: Seq<u32>) -> (
    Option<Seq<char>>,
    Option<Seq<char>>,
    Option<(u32, u32, u32, u32)>,
) {
    if data.len() == 0 {
        (Some(clear_script(id)), None, None)
    } else {
        (Some(map_draw_script(m, id, used, data)), Some(Seq::empty()), Some(whole_map(m)))
    }
}

/// What rebuilding the flat tile cache gives: nothing without a map; else the
/// drawing of every visible tile layer but the excluded one, or a clearing
/// script when no cell is drawn.
pub open spec fn flat_tile_rebuild<G>(
    map: Option<MapModel<G>>,
    images: Map<usize, String>,
    separated: bool,
    active_layer: usize,
) -> (Option<Seq<char>>, Option<Seq<char>>, Option<(u32, u32, u32, u32)>) {
    match map {
        None => (None, None, None),
        Some(m) => {
            let e = excluded_layer(m, separated, active_layer);
            let n = m.layers.len() as int;
            drawn_cache(m, "taled-fc"@, |k: int| layers_use(m, images, e, n, k), layers_draw(m, images, e, n))
        },
    }
}

fn flat_excluded_layer<G>(map: &TileMap<G>, separated: bool, active_layer: usize) -> (e: Option<usize>)
    ensures
        e == excluded_layer(map@, separated, active_layer),
{
    if !separated {
        return None;
    }
    crate::bounds::active_tile_layer_index(map, active_layer)
}

/// Redraws the cache of the tile layers (all visible ones, less the active
/// layer when it is drawn apart) and answers the script to run.
pub fn rebuild_flat_tile_layer_cache<G>(
    caches: &mut RenderCaches,
    map: Option<&TileMap<G>>,
    image_cache: &BTreeMap<usize, String>,
    separated: bool,
    active_layer: usize,
) -> (script: Option<String>)
    requires
        map matches Some(m) ==> renderable(m@),
    ensures
        (opt_text(script), opt_text(final(caches).flat_tile_layers_data_url), final(caches).flat_tile_layers_cell_bounds)
            == flat_tile_rebuild(
            match map {
                Some(m) => Some(m@),
                None => None,
            },
            image_cache@,
            separated,
            active_layer,
        ),
        final(caches).active_tile_layer_data_url == old(caches).active_tile_layer_data_url,
        final(caches).active_tile_layer_cell_bounds == old(caches).active_tile_layer_cell_bounds,
        final(caches).active_tile_layer_cache_dirty == old(caches).active_tile_layer_cache_dirty,
        final(caches).flat_object_layers_data_url == old(caches).flat_object_layers_data_url,
        final(caches).flat_object_layers_cell_bounds == old(caches).flat_object_layers_cell_bounds,
{
    let map = match map {
        None => {
            caches.flat_tile_layers_data_url = None;
            caches.flat_tile_layers_cell_bounds = None;
            return None;
        },
        Some(m) => m,
    };
    let excluded = flat_excluded_layer(map, separated, active_layer);
    match collect_tile_draw_data(map, image_cache, excluded) {
        None => {
            caches.flat_tile_layers_data_url = None;
            caches.flat_tile_layers_cell_bounds = None;
            Some(clear_tile_img_js("taled-fc"))
        },
        Some(data) => {
            let js = generate_tile_draw_js(
                "taled-fc",
                &data,
                map.total_pixel_width(),
                map.total_pixel_height(),
                map.tile_width,
                map.tile_height,
            );
            caches.flat_tile_layers_data_url = Some(String::new());
            caches.flat_tile_layers_cell_bounds = Some((0, map.width, 0, map.height));
            Some(js)
        },
    }
}

/// What rebuilding the active layer's cache gives: a drawing of the active
/// layer when it is a visible tile layer (a clearing script when none of its
/// cells is drawn), and nothing otherwise.
pub open spec fn active_tile_rebuild<G>(map: Option<MapModel<G>>, images: Map<usize, String>, active_layer: usize) -> (
    Option<Seq<char>>,
    Option<Seq<char>>,
    Option<(u32, u32, u32, u32)>,
) {
    match map {
        None => (None, None, None),
        Some(m) => if active_layer < m.layers.len() && m.layers[active_layer as int].content is Tiles
            && m.layers[active_layer as int].visible {
            let g = layer_grid(m, active_layer as int);
            drawn_cache(m, "taled-ac"@, |k: int| grid_uses(m, images, g, k), grid_draw(m, images, g, g.height as int))
        } else {
            (None, None, None)
        },
    }
}

/// Redraws the cache of the active tile layer and answers the script to run.
pub fn rebuild_active_tile_layer_cache<G>(
    caches: &mut RenderCaches,
    map: Option<&TileMap<G>>,
    image_cache: &BTreeMap<usize, String>,
    active_layer: usize,
) -> (script: Option<String>)
    requires
        map matches Some(m) ==> renderable(m@),
    ensures
        (opt_text(script), opt_text(final(caches).active_tile_layer_data_url), final(caches).active_tile_layer_cell_bounds)
            == active_tile_rebuild(
            match map {
                Some(m) => Some(m@),
                None => None,
            },
            image_cache@,
            active_layer,
        ),
        final(caches).active_tile_layer_cache_dirty == old(caches).active_tile_layer_cache_dirty,
        final(caches).flat_tile_layers_data_url == old(caches).flat_tile_layers_data_url,
        final(caches).flat_tile_layers_cell_bounds == old(caches).flat_tile_layers_cell_bounds,
        final(caches).flat_object_layers_data_url == old(caches).flat_object_layers_data_url,
        final(caches).flat_object_layers_cell_bounds == old(caches).flat_object_layers_cell_bounds,
{
    let map = match map {
        None => {
            caches.active_tile_layer_data_url = None;
            caches.active_tile_layer_cell_bounds = None;
            return None;
        },
        Some(m) => m,
    };
    if active_layer >= map.layers.len() {
        caches.active_tile_layer_data_url = None;
        caches.active_tile_layer_cell_bounds = None;
        return None;
    }
    let layer = &map.layers[active_layer];
    assert(map@.layers[active_layer as int] == layer@);
    let grid = match &layer.content {
        LayerContent::Tiles(g) => g,
        LayerContent::Objects(_) => {
            caches.active_tile_layer_data_url = None;
            caches.active_tile_layer_cell_bounds = None;
            return None;
        },
    };
    if !layer.visible {
        caches.active_tile_layer_data_url = None;
        caches.active_tile_layer_cell_bounds = None;
        return None;
    }
    assert(grid@ == layer_grid(map@, active_layer as int));
    assert(map@.layers[active_layer as int].content is Tiles);
    match collect_single_layer_draw_data(map, image_cache, grid) {
        None => {
            caches.active_tile_layer_data_url = None;
            caches.active_tile_layer_cell_bounds = None;
            Some(clear_tile_img_js("taled-ac"))
        },
        Some(data) => {
            let js = generate_tile_draw_js(
                "taled-ac",
                &data,
                map.total_pixel_width(),
                map.total_pixel_height(),
                map.tile_width,
                map.tile_height,
            );
            caches.active_tile_layer_data_url = Some(String::new());
            caches.active_tile_layer_cell_bounds = Some((0, map.width, 0, map.height));
            Some(js)
        },
    }
}

/// What rebuilding the object cache records: without a map or without an
/// object drawing, nothing; else the drawing as an SVG data URL, covering `bounds`.
pub open spec fn object_rebuild(bounds: Option<VisibleCellBounds>, svg: Option<Seq<u8>>) -> (
    Option<Seq<char>>,
    Option<(u32, u32, u32, u32)>,
) {
    match (bounds, svg) {
        (Some(b), Some(bytes)) => (Some("data:image/svg+xml;base64,"@ + base64_standard(bytes)), Some(recorded(b))),
        _ => (None, None),
    }
}

/// The UTF-8 bytes of an optional text.
pub open spec fn opt_bytes(svg: Option<&str>) -> Option<Seq<u8>> {
    match svg {
        Some(s) => Some(s.spec_bytes()),
        None => None,
    }
}

/// Records the object layers' drawing `svg`, made for the cells `cache_bounds`
/// (absent when no map is open; no drawing when no object is drawn).
pub fn rebuild_flat_object_layer_cache(
    caches: &mut RenderCaches,
    cache_bounds: Option<VisibleCellBounds>,
    svg: Option<&str>,
)
    requires
        svg matches Some(s) ==> base64_len(s.spec_bytes().len()) <= usize::MAX,
    ensures
        (opt_text(final(caches).flat_object_layers_data_url), final(caches).flat_object_layers_cell_bounds)
            == object_rebuild(cache_bounds, opt_bytes(svg)),
        final(caches).flat_tile_layers_data_url == old(caches).flat_tile_layers_data_url,
        final(caches).flat_tile_layers_cell_bounds == old(caches).flat_tile_layers_cell_bounds,
        final(caches).active_tile_layer_data_url == old(caches).active_tile_layer_data_url,
        final(caches).active_tile_layer_cell_bounds == old(caches).active_tile_layer_cell_bounds,
        final(caches).active_tile_layer_cache_dirty == old(caches).active_tile_layer_cache_dirty,
{
    match (cache_bounds, svg) {
        (Some(b), Some(s)) => {
            caches.flat_object_layers_data_url = Some(create_svg_url(s));
            caches.flat_object_layers_cell_bounds = Some((b.min_x, b.max_x, b.min_y, b.max_y));
        },
        _ => {
            caches.flat_object_layers_data_url = None;
            caches.flat_object_layers_cell_bounds = None;
        },
    }
}

/// Records the object layers' drawing as `url`, an object URL that the caller
/// made of the drawing for the cells `cache_bounds` (absent when no map is
/// open; no URL when no object is drawn). Answers the URL it replaces, for
/// the caller to release: none when nothing is recorded.
pub fn record_flat_object_layer_url(
    caches: &mut RenderCaches,
    cache_bounds: Option<VisibleCellBounds>,
    url: Option<String>,
) -> (replaced: Option<String>)
    ensures
        match (cache_bounds, url) {
            (Some(b), Some(u)) => {
                &&& final(caches).flat_object_layers_data_url == Some(u)
                &&& final(caches).flat_object_layers_cell_bounds == Some(recorded(b))
                &&& replaced == old(caches).flat_object_layers_data_url
            },
            _ => {
                &&& final(caches).flat_object_layers_data_url is None
                &&& final(caches).flat_object_layers_cell_bounds is None
                &&& replaced is None
            },
        },
        final(caches).flat_tile_layers_data_url == old(caches).flat_tile_layers_data_url,
        final(caches).flat_tile_layers_cell_bounds == old(caches).flat_tile_layers_cell_bounds,
        final(caches).active_tile_layer_data_url == old(caches).active_tile_layer_data_url,
        final(caches).active_tile_layer_cell_bounds == old(caches).active_tile_layer_cell_bounds,
        final(caches).active_tile_layer_cache_dirty == old(caches).active_tile_layer_cache_dirty,
{
    match (cache_bounds, url) {
        (Some(b), Some(u)) => {
            let replaced = caches.flat_object_layers_data_url.take();
            caches.flat_object_layers_data_url = Some(u);
            caches.flat_object_layers_cell_bounds = Some((b.min_x, b.max_x, b.min_y, b.max_y));
            replaced
        },
        _ => {
            caches.flat_object_layers_data_url = None;
            caches.flat_object_layers_cell_bounds = None;
            None
        },
    }
}

/// Rebuilds the tile layers' cache and, when the active layer is drawn
/// apart, that layer's cache; otherwise the active layer's cache is dropped.
/// Answers the scripts to run, in order. The object cache is left as it was.
pub fn rebuild_tile_layer_caches<G>(
    caches: &mut RenderCaches,
    map: Option<&TileMap<G>>,
    image_cache: &BTreeMap<usize, String>,
    separated: bool,
    active_layer: usize,
) -> (scripts: Vec<String>)
    requires
        map matches Some(m) ==> renderable(m@),
    ensures
        ({
            let m = match map {
                Some(m) => Some(m@),
                None => None,
            };
            let flat = flat_tile_rebuild(m, image_cache@, separated, active_layer);
            let active = active_tile_rebuild(m, image_cache@, active_layer);
            &&& opt_text(final(caches).flat_tile_layers_data_url) == flat.1
            &&& final(caches).flat_tile_layers_cell_bounds == flat.2
            &&& final(caches).flat_object_layers_data_url == old(caches).flat_object_layers_data_url
            &&& final(caches).flat_object_layers_cell_bounds == old(caches).flat_object_layers_cell_bounds
            &&& separated ==> {
                &&& opt_text(final(caches).active_tile_layer_data_url) == active.1
                &&& final(caches).active_tile_layer_cell_bounds == active.2
                &&& final(caches).active_tile_layer_cache_dirty == old(caches).active_tile_layer_cache_dirty
                &&& scripts@.map_values(|s: String| s@) == scripts_of(flat.0, active.0)
            }
            &&& !separated ==> {
                &&& final(caches).active_tile_layer_data_url is None
                &&& final(caches).active_tile_layer_cell_bounds is None
                &&& !final(caches).active_tile_layer_cache_dirty
                &&& scripts@.map_values(|s: String| s@) == scripts_of(flat.0, None)
            }
        }),
{
    let mut scripts: Vec<String> = Vec::new();
    let flat = rebuild_flat_tile_layer_cache(caches, map, image_cache, separated, active_layer);
    let ghost first = opt_text(flat);
    match flat {
        Some(js) => scripts.push(js),
        None => {},
    }
    if separated {
        let active = rebuild_active_tile_layer_cache(caches, map, image_cache, active_layer);
        let ghost second = opt_text(active);
        match active {
            Some(js) => scripts.push(js),
            None => {},
        }
        assert(scripts@.map_values(|s: String| s@) =~= scripts_of(first, second));
    } else {
        caches.active_tile_layer_data_url = None;
        caches.active_tile_layer_cell_bounds = None;
        caches.active_tile_layer_cache_dirty = false;
        assert(scripts@.map_values(|s: String| s@) =~= scripts_of(first, None));
    }
    scripts
}

/// The scripts of two rebuilds, in order, leaving out those that gave none.
pub open spec fn scripts_of(first: Option<Seq<char>>, second: Option<Seq<char>>) -> Seq<Seq<char>> {
    match (first, second) {
        (Some(a), Some(b)) => seq![a, b],
        (Some(a), None) => seq![a],
        (None, Some(b)) => seq![b],
        (None, None) => Seq::empty(),
    }
}

/// Rebuilds every render cache: the tile layers, the object layers (from
/// `object_svg`, drawn for the cells that `flat_object_cache_bounds` picks
/// around `visible`) and, when the active layer is drawn apart, that layer;
/// otherwise its cache is dropped. Answers the scripts to run, in order.
pub fn rebuild_render_caches<G>(
    caches: &mut RenderCaches,
    map: Option<&TileMap<G>>,
    image_cache: &BTreeMap<usize, String>,
    separated: bool,
    active_layer: usize,
    visible: VisibleCellBounds,
    object_svg: Option<&str>,
) -> (scripts: Vec<String>)
    requires
        map matches Some(m) ==> renderable(m@) && visible_objects(m@.layers, m@.layers.len() as int) <= usize::MAX,
        object_svg matches Some(s) ==> base64_len(s.spec_bytes().len()) <= usize::MAX,
    ensures
        ({
            let m = match map {
                Some(m) => Some(m@),
                None => None,
            };
            let flat = flat_tile_rebuild(m, image_cache@, separated, active_layer);
            let active = active_tile_rebuild(m, image_cache@, active_layer);
            let objects = object_rebuild(
                match map {
                    Some(m) => Some(cache_bounds_for(visible, m@)),
                    None => None,
                },
                opt_bytes(object_svg),
            );
            &&& opt_text(final(caches).flat_tile_layers_data_url) == flat.1
            &&& final(caches).flat_tile_layers_cell_bounds == flat.2
            &&& opt_text(final(caches).flat_object_layers_data_url) == objects.0
            &&& final(caches).flat_object_layers_cell_bounds == objects.1
            &&& separated ==> {
                &&& opt_text(final(caches).active_tile_layer_data_url) == active.1
                &&& final(caches).active_tile_layer_cell_bounds == active.2
                &&& final(caches).active_tile_layer_cache_dirty == old(caches).active_tile_layer_cache_dirty
                &&& scripts@.map_values(|s: String| s@) == scripts_of(flat.0, active.0)
            }
            &&& !separated ==> {
                &&& final(caches).active_tile_layer_data_url is None
                &&& final(caches).active_tile_layer_cell_bounds is None
                &&& !final(caches).active_tile_layer_cache_dirty
                &&& scripts@.map_values(|s: String| s@) == scripts_of(flat.0, None)
            }
        }),
{
    let mut scripts: Vec<String> = Vec::new();
    let flat = rebuild_flat_tile_layer_cache(caches, map, image_cache, separated, active_layer);
    let ghost first = opt_text(flat);
    match flat {
        Some(js) => scripts.push(js),
        None => {},
    }
    let object_bounds = match map {
        Some(m) => Some(flat_object_cache_bounds(visible, m)),
        None => None,
    };
    rebuild_flat_object_layer_cache(caches, object_bounds, object_svg);
    if separated {
        let active = rebuild_active_tile_layer_cache(caches, map, image_cache, active_layer);
        let ghost second = opt_text(active);
        match active {
            Some(js) => scripts.push(js),
            None => {},
        }
        assert(scripts@.map_values(|s: String| s@) =~= scripts_of(first, second));
    } else {
        caches.active_tile_layer_data_url = None;
        caches.active_tile_layer_cell_bounds = None;
        caches.active_tile_layer_cache_dirty = false;
        assert(scripts@.map_values(|s: String| s@) =~= scripts_of(first, None));
    }
    scripts
}

/// The sprite drawn live on cell (x, y) of `g`, when the cell holds a tile
/// whose sprite can be drawn.
pub open spec fn cell_sprite<G>(m: MapModel<G>, images: Map<usize, String>, g: GridModel, x: u32, y: u32) -> Seq<
    (u32, u32, Seq<char>),
> {
    let gid = g.tiles[y * g.width + x];
    if gid == 0 {
        Seq::empty()
    } else {
        match sprite_style_text(m, images, gid, x * m.tile_width, y * m.tile_height) {
            Some(t) => seq![(x, y, t)],
            None => Seq::empty(),
        }
    }
}

/// The sprites of the `n` cells of row `y` from column `min_x` on.
pub open spec fn row_sprites<G>(m: MapModel<G>, images: Map<usize, String>, g: GridModel, min_x: u32, y: u32, n: int) -> Seq<
    (u32, u32, Seq<char>),
>
    decreases n,
{
    if n <= 0 {
        Seq::empty()
    } else {
        row_sprites(m, images, g, min_x, y, n - 1) + cell_sprite(m, images, g, (min_x + n - 1) as u32, y)
    }
}

/// The sprites of `n` rows from row `min_y` on, each `width` cells from column `min_x` on.
pub open spec fn area_sprites<G>(
    m: MapModel<G>,
    images: Map<usize, String>,
    g: GridModel,
    min_x: u32,
    width: int,
    min_y: u32,
    n: int,
) -> Seq<(u32, u32, Seq<char>)>
    decreases n,
{
    if n <= 0 {
        Seq::empty()
    } else {
        area_sprites(m, images, g, min_x, width, min_y, n - 1) + row_sprites(m, images, g, min_x, (min_y + n - 1) as u32, width)
    }
}

/// How many cells lie from `min` up to the smaller of `max` and `limit`.
pub open spec fn clipped_span(min: u32, max: u32, limit: u32) -> int {
    let end = if max <= limit { max } else { limit };
    if end > min { end - min } else { 0 }
}

/// The sprites drawn live for the active layer, row by row over the visible
/// cells of the layer: nothing unless the active layer is a visible tile layer.
pub open spec fn visible_tile_sprites<G>(
    m: MapModel<G>,
    images: Map<usize, String>,
    active_layer: usize,
    visible: VisibleCellBounds,
) -> Seq<(u32, u32, Seq<char>)> {
    if active_layer < m.layers.len() && m.layers[active_layer as int].content is Tiles
        && m.layers[active_layer as int].visible {
        let g = layer_grid(m, active_layer as int);
        area_sprites(
            m,
            images,
            g,
            visible.min_x,
            clipped_span(visible.min_x, visible.max_x, g.width),
            visible.min_y,
            clipped_span(visible.min_y, visible.max_y, g.height),
        )
    } else {
        Seq::empty()
    }
}

/// Entry `e` is the sprite of a drawn cell of `g` in columns `min_x..min_x + w`
/// and rows `min_y..min_y + h`: the cell holds a tile, and the style is that
/// tile's sprite at the cell's pixel position.
spec fn sprite_of_cell<G>(
    m: MapModel<G>,
    images: Map<usize, String>,
    g: GridModel,
    min_x: u32,
    w: int,
    min_y: u32,
    h: int,
    e: (u32, u32, Seq<char>),
) -> bool {
    &&& min_x <= e.0 < min_x + w
    &&& min_y <= e.1 < min_y + h
    &&& g.tiles[e.1 * g.width + e.0] != 0
    &&& sprite_style_text(m, images, g.tiles[e.1 * g.width + e.0], e.0 * m.tile_width, e.1 * m.tile_height) == Some(e.2)
}

proof fn lemma_row_sprites_sound<G>(m: MapModel<G>, images: Map<usize, String>, g: GridModel, min_x: u32, y: u32, n: int)
    requires
        0 <= n,
        min_x + n <= u32::MAX + 1,
    ensures
        forall|j: int|
            0 <= j < row_sprites(m, images, g, min_x, y, n).len() ==> sprite_of_cell(
                m,
                images,
                g,
                min_x,
                n,
                y,
                1,
                #[trigger] row_sprites(m, images, g, min_x, y, n)[j],
            ),
    decreases n,
{
    if n > 0 {
        lemma_row_sprites_sound(m, images, g, min_x, y, n - 1);
        let prev = row_sprites(m, images, g, min_x, y, n - 1);
        let x = (min_x + n - 1) as u32;
        let cell = cell_sprite(m, images, g, x, y);
        let row = row_sprites(m, images, g, min_x, y, n);
        assert(row == prev + cell);
        assert forall|j: int| 0 <= j < row.len() implies sprite_of_cell(m, images, g, min_x, n, y, 1, #[trigger] row[j]) by {
            if j < prev.len() {
                assert(row[j] == prev[j]);
                assert(sprite_of_cell(m, images, g, min_x, n - 1, y, 1, prev[j]));
            } else {
                assert(row[j] == cell[0]);
            }
        }
    }
}

proof fn lemma_area_sprites_sound<G>(
    m: MapModel<G>,
    images: Map<usize, String>,
    g: GridModel,
    min_x: u32,
    w: int,
    min_y: u32,
    n: int,
)
    requires
        0 <= w,
        min_x + w <= u32::MAX + 1,
        0 <= n,
        min_y + n <= u32::MAX + 1,
    ensures
        forall|j: int|
            0 <= j < area_sprites(m, images, g, min_x, w, min_y, n).len() ==> sprite_of_cell(
                m,
                images,
                g,
                min_x,
                w,
                min_y,
                n,
                #[trigger] area_sprites(m, images, g, min_x, w, min_y, n)[j],
            ),
    decreases n,
{
    if n > 0 {
        lemma_area_sprites_sound(m, images, g, min_x, w, min_y, n - 1);
        let y = (min_y + n - 1) as u32;
        lemma_row_sprites_sound(m, images, g, min_x, y, w);
        let prev = area_sprites(m, images, g, min_x, w, min_y, n - 1);
        let row = row_sprites(m, images, g, min_x, y, w);
        let all = area_sprites(m, images, g, min_x, w, min_y, n);
        assert(all == prev + row);
        assert forall|j: int| 0 <= j < all.len() implies sprite_of_cell(m, images, g, min_x, w, min_y, n, #[trigger] all[j]) by {
            if j < prev.len() {
                assert(all[j] == prev[j]);
                assert(sprite_of_cell(m, images, g, min_x, w, min_y, n - 1, prev[j]));
            } else {
                assert(all[j] == row[j - prev.len()]);
                assert(sprite_of_cell(m, images, g, min_x, w, y, 1, row[j - prev.len()]));
            }
        }
    }
}

/// Every sprite drawn live for the active layer stands on a visible cell of
/// that layer which holds a tile, and is that tile's sprite at the cell's
/// pixel position (x times the tile width, y times the tile height).
pub proof fn live_sprites_show_their_cells<G>(
    m: MapModel<G>,
    images: Map<usize, String>,
    active_layer: usize,
    visible: VisibleCellBounds,
    j: int,
)
    requires
        0 <= j < visible_tile_sprites(m, images, active_layer, visible).len(),
    ensures
        ({
            let e = visible_tile_sprites(m, images, active_layer, visible)[j];
            let g = layer_grid(m, active_layer as int);
            let gid = g.tiles[e.1 * g.width + e.0];
            &&& active_layer < m.layers.len()
            &&& m.layers[active_layer as int].content is Tiles
            &&& m.layers[active_layer as int].visible
            &&& visible.min_x <= e.0 < visible.max_x
            &&& e.0 < g.width
            &&& visible.min_y <= e.1 < visible.max_y
            &&& e.1 < g.height
            &&& gid != 0
            &&& sprite_style_text(m, images, gid, e.0 * m.tile_width, e.1 * m.tile_height) == Some(e.2)
        }),
{
    let g = layer_grid(m, active_layer as int);
    let w = clipped_span(visible.min_x, visible.max_x, g.width);
    let h = clipped_span(visible.min_y, visible.max_y, g.height);
    lemma_area_sprites_sound(m, images, g, visible.min_x, w, visible.min_y, h);
    let all = area_sprites(m, images, g, visible.min_x, w, visible.min_y, h);
    assert(sprite_of_cell(m, images, g, visible.min_x, w, visible.min_y, h, all[j]));
}

pub open spec fn sprites_view(v: Seq<(u32, u32, String)>) -> Seq<(u32, u32, Seq<char>)> {
    v.map_values(|e: (u32, u32, String)| (e.0, e.1, e.2@))
}

/// The sprites of the active layer's visible cells, drawn live while its
/// cache is not shown.
pub fn collect_visible_tile_styles<G>(
    map: &TileMap<G>,
    image_cache: &BTreeMap<usize, String>,
    active_layer: usize,
    visible: VisibleCellBounds,
) -> (styles: Vec<(u32, u32, String)>)
    requires
        drawable(map@),
    ensures
        sprites_view(styles@) == visible_tile_sprites(map@, image_cache@, active_layer, visible),
{
    let mut styles: Vec<(u32, u32, String)> = Vec::new();
    if active_layer >= map.layers.len() {
        assert(sprites_view(styles@) =~= Seq::<(u32, u32, Seq<char>)>::empty());
        return styles;
    }
    let layer = &map.layers[active_layer];
    assert(map@.layers[active_layer as int] == layer@);
    let grid = match &layer.content {
        LayerContent::Tiles(g) => g,
        LayerContent::Objects(_) => {
            assert(sprites_view(styles@) =~= Seq::<(u32, u32, Seq<char>)>::empty());
            return styles;
        },
    };
    if !layer.visible {
        assert(sprites_view(styles@) =~= Seq::<(u32, u32, Seq<char>)>::empty());
        return styles;
    }
    let ghost m = map@;
    let ghost images = image_cache@;
    let ghost g = grid@;
    assert(g == layer_grid(m, active_layer as int));
    assert(m.layers[active_layer as int].content is Tiles);
    let max_x = if visible.max_x <= grid.width { visible.max_x } else { grid.width };
    let max_y = if visible.max_y <= grid.height { visible.max_y } else { grid.height };
    let ghost width = clipped_span(visible.min_x, visible.max_x, g.width);
    let mut y: u32 = visible.min_y;
    while y < max_y
        invariant
            visible.min_y <= y,
            y <= max_y || y == visible.min_y,
            max_y <= grid.height,
            max_y == (if visible.max_y <= g.height { visible.max_y } else { g.height }),
            max_x <= grid.width,
            max_x == (if visible.max_x <= g.width { visible.max_x } else { g.width }),
            width == clipped_span(visible.min_x, visible.max_x, g.width),
            m == map@,
            images == image_cache@,
            g == grid@,
            drawable(m),
            g == layer_grid(m, active_layer as int),
            active_layer < m.layers.len(),
            m.layers[active_layer as int].content is Tiles,
            sprites_view(styles@) == area_sprites(m, images, g, visible.min_x, width, visible.min_y, y - visible.min_y),
        decreases max_y - y,
    {
        assert(grid.tiles@.len() == grid.width * grid.height);
        assert(grid_fits(m, g));
        let ghost row_start = styles@;
        let mut x: u32 = visible.min_x;
        while x < max_x
            invariant
                visible.min_x <= x,
                x <= max_x || x == visible.min_x,
                y < max_y,
                max_y <= grid.height,
                max_x <= grid.width,
                m == map@,
                images == image_cache@,
                g == grid@,
                drawable(m),
                grid.tiles@.len() == grid.width * grid.height,
                grid_fits(m, g),
                sprites_view(styles@) == sprites_view(row_start) + row_sprites(m, images, g, visible.min_x, y, x - visible.min_x),
            decreases max_x - x,
        {
            let ghost before = styles@;
            let gid = match grid.tile_at(x, y) {
                Some(gid) => gid,
                None => 0,
            };
            assert(gid == g.tiles[y * g.width + x]);
            assert(x * m.tile_width <= u32::MAX);
            assert(y * m.tile_height <= u32::MAX);
            if gid != 0 {
                match sprite_style(map, image_cache, gid, x, y) {
                    Some(style) => {
                        let ghost t = style@;
                        styles.push((x, y, style));
                        assert(sprites_view(styles@) =~= sprites_view(before).push((x, y, t)));
                    },
                    None => {},
                }
            }
            assert(sprites_view(styles@) =~= sprites_view(before) + cell_sprite(m, images, g, x, y));
            assert((visible.min_x + (x + 1 - visible.min_x) - 1) as u32 == x);
            x += 1;
        }
        proof {
            if max_x <= visible.min_x {
                assert(width == 0);
            } else {
                assert(x - visible.min_x == width);
            }
        }
        assert((visible.min_y + (y + 1 - visible.min_y) - 1) as u32 == y);
        assert(area_sprites(m, images, g, visible.min_x, width, visible.min_y, y + 1 - visible.min_y)
            == area_sprites(m, images, g, visible.min_x, width, visible.min_y, y - visible.min_y)
            + row_sprites(m, images, g, visible.min_x, y, width));
        y += 1;
    }
    proof {
        if max_y <= visible.min_y {
            assert(clipped_span(visible.min_y, visible.max_y, g.height) == 0);
        } else {
            assert(y - visible.min_y == clipped_span(visible.min_y, visible.max_y, g.height));
        }
        assert(sprites_view(styles@) == area_sprites(
            m,
            images,
            g,
            visible.min_x,
            clipped_span(visible.min_x, visible.max_x, g.width),
            visible.min_y,
            clipped_span(visible.min_y, visible.max_y, g.height),
        ));
    }
    styles
}

/// Which layers the canvas shows and how.
#[derive(Clone, Copy, PartialEq, Eq, Structural, Debug)]
pub struct CanvasPlan {
    /// Objects are drawn as live overlays that can be tapped.
    pub objects_live: bool,
    /// The cached image of the object layers is shown.
    pub cached_objects: bool,
    /// Object overlays are drawn (live, or for want of a cached image).
    pub object_overlays: bool,
    /// The active layer's tiles are drawn one sprite per cell.
    pub live_active_tiles: bool,
    /// The image of the active layer, drawn apart, is shown.
    pub active_layer_image: bool,
}

/// What the canvas shows: objects are live under the object tools; the cached
/// object image stands in for them otherwise, when there is one; the active
/// layer is drawn cell by cell during a touch edit or while its separate
/// cache is missing.
pub open spec fn plan_for(tool: Tool, touch_edit_batch_active: bool, separated: bool, caches: RenderCaches) -> CanvasPlan {
    let live = tool == Tool::Select || tool == Tool::AddRectangle || tool == Tool::AddPoint;
    let cached = !live && caches.flat_object_layers_data_url is Some;
    CanvasPlan {
        objects_live: live,
        cached_objects: cached,
        object_overlays: live || !cached,
        live_active_tiles: touch_edit_batch_active || (separated && caches.active_tile_layer_data_url is None),
        active_layer_image: separated && !touch_edit_batch_active,
    }
}

/// The canvas's plan for the current tool and caches.
pub fn canvas_plan(tool: Tool, touch_edit_batch_active: bool, separated: bool, caches: &RenderCaches) -> (p: CanvasPlan)
    ensures
        p == plan_for(tool, touch_edit_batch_active, separated, *caches),
{
    let live = match tool {
        Tool::Select | Tool::AddRectangle | Tool::AddPoint => true,
        Tool::Hand | Tool::Paint | Tool::Erase => false,
    };
    let cached = !live && caches.flat_object_layers_data_url.is_some();
    CanvasPlan {
        objects_live: live,
        cached_objects: cached,
        object_overlays: live || !cached,
        live_active_tiles: touch_edit_batch_active || (separated && caches.active_tile_layer_data_url.is_none()),
        active_layer_image: separated && !touch_edit_batch_active,
    }
}

/// The class of the canvas element, marked while the camera glides.
pub fn canvas_class(camera_transition_active: bool) -> (class: &'static str)
    ensures
        class@ == if camera_transition_active { "canvas camera-transition"@ } else { "canvas"@ },
{
    if camera_transition_active {
        "canvas camera-transition"
    } else {
        "canvas"
    }
}

/// The sprites of every cell of layer `i`, tagged with the layer's index:
/// nothing unless it is a visible tile layer.
pub open spec fn layer_sprites<G>(m: MapModel<G>, images: Map<usize, String>, i: int) -> Seq<(usize, u32, u32, Seq<char>)> {
    let g = layer_grid(m, i);
    visible_tile_sprites(m, images, i as usize, VisibleCellBounds { min_x: 0, max_x: g.width, min_y: 0, max_y: g.height })
        .map_values(|e: (u32, u32, Seq<char>)| (i as usize, e.0, e.1, e.2))
}

/// The sprites of the first `n` layers, bottom layer first.
pub open spec fn map_sprites<G>(m: MapModel<G>, images: Map<usize, String>, n: int) -> Seq<(usize, u32, u32, Seq<char>)>
    decreases n,
{
    if n <= 0 {
        Seq::empty()
    } else {
        map_sprites(m, images, n - 1) + layer_sprites(m, images, n - 1)
    }
}

pub open spec fn tagged_sprites_view(v: Seq<(usize, u32, u32, String)>) -> Seq<(usize, u32, u32, Seq<char>)> {
    v.map_values(|e: (usize, u32, u32, String)| (e.0, e.1, e.2, e.3@))
}

/// The sprite of every drawn cell of every visible tile layer, bottom layer
/// first and row by row, with the index of its layer.
pub fn map_tile_sprites<G>(map: &TileMap<G>, image_cache: &BTreeMap<usize, String>) -> (sprites: Vec<(usize, u32, u32, String)>)
    requires
        drawable(map@),
    ensures
        tagged_sprites_view(sprites@) == map_sprites(map@, image_cache@, map@.layers.len() as int),
{
    let mut sprites: Vec<(usize, u32, u32, String)> = Vec::new();
    let mut i: usize = 0;
    while i < map.layers.len()
        invariant
            0 <= i <= map.layers@.len(),
            drawable(map@),
            tagged_sprites_view(sprites@) == map_sprites(map@, image_cache@, i as int),
        decreases map.layers.len() - i,
    {
        let ghost before = sprites@;
        assert(map@.layers[i as int] == map.layers@[i as int]@);
        let (width, height) = match &map.layers[i].content {
            LayerContent::Tiles(g) => (g.width, g.height),
            LayerContent::Objects(_) => (0, 0),
        };
        let whole = VisibleCellBounds { min_x: 0, max_x: width, min_y: 0, max_y: height };
        let ghost g = layer_grid(map@, i as int);
        proof {
            if map@.layers[i as int].content is Tiles {
                assert(width == g.width && height == g.height);
            }
        }
        let styles = collect_visible_tile_styles(map, image_cache, i, whole);
        let ghost got = sprites_view(styles@);
        assert(got =~= visible_tile_sprites(
            map@,
            image_cache@,
            i,
            VisibleCellBounds { min_x: 0, max_x: g.width, min_y: 0, max_y: g.height },
        ));
        let mut j: usize = 0;
        while j < styles.len()
            invariant
                0 <= j <= styles@.len(),
                got == sprites_view(styles@),
                tagged_sprites_view(sprites@) == tagged_sprites_view(before) + got.take(j as int).map_values(
                    |e: (u32, u32, Seq<char>)| (i, e.0, e.1, e.2),
                ),
            decreases styles.len() - j,
        {
            let (x, y, style) = &styles[j];
            let ghost prior = sprites@;
            sprites.push((i, *x, *y, style.clone()));
            assert(tagged_sprites_view(sprites@) =~= tagged_sprites_view(prior).push((i, got[j as int].0, got[j as int].1, got[j as int].2)));
            assert(got.take(j as int + 1).map_values(|e: (u32, u32, Seq<char>)| (i, e.0, e.1, e.2)) =~= got.take(j as int).map_values(
                |e: (u32, u32, Seq<char>)| (i, e.0, e.1, e.2),
            ).push((i, got[j as int].0, got[j as int].1, got[j as int].2)));
            j += 1;
        }
        assert(got.take(j as int) =~= got);
        assert(layer_sprites(map@, image_cache@, i as int) =~= got.map_values(|e: (u32, u32, Seq<char>)| (i, e.0, e.1, e.2)));
        i += 1;
    }
    sprites
}

/// The class of the hit box of cell (x, y), marked when it is the selected cell.
pub fn cell_hitbox_class(selected_cell: Option<(u32, u32)>, x: u32, y: u32) -> (class: &'static str)
    ensures
        class@ == if selected_cell == Some((x, y)) { "cell-hitbox selected"@ } else { "cell-hitbox"@ },
{
    let selected = match selected_cell {
        Some((sx, sy)) => sx == x && sy == y,
        None => false,
    };
    if selected {
        "cell-hitbox selected"
    } else {
        "cell-hitbox"
    }
}

/// A tile cache rebuilt with at least one drawn cell is kept by the next
/// refresh, not drawn again.
pub proof fn rebuilt_tile_cache_is_kept<G>(m: MapModel<G>, images: Map<usize, String>, separated: bool, active_layer: usize)
    requires
        layers_draw(m, images, excluded_layer(m, separated, active_layer), m.layers.len() as int).len() > 0,
    ensures
        tile_cache_refresh(true, flat_tile_rebuild(Some(m), images, separated, active_layer).2) == CacheRefresh::Keep,
{
}

/// The active layer's cache, rebuilt with at least one drawn cell, is kept by
/// the next refresh.
pub proof fn rebuilt_active_cache_is_kept<G>(m: MapModel<G>, images: Map<usize, String>, active_layer: usize)
    requires
        active_layer < m.layers.len(),
        m.layers[active_layer as int].content is Tiles,
        m.layers[active_layer as int].visible,
        ({
            let g = layer_grid(m, active_layer as int);
            grid_draw(m, images, g, g.height as int).len() > 0
        }),
    ensures
        active_cache_refresh(true, true, active_tile_rebuild(Some(m), images, active_layer).2) == CacheRefresh::Keep,
{
}

/// The object cache, rebuilt for the visible cells of the map, is kept by the
/// next refresh while the view stays where it was.
pub proof fn rebuilt_object_cache_is_kept<G>(visible: VisibleCellBounds, m: MapModel<G>, svg: Seq<u8>)
    requires
        visible.min_x <= visible.max_x <= m.width,
        visible.min_y <= visible.max_y <= m.height,
    ensures
        object_cache_refresh(true, object_rebuild(Some(cache_bounds_for(visible, m)), Some(svg)).1, m.width, m.height, visible)
            == CacheRefresh::Keep,
{
    fresh_object_cache_is_kept(visible, m);
}

/// The largest column offset, in tiles, that a tile of `ts` has in its image.
pub open spec fn last_column(ts: Tileset) -> int {
    if ts.tile_count >= sheet_columns(ts) { sheet_columns(ts) - 1 } else { ts.tile_count - 1 }
}

/// The row, in tiles, of the last tile of `ts` in its image.
pub open spec fn last_row(ts: Tileset) -> int {
    (ts.tile_count - 1) / (sheet_columns(ts) as int)
}

/// The tiles of `ts` fit in a `u32` image exactly when its farthest column
/// and its last row do.
proof fn lemma_sheet_fits(ts: Tileset)
    ensures
        sheet_fits(ts) <==> (ts.tile_count == 0 || (last_column(ts) * ts.tile_width <= u32::MAX && last_row(ts)
            * ts.tile_height <= u32::MAX)),
{
    let c = sheet_columns(ts) as int;
    let n = ts.tile_count as int;
    if n > 0 {
        let cx = last_column(ts);
        let cy = last_row(ts);
        if sheet_fits(ts) {
            lemma_small_mod(cx as nat, c as nat);
            assert(source_x(ts, cx as u32) == cx * ts.tile_width);
            assert(source_y(ts, (n - 1) as u32) == cy * ts.tile_height);
        }
        if cx * ts.tile_width <= u32::MAX && cy * ts.tile_height <= u32::MAX {
            assert forall|local: u32| local < ts.tile_count implies #[trigger] source_x(ts, local) <= u32::MAX by {
                lemma_mod_pos_bound(local as int, c);
                if n < c {
                    lemma_small_mod(local as nat, c as nat);
                }
                lemma_mul_inequality(local as int % c, cx, ts.tile_width as int);
            }
            assert forall|local: u32| local < ts.tile_count implies #[trigger] source_y(ts, local) <= u32::MAX by {
                lemma_div_is_ordered(local as int, n - 1, c);
                lemma_mul_inequality(local as int / c, cy, ts.tile_height as int);
            }
        }
    }
}

/// Whether the tiles of `ts` fit in a `u32` image.
fn tileset_fits(ts: &Tileset) -> (ok: bool)
    ensures
        ok == sheet_fits(*ts),
{
    proof { lemma_sheet_fits(*ts); }
    if ts.tile_count == 0 {
        return true;
    }
    let columns = if ts.columns >= 1 { ts.columns } else { 1 };
    let last_column = if ts.tile_count >= columns { columns - 1 } else { ts.tile_count - 1 };
    let last_row = (ts.tile_count - 1) / columns;
    last_column.checked_mul(ts.tile_width).is_some() && last_row.checked_mul(ts.tile_height).is_some()
}

/// Every cell of a `width` by `height` grid has a pixel position that fits in a `u32`.
proof fn lemma_grid_fits<G>(m: MapModel<G>, g: GridModel)
    ensures
        grid_fits(m, g) <==> ((g.width == 0 || (g.width - 1) * m.tile_width <= u32::MAX) && (g.height == 0 || (g.height - 1)
            * m.tile_height <= u32::MAX)),
{
    if g.width > 0 && (g.width - 1) * m.tile_width <= u32::MAX {
        assert forall|x: u32| x < g.width implies #[trigger] (x * m.tile_width) <= u32::MAX by {
            lemma_mul_inequality(x as int, g.width - 1, m.tile_width as int);
        }
    }
    if g.height > 0 && (g.height - 1) * m.tile_height <= u32::MAX {
        assert forall|y: u32| y < g.height implies #[trigger] (y * m.tile_height) <= u32::MAX by {
            lemma_mul_inequality(y as int, g.height - 1, m.tile_height as int);
        }
    }
    if grid_fits(m, g) {
        if g.width > 0 {
            assert(((g.width - 1) as u32) * m.tile_width <= u32::MAX);
        }
        if g.height > 0 {
            assert(((g.height - 1) as u32) * m.tile_height <= u32::MAX);
        }
    }
}

/// The map can be drawn and its caches rebuilt: it is `renderable`, and its
/// visible objects can be counted in a `usize`.
pub open spec fn cacheable<G>(m: MapModel<G>) -> bool {
    &&& renderable(m)
    &&& visible_objects(m.layers, m.layers.len() as int) <= usize::MAX
}

/// Whether the map can be drawn and its caches rebuilt.
pub fn can_render<G>(map: &TileMap<G>) -> (ok: bool)
    ensures
        ok == cacheable(map@),
{
    if map.width.checked_mul(map.tile_width).is_none() || map.height.checked_mul(map.tile_height).is_none() {
        return false;
    }
    let mut k: usize = 0;
    while k < map.tilesets.len()
        invariant
            0 <= k <= map.tilesets@.len(),
            forall|j: int| 0 <= j < k ==> sheet_fits(#[trigger] map.tilesets@[j]),
        decreases map.tilesets.len() - k,
    {
        if !tileset_fits(&map.tilesets[k]) {
            return false;
        }
        k += 1;
    }
    assert(sheets_fit(map@.tilesets));
    let ghost m = map@;
    let mut count: usize = 0;
    let mut i: usize = 0;
    while i < map.layers.len()
        invariant
            0 <= i <= map.layers@.len(),
            m == map@,
            sheets_fit(m.tilesets),
            m.width * m.tile_width <= u32::MAX,
            m.height * m.tile_height <= u32::MAX,
            count == crate::bounds::visible_objects(m.layers, i as int),
            forall|j: int| 0 <= j < i ==> match #[trigger] m.layers[j].content {
                ContentModel::Tiles(g) => g.tiles.len() == g.width * g.height && grid_fits(m, g),
                ContentModel::Objects(_) => true,
            },
        decreases map.layers.len() - i,
    {
        assert(m.layers[i as int] == map.layers@[i as int]@);
        match &map.layers[i].content {
            LayerContent::Tiles(g) => {
                proof {
                    lemma_grid_fits(m, g@);
                    assert(m.layers[i as int].content == ContentModel::<G>::Tiles(g@));
                    assert(layer_grid(m, i as int) == g@);
                    if cacheable(m) {
                        assert(g@.tiles.len() == g@.width * g@.height);
                        assert(grid_fits(m, g@));
                    }
                }
                let len = g.tiles.len();
                let cells = match (g.width as usize).checked_mul(g.height as usize) {
                    Some(n) => n,
                    None => return false,
                };
                if cells != len {
                    return false;
                }
                if g.width > 0 && (g.width - 1).checked_mul(map.tile_width).is_none() {
                    return false;
                }
                if g.height > 0 && (g.height - 1).checked_mul(map.tile_height).is_none() {
                    return false;
                }
            },
            LayerContent::Objects(os) => {
                if map.layers[i].visible {
                    count = match count.checked_add(os.len()) {
                        Some(c) => c,
                        None => {
                            proof { lemma_visible_objects_grow(m.layers, i as int + 1, m.layers.len() as int); }
                            return false;
                        },
                    };
                }
            },
        }
        i += 1;
    }
    assert(crate::edit::map_wf(m));
    assert(drawable(m));
    true
}

} // verus!
