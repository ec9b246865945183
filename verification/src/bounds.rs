//! Which part of the map the canvas draws and caches, and when the render
//! caches are rebuilt.
use vstd::prelude::*;
use crate::document::{ContentModel, LayerContent, LayerModel, MapModel, TileMap};

verus! {

/// A range of map cells: columns `min_x..max_x` and rows `min_y..max_y`.
#[derive(Clone, Copy, PartialEq, Eq, Structural, Debug)]
pub struct VisibleCellBounds {
    pub min_x: u32,
    pub max_x: u32,
    pub min_y: u32,
    pub max_y: u32,
}

/// How many cells the object cache reaches beyond the visible ones.
pub const CACHE_MARGIN_TILES: u32 = 8;

/// The largest map side, in pixels, drawn into a single object cache.
pub const MAX_FULL_CACHE_AXIS_PX: u32 = 4096;

/// The most objects drawn into a single object cache.
pub const MAX_FULL_CACHE_OBJECTS: usize = 2000;

pub open spec fn sat_sub(a: u32, b: u32) -> u32 {
    if a >= b { (a - b) as u32 } else { 0 }
}

pub open spec fn sat_add(a: u32, b: u32) -> u32 {
    if a + b <= u32::MAX { (a + b) as u32 } else { u32::MAX }
}

pub open spec fn min_u32(a: u32, b: u32) -> u32 {
    if a <= b { a } else { b }
}

/// The visible cells widened by `CACHE_MARGIN_TILES` on every side, clipped to the map.
pub fn expanded_visible_cell_bounds(visible: VisibleCellBounds, map_width: u32, map_height: u32) -> (b: VisibleCellBounds)
    ensures
        b == expanded_bounds(visible, map_width, map_height),
{
    let max_x = visible.max_x.saturating_add(CACHE_MARGIN_TILES);
    let max_y = visible.max_y.saturating_add(CACHE_MARGIN_TILES);
    VisibleCellBounds {
        min_x: visible.min_x.saturating_sub(CACHE_MARGIN_TILES),
        max_x: if max_x <= map_width { max_x } else { map_width },
        min_y: visible.min_y.saturating_sub(CACHE_MARGIN_TILES),
        max_y: if max_y <= map_height { max_y } else { map_height },
    }
}

/// Every cell of a map of `map_width` by `map_height` cells.
pub fn full_map_cell_bounds(map_width: u32, map_height: u32) -> (b: VisibleCellBounds)
    ensures
        b == (VisibleCellBounds { min_x: 0, max_x: map_width, min_y: 0, max_y: map_height }),
{
    VisibleCellBounds { min_x: 0, max_x: map_width, min_y: 0, max_y: map_height }
}

/// The number of objects on the visible object layers among the first `n` layers.
pub open spec fn visible_objects<G>(layers: Seq<LayerModel<G>>, n: int) -> int
    decreases n,
{
    if n <= 0 {
        0
    } else {
        visible_objects(layers, n - 1) + match layers[n - 1].content {
            ContentModel::Objects(os) => if layers[n - 1].visible { os.len() as int } else { 0 },
            ContentModel::Tiles(_) => 0,
        }
    }
}

/// The number of objects on the map's visible object layers.
pub fn visible_object_count<G>(map: &TileMap<G>) -> (count: usize)
    requires
        visible_objects(map@.layers, map@.layers.len() as int) <= usize::MAX,
    ensures
        count == visible_objects(map@.layers, map@.layers.len() as int),
{
    let mut count: usize = 0;
    let mut i: usize = 0;
    while i < map.layers.len()
        invariant
            0 <= i <= map.layers.len(),
            count == visible_objects(map@.layers, i as int),
            visible_objects(map@.layers, map@.layers.len() as int) <= usize::MAX,
        decreases map.layers.len() - i,
    {
        proof { lemma_visible_objects_grow(map@.layers, i as int + 1, map@.layers.len() as int); }
        assert(map@.layers[i as int] == map.layers@[i as int]@);
        match &map.layers[i].content {
            LayerContent::Objects(os) => {
                if map.layers[i].visible {
                    count = count + os.len();
                }
            },
            LayerContent::Tiles(_) => {},
        }
        i += 1;
    }
    count
}

pub proof fn lemma_visible_objects_grow<G>(layers: Seq<LayerModel<G>>, a: int, b: int)
    requires
        0 <= a <= b,
    ensures
        0 <= visible_objects(layers, a) <= visible_objects(layers, b),
    decreases b,
{
    if b > a {
        lemma_visible_objects_grow(layers, a, b - 1);
    } else if a > 0 {
        lemma_visible_objects_grow(layers, a - 1, a - 1);
    }
}

/// The map is small enough to cache all of its objects at once: at most
/// `MAX_FULL_CACHE_AXIS_PX` pixels each way and `MAX_FULL_CACHE_OBJECTS` visible objects.
pub open spec fn prefers_full_cache<G>(m: MapModel<G>) -> bool {
    &&& m.width * m.tile_width <= MAX_FULL_CACHE_AXIS_PX
    &&& m.height * m.tile_height <= MAX_FULL_CACHE_AXIS_PX
    &&& visible_objects(m.layers, m.layers.len() as int) <= MAX_FULL_CACHE_OBJECTS
}

/// The whole map goes into one object cache exactly when it is at most 4096
/// pixels wide and high and shows at most 2000 objects on its visible object
/// layers; objects on hidden layers, and tile layers, do not count.
pub proof fn full_cache_thresholds<G>(m: MapModel<G>)
    ensures
        prefers_full_cache(m) <==> (m.width * m.tile_width <= 4096 && m.height * m.tile_height <= 4096 && visible_objects(
            m.layers,
            m.layers.len() as int,
        ) <= 2000),
        forall|n: int|
            0 < n <= m.layers.len() ==> #[trigger] visible_objects(m.layers, n) == visible_objects(m.layers, n - 1) + (
            if m.layers[n - 1].visible && m.layers[n - 1].content is Objects {
                match m.layers[n - 1].content {
                    ContentModel::Objects(os) => os.len() as int,
                    ContentModel::Tiles(_) => 0,
                }
            } else {
                0
            }),
        visible_objects(m.layers, 0) == 0,
{
}

/// Whether the whole map goes into one object cache.
pub fn prefers_full_flat_object_cache<G>(map: &TileMap<G>) -> (full: bool)
    requires
        map.width * map.tile_width <= u32::MAX,
        map.height * map.tile_height <= u32::MAX,
        visible_objects(map@.layers, map@.layers.len() as int) <= usize::MAX,
    ensures
        full == prefers_full_cache(map@),
{
    map.total_pixel_width() <= MAX_FULL_CACHE_AXIS_PX && map.total_pixel_height() <= MAX_FULL_CACHE_AXIS_PX
        && visible_object_count(map) <= MAX_FULL_CACHE_OBJECTS
}

/// The visible cells widened by the cache margin, clipped to the map.
pub open spec fn expanded_bounds(visible: VisibleCellBounds, map_width: u32, map_height: u32) -> VisibleCellBounds {
    VisibleCellBounds {
        min_x: sat_sub(visible.min_x, CACHE_MARGIN_TILES),
        max_x: min_u32(sat_add(visible.max_x, CACHE_MARGIN_TILES), map_width),
        min_y: sat_sub(visible.min_y, CACHE_MARGIN_TILES),
        max_y: min_u32(sat_add(visible.max_y, CACHE_MARGIN_TILES), map_height),
    }
}

/// The cells the object cache covers: the whole map when it is small enough,
/// else the visible cells with a margin.
pub open spec fn cache_bounds_for<G>(visible: VisibleCellBounds, m: MapModel<G>) -> VisibleCellBounds {
    if prefers_full_cache(m) {
        VisibleCellBounds { min_x: 0, max_x: m.width, min_y: 0, max_y: m.height }
    } else {
        expanded_bounds(visible, m.width, m.height)
    }
}

/// The recorded form of cache bounds: (min_x, max_x, min_y, max_y).
pub open spec fn recorded(b: VisibleCellBounds) -> (u32, u32, u32, u32) {
    (b.min_x, b.max_x, b.min_y, b.max_y)
}

/// A cache just built for the visible cells is kept, not rebuilt, as long as
/// the visible cells lie on the map.
pub proof fn fresh_object_cache_is_kept<G>(visible: VisibleCellBounds, m: MapModel<G>)
    requires
        visible.min_x <= visible.max_x <= m.width,
        visible.min_y <= visible.max_y <= m.height,
    ensures
        object_cache_refresh(true, Some(recorded(cache_bounds_for(visible, m))), m.width, m.height, visible)
            == CacheRefresh::Keep,
{
}

/// The cells the object cache covers: the whole map when it is small enough,
/// else the visible cells with a margin.
pub fn flat_object_cache_bounds<G>(visible: VisibleCellBounds, map: &TileMap<G>) -> (b: VisibleCellBounds)
    requires
        map.width * map.tile_width <= u32::MAX,
        map.height * map.tile_height <= u32::MAX,
        visible_objects(map@.layers, map@.layers.len() as int) <= usize::MAX,
    ensures
        b == cache_bounds_for(visible, map@),
{
    if prefers_full_flat_object_cache(map) {
        full_map_cell_bounds(map.width, map.height)
    } else {
        expanded_visible_cell_bounds(visible, map.width, map.height)
    }
}

/// What to do with a render cache.
#[derive(Clone, Copy, PartialEq, Eq, Structural, Debug)]
pub enum CacheRefresh {
    /// No map is open: drop the cache.
    Clear,
    /// Draw the cache anew.
    Rebuild,
    /// The cache is still good.
    Keep,
}

/// The object cache is redrawn when there is none, unless it covers the whole
/// map or still covers every visible cell.
pub open spec fn object_cache_refresh(
    has_map: bool,
    cache_bounds: Option<(u32, u32, u32, u32)>,
    map_width: u32,
    map_height: u32,
    visible: VisibleCellBounds,
) -> CacheRefresh {
    if !has_map {
        CacheRefresh::Clear
    } else {
        match cache_bounds {
            None => CacheRefresh::Rebuild,
            Some((min_x, max_x, min_y, max_y)) => if min_x == 0 && min_y == 0 && max_x == map_width && max_y == map_height {
                CacheRefresh::Keep
            } else if visible.min_x >= min_x && visible.max_x <= max_x && visible.min_y >= min_y && visible.max_y <= max_y {
                CacheRefresh::Keep
            } else {
                CacheRefresh::Rebuild
            },
        }
    }
}

/// An object cache recorded for the cells `min_x..max_x` by `min_y..max_y`
/// is kept only while it covers the whole map or every visible cell on both
/// axes; once the view reaches past the cached columns or rows (and the cache
/// is not the whole map) it is redrawn. Without a map it is dropped, and a
/// missing cache is drawn.
pub proof fn object_cache_kept_only_when_covering(
    has_map: bool,
    min_x: u32,
    max_x: u32,
    min_y: u32,
    max_y: u32,
    map_width: u32,
    map_height: u32,
    visible: VisibleCellBounds,
)
    ensures
        ({
            let whole = min_x == 0 && min_y == 0 && max_x == map_width && max_y == map_height;
            let covers = min_x <= visible.min_x && visible.max_x <= max_x && min_y <= visible.min_y && visible.max_y
                <= max_y;
            let decision = object_cache_refresh(has_map, Some((min_x, max_x, min_y, max_y)), map_width, map_height, visible);
            &&& decision == CacheRefresh::Keep ==> has_map && (whole || covers)
            &&& has_map && !whole && !covers ==> decision == CacheRefresh::Rebuild
            &&& has_map && (whole || covers) ==> decision == CacheRefresh::Keep
            &&& !has_map ==> decision == CacheRefresh::Clear
        }),
        has_map ==> object_cache_refresh(has_map, None, map_width, map_height, visible) == CacheRefresh::Rebuild,
{
}

/// Whether the object cache must be dropped, redrawn or kept.
pub fn refresh_flat_object_layer_cache_if_needed(
    has_map: bool,
    cache_bounds: Option<(u32, u32, u32, u32)>,
    map_width: u32,
    map_height: u32,
    visible: VisibleCellBounds,
) -> (action: CacheRefresh)
    ensures
        action == object_cache_refresh(has_map, cache_bounds, map_width, map_height, visible),
{
    if !has_map {
        return CacheRefresh::Clear;
    }
    let (cache_min_x, cache_max_x, cache_min_y, cache_max_y) = match cache_bounds {
        None => return CacheRefresh::Rebuild,
        Some(b) => b,
    };
    if cache_min_x == 0 && cache_min_y == 0 && cache_max_x == map_width && cache_max_y == map_height {
        return CacheRefresh::Keep;
    }
    let fits_horizontally = visible.min_x >= cache_min_x && visible.max_x <= cache_max_x;
    let fits_vertically = visible.min_y >= cache_min_y && visible.max_y <= cache_max_y;
    if fits_horizontally && fits_vertically {
        return CacheRefresh::Keep;
    }
    CacheRefresh::Rebuild
}

/// The tile layers' cache is dropped without a map, drawn when missing, and
/// kept otherwise: it is drawn once, for the whole map.
pub open spec fn tile_cache_refresh(has_map: bool, cache_bounds: Option<(u32, u32, u32, u32)>) -> CacheRefresh {
    if !has_map {
        CacheRefresh::Clear
    } else if cache_bounds is None {
        CacheRefresh::Rebuild
    } else {
        CacheRefresh::Keep
    }
}

/// Whether the cache of the tile layers must be dropped, drawn or kept.
pub fn refresh_flat_tile_layer_cache_if_needed(has_map: bool, cache_bounds: Option<(u32, u32, u32, u32)>) -> (action: CacheRefresh)
    ensures
        action == tile_cache_refresh(has_map, cache_bounds),
{
    if !has_map {
        CacheRefresh::Clear
    } else if cache_bounds.is_none() {
        CacheRefresh::Rebuild
    } else {
        CacheRefresh::Keep
    }
}

/// The active layer's cache is dropped without a map, drawn when the layer is
/// drawn apart and the cache is missing, and kept otherwise.
pub open spec fn active_cache_refresh(has_map: bool, separated: bool, cache_bounds: Option<(u32, u32, u32, u32)>) -> CacheRefresh {
    if !has_map {
        CacheRefresh::Clear
    } else if separated && cache_bounds is None {
        CacheRefresh::Rebuild
    } else {
        CacheRefresh::Keep
    }
}

/// Whether the cache of the active tile layer must be dropped, drawn or kept.
pub fn refresh_active_tile_layer_cache_if_needed(
    has_map: bool,
    separated: bool,
    cache_bounds: Option<(u32, u32, u32, u32)>,
) -> (action: CacheRefresh)
    ensures
        action == active_cache_refresh(has_map, separated, cache_bounds),
{
    if !has_map {
        return CacheRefresh::Clear;
    }
    if !separated {
        return CacheRefresh::Keep;
    }
    if cache_bounds.is_none() {
        CacheRefresh::Rebuild
    } else {
        CacheRefresh::Keep
    }
}

/// Layer `active_layer`, when it exists and is a tile layer.
pub fn active_tile_layer_index<G>(map: &TileMap<G>, active_layer: usize) -> (r: Option<usize>)
    ensures
        r == if active_layer < map@.layers.len() && map@.layers[active_layer as int].content is Tiles {
            Some(active_layer)
        } else {
            None::<usize>
        },
{
    if active_layer >= map.layers.len() {
        return None;
    }
    assert(map@.layers[active_layer as int] == map.layers@[active_layer as int]@);
    match &map.layers[active_layer].content {
        LayerContent::Tiles(_) => Some(active_layer),
        LayerContent::Objects(_) => None,
    }
}

} // verus!
