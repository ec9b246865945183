//! Tilesets and the global tile ids that point into them, and the sprite
//! styles that draw a tile from its tileset image.
use vstd::prelude::*;
use std::collections::BTreeMap;
use crate::document::{TileGrid, TileMap, Tileset};
use crate::search::{first_match, lemma_first_match, lemma_first_match_is};
use crate::styles::{box_style, to_i32, wrapped_i32};
use crate::text::{decimal, push_decimal};

verus! {

/// Tileset `ts` holds global id `gid`.
pub open spec fn holds_gid(ts: Tileset, gid: u32) -> bool {
    ts.first_gid <= gid && gid < ts.first_gid + ts.tile_count
}

/// The first tileset holding `gid`, and the tile's id inside it.
pub open spec fn tile_ref(tilesets: Seq<Tileset>, gid: u32) -> Option<(int, u32)> {
    match first_match(tilesets.len() as int, |k: int| holds_gid(tilesets[k], gid)) {
        Some(k) => Some((k, (gid - tilesets[k].first_gid) as u32)),
        None => None,
    }
}

/// Where a global tile id points: a tileset and a tile inside it.
#[derive(Clone, Copy, PartialEq, Eq, Structural, Debug)]
pub struct TileReference {
    pub tileset_index: usize,
    pub local_id: u32,
}

impl<G> TileMap<G> {
    /// The tileset holding `gid` (the first one, when several do) and the
    /// tile's id inside it.
    pub fn tile_reference_for_gid(&self, gid: u32) -> (r: Option<TileReference>)
        ensures
            match r {
                Some(t) => tile_ref(self.tilesets@, gid) == Some((t.tileset_index as int, t.local_id)),
                None => tile_ref(self.tilesets@, gid) is None,
            },
            r matches Some(t) ==> t.tileset_index < self.tilesets@.len()
                && holds_gid(self.tilesets@[t.tileset_index as int], gid)
                && t.local_id == gid - self.tilesets@[t.tileset_index as int].first_gid,
    {
        let ghost p = |k: int| holds_gid(self.tilesets@[k], gid);
        let mut k: usize = 0;
        while k < self.tilesets.len()
            invariant
                0 <= k <= self.tilesets.len(),
                p == (|k: int| holds_gid(self.tilesets@[k], gid)),
                forall|j: int| 0 <= j < k ==> !#[trigger] p(j),
            decreases self.tilesets.len() - k,
        {
            let ts = &self.tilesets[k];
            if ts.first_gid <= gid && gid - ts.first_gid < ts.tile_count {
                proof { lemma_first_match_is(self.tilesets@.len() as int, p, k as int); }
                return Some(TileReference { tileset_index: k, local_id: gid - ts.first_gid });
            }
            k += 1;
        }
        proof { lemma_first_match(self.tilesets@.len() as int, p); }
        None
    }
}

impl TileGrid {
    /// The global id in cell (x, y), when the grid has that cell.
    pub fn tile_at(&self, x: u32, y: u32) -> (r: Option<u32>)
        requires
            self.tiles@.len() == self.width * self.height,
        ensures
            r == if x < self.width && y < self.height {
                Some(self.tiles@[y * self.width + x])
            } else {
                None::<u32>
            },
    {
        if x >= self.width || y >= self.height {
            return None;
        }
        assert(y * self.width + x < self.width * self.height) by (nonlinear_arith)
            requires
                x < self.width,
                y < self.height,
        ;
        let len = self.tiles.len();
        assert((y as usize) * (self.width as usize) + (x as usize) < len);
        let row_start = (y as usize) * (self.width as usize);
        Some(self.tiles[row_start + (x as usize)])
    }
}

/// The number of columns a tileset image is read with: at least one.
pub open spec fn sheet_columns(ts: Tileset) -> u32 {
    if ts.columns >= 1 { ts.columns } else { 1 }
}

/// The pixel position of tile `local` in the image of `ts`.
pub open spec fn source_x(ts: Tileset, local: u32) -> int {
    (local % sheet_columns(ts)) * ts.tile_width
}

pub open spec fn source_y(ts: Tileset, local: u32) -> int {
    (local / sheet_columns(ts)) * ts.tile_height
}

/// The source position of every tile of `ts` fits in a `u32`.
pub open spec fn sheet_fits(ts: Tileset) -> bool {
    &&& forall|local: u32| local < ts.tile_count ==> #[trigger] source_x(ts, local) <= u32::MAX
    &&& forall|local: u32| local < ts.tile_count ==> #[trigger] source_y(ts, local) <= u32::MAX
}

pub fn source_position(ts: &Tileset, local: u32) -> (p: (u32, u32))
    requires
        source_x(*ts, local) <= u32::MAX,
        source_y(*ts, local) <= u32::MAX,
    ensures
        p.0 == source_x(*ts, local),
        p.1 == source_y(*ts, local),
{
    let columns = if ts.columns >= 1 { ts.columns } else { 1 };
    ((local % columns) * ts.tile_width, (local / columns) * ts.tile_height)
}

/// The part of a sprite style after its box: the tileset image, the tile's
/// offset in it and the image's size.
pub open spec fn sprite_tail(image: Seq<char>, ts: Tileset, local: u32) -> Seq<char> {
    "background-image:url('"@ + image + "');background-position:-"@ + decimal(source_x(ts, local) as nat) + "px -"@
        + decimal(source_y(ts, local) as nat) + "px;background-size:"@ + decimal(ts.image_width as nat) + "px "@
        + decimal(ts.image_height as nat) + "px;image-rendering:pixelated;image-rendering:crisp-edges;"@
}

fn push_sprite_tail(s: &mut String, image: &String, ts: &Tileset, local: u32)
    requires
        source_x(*ts, local) <= u32::MAX,
        source_y(*ts, local) <= u32::MAX,
    ensures
        final(s)@ == old(s)@ + sprite_tail(image@, *ts, local),
{
    let (sx, sy) = source_position(ts, local);
    s.append("background-image:url('");
    s.append(image.as_str());
    s.append("');background-position:-");
    push_decimal(s, sx as u128);
    s.append("px -");
    push_decimal(s, sy as u128);
    s.append("px;background-size:");
    push_decimal(s, ts.image_width as u128);
    s.append("px ");
    push_decimal(s, ts.image_height as u128);
    s.append("px;image-rendering:pixelated;image-rendering:crisp-edges;");
}

/// The sprite of global id `gid` drawn at cell (x, y), when its tileset is
/// known and its image is loaded.
pub open spec fn sprite_style_text<G>(
    m: crate::document::MapModel<G>,
    images: Map<usize, String>,
    gid: u32,
    left: int,
    top: int,
) -> Option<Seq<char>> {
    match tile_ref(m.tilesets, gid) {
        None => None,
        Some((k, local)) => if images.contains_key(k as usize) {
            Some(box_style(left, top, m.tile_width as int, m.tile_height as int) + sprite_tail(
                images[k as usize]@,
                m.tilesets[k],
                local,
            ))
        } else {
            None
        },
    }
}

/// A global id points into the first tileset whose range of ids holds it, at
/// the id's offset from that tileset's first id; it points nowhere when no
/// tileset holds it.
pub proof fn gid_points_into_first_holding_tileset(tilesets: Seq<Tileset>, gid: u32)
    ensures
        tile_ref(tilesets, gid) matches Some((k, local)) ==> {
            &&& 0 <= k < tilesets.len()
            &&& tilesets[k].first_gid <= gid < tilesets[k].first_gid + tilesets[k].tile_count
            &&& local == gid - tilesets[k].first_gid
            &&& forall|j: int|
                0 <= j < k ==> !(#[trigger] tilesets[j].first_gid <= gid < tilesets[j].first_gid + tilesets[j].tile_count)
        },
        tile_ref(tilesets, gid) is None ==> forall|j: int|
            0 <= j < tilesets.len() ==> !(#[trigger] tilesets[j].first_gid <= gid < tilesets[j].first_gid
                + tilesets[j].tile_count),
{
    let pred = |j: int| holds_gid(tilesets[j], gid);
    lemma_first_match(tilesets.len() as int, pred);
    if tile_ref(tilesets, gid) is None {
        assert forall|j: int| 0 <= j < tilesets.len() implies !(#[trigger] tilesets[j].first_gid <= gid
            < tilesets[j].first_gid + tilesets[j].tile_count) by {
            assert(!pred(j));
        }
    } else {
        let k = first_match(tilesets.len() as int, pred).unwrap();
        assert forall|j: int| 0 <= j < k implies !(#[trigger] tilesets[j].first_gid <= gid < tilesets[j].first_gid
            + tilesets[j].tile_count) by {
            assert(!pred(j));
        }
    }
}

/// A tile's sprite shows the tile's own part of its tileset image: with `k`
/// the first tileset holding `gid` and its image loaded, the background is
/// moved left by the tile's column times the tile width and up by its row
/// times the tile height, the tiles laid out in the tileset's columns (at
/// least one, `sheet_columns`).
pub proof fn sprite_shows_its_tile<G>(
    m: crate::document::MapModel<G>,
    images: Map<usize, String>,
    gid: u32,
    left: int,
    top: int,
    k: int,
)
    requires
        0 <= k < m.tilesets.len(),
        m.tilesets[k].first_gid <= gid < m.tilesets[k].first_gid + m.tilesets[k].tile_count,
        forall|j: int|
            0 <= j < k ==> !(#[trigger] m.tilesets[j].first_gid <= gid < m.tilesets[j].first_gid + m.tilesets[j].tile_count),
        images.contains_key(k as usize),
    ensures
        ({
            let ts = m.tilesets[k];
            let local = gid - ts.first_gid;
            let columns = sheet_columns(ts) as int;
            &&& sprite_style_text(m, images, gid, left, top) is Some
            &&& exists|p: Seq<char>, q: Seq<char>|
                sprite_style_text(m, images, gid, left, top).unwrap() == #[trigger] (p + ("background-position:-"@
                    + decimal(((local % columns) * ts.tile_width) as nat) + "px -"@ + decimal(
                    ((local / columns) * ts.tile_height) as nat,
                ) + "px;"@) + q)
        }),
{
    let pred = |j: int| holds_gid(m.tilesets[j], gid);
    assert forall|j: int| 0 <= j < k implies !#[trigger] pred(j) by {}
    lemma_first_match_is(m.tilesets.len() as int, pred, k);
    let ts = m.tilesets[k];
    let local = (gid - ts.first_gid) as u32;
    assert(tile_ref(m.tilesets, gid) == Some((k, local)));
    let b = box_style(left, top, m.tile_width as int, m.tile_height as int);
    let tail = sprite_tail(images[k as usize]@, ts, local);
    assert(sprite_style_text(m, images, gid, left, top) == Some(b + tail));
    let (p, q) = lemma_sprite_tail_position(images[k as usize]@, ts, local);
    assert(b + tail =~= (b + p) + ("background-position:-"@ + decimal(source_x(ts, local) as nat) + "px -"@ + decimal(
        source_y(ts, local) as nat,
    ) + "px;"@) + q);
}

/// The tail of a sprite style holds the tile's offset in its image.
proof fn lemma_sprite_tail_position(image: Seq<char>, ts: Tileset, local: u32) -> (pq: (Seq<char>, Seq<char>))
    ensures
        sprite_tail(image, ts, local) == pq.0 + ("background-position:-"@ + decimal(source_x(ts, local) as nat) + "px -"@
            + decimal(source_y(ts, local) as nat) + "px;"@) + pq.1,
{
    reveal_strlit("');background-position:-");
    reveal_strlit("');");
    reveal_strlit("background-position:-");
    reveal_strlit("px;background-size:");
    reveal_strlit("px;");
    reveal_strlit("background-size:");
    assert("');background-position:-"@ =~= "');"@ + "background-position:-"@);
    assert("px;background-size:"@ =~= "px;"@ + "background-size:"@);
    let p = "background-image:url('"@ + image + "');"@;
    let q = "background-size:"@ + decimal(ts.image_width as nat) + "px "@ + decimal(ts.image_height as nat)
        + "px;image-rendering:pixelated;image-rendering:crisp-edges;"@;
    assert(sprite_tail(image, ts, local) =~= p + ("background-position:-"@ + decimal(source_x(ts, local) as nat) + "px -"@
        + decimal(source_y(ts, local) as nat) + "px;"@) + q);
    (p, q)
}

/// Every tileset's sprite positions fit in a `u32`.
pub open spec fn sheets_fit(tilesets: Seq<Tileset>) -> bool {
    forall|k: int| 0 <= k < tilesets.len() ==> sheet_fits(#[trigger] tilesets[k])
}

/// Image cache keys compare as integers do.
proof fn lemma_image_keys_ordered()
    ensures
        vstd::laws_cmp::obeys_cmp::<usize>(),
{
}

fn sprite_style_at<G>(
    map: &TileMap<G>,
    image_cache: &BTreeMap<usize, String>,
    gid: u32,
    left: i128,
    top: i128,
) -> (s: Option<String>)
    requires
        sheets_fit(map.tilesets@),
        left > i128::MIN,
        top > i128::MIN,
    ensures
        match sprite_style_text(map@, image_cache@, gid, left as int, top as int) {
            Some(t) => s matches Some(v) && v@ == t,
            None => s is None,
        },
{
    let tile = match map.tile_reference_for_gid(gid) {
        None => return None,
        Some(t) => t,
    };
    proof { lemma_image_keys_ordered(); }
    let image = match image_cache.get(&tile.tileset_index) {
        None => return None,
        Some(i) => i,
    };
    assert(image_cache@.contains_key(tile.tileset_index) && image_cache@[tile.tileset_index] == *image);
    let ts = &map.tilesets[tile.tileset_index];
    proof {
        assert(sheet_fits(map.tilesets@[tile.tileset_index as int]));
        assert(source_x(*ts, tile.local_id) <= u32::MAX);
        assert(source_y(*ts, tile.local_id) <= u32::MAX);
    }
    let mut s = crate::styles::box_string(left, top, map.tile_width as i128, map.tile_height as i128);
    push_sprite_tail(&mut s, image, ts, tile.local_id);
    assert(s@ == box_style(left as int, top as int, map@.tile_width as int, map@.tile_height as int) + sprite_tail(
        image_cache@[tile.tileset_index]@,
        map@.tilesets[tile.tileset_index as int],
        tile.local_id,
    ));
    Some(s)
}

/// The sprite of global id `gid` at map cell (x, y).
pub fn sprite_style<G>(map: &TileMap<G>, image_cache: &BTreeMap<usize, String>, gid: u32, x: u32, y: u32) -> (s: Option<String>)
    requires
        sheets_fit(map.tilesets@),
        x * map.tile_width <= u32::MAX,
        y * map.tile_height <= u32::MAX,
    ensures
        match sprite_style_text(map@, image_cache@, gid, x * map.tile_width, y * map.tile_height) {
            Some(t) => s matches Some(v) && v@ == t,
            None => s is None,
        },
{
    sprite_style_at(map, image_cache, gid, (x * map.tile_width) as i128, (y * map.tile_height) as i128)
}

/// The faded look of a tile that is only previewed.
pub open spec fn preview_suffix() -> Seq<char> {
    "opacity:0.46;filter:saturate(0.92);"@
}

/// The faded sprite of `gid` previewed at map cell (x, y).
pub fn preview_tile_style<G>(map: &TileMap<G>, image_cache: &BTreeMap<usize, String>, gid: u32, x: u32, y: u32) -> (s: Option<String>)
    requires
        sheets_fit(map.tilesets@),
        x * map.tile_width <= u32::MAX,
        y * map.tile_height <= u32::MAX,
    ensures
        match sprite_style_text(map@, image_cache@, gid, x * map.tile_width, y * map.tile_height) {
            Some(t) => s matches Some(v) && v@ == t + preview_suffix(),
            None => s is None,
        },
{
    let mut style = match sprite_style(map, image_cache, gid, x, y) {
        None => return None,
        Some(style) => style,
    };
    style.append("opacity:0.46;filter:saturate(0.92);");
    Some(style)
}

/// The faded sprite of `gid` previewed at cell (x, y), which may lie left of
/// or above the map; the tile size is read as an `i32` for the position.
pub fn preview_tile_style_signed<G>(map: &TileMap<G>, image_cache: &BTreeMap<usize, String>, gid: u32, x: i32, y: i32) -> (s: Option<String>)
    requires
        sheets_fit(map.tilesets@),
        i32::MIN <= x * wrapped_i32(map.tile_width) <= i32::MAX,
        i32::MIN <= y * wrapped_i32(map.tile_height) <= i32::MAX,
    ensures
        match sprite_style_text(map@, image_cache@, gid, x * wrapped_i32(map.tile_width), y * wrapped_i32(map.tile_height)) {
            Some(t) => s matches Some(v) && v@ == t + preview_suffix(),
            None => s is None,
        },
{
    let left = x * to_i32(map.tile_width);
    let top = y * to_i32(map.tile_height);
    let mut style = match sprite_style_at(map, image_cache, gid, left as i128, top as i128) {
        None => return None,
        Some(style) => style,
    };
    style.append("opacity:0.46;filter:saturate(0.92);");
    Some(style)
}

} // verus!
