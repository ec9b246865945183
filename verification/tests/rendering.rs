use std::collections::BTreeMap;

use taled_editor::bounds::{
    active_tile_layer_index, expanded_visible_cell_bounds, flat_object_cache_bounds, full_map_cell_bounds,
    prefers_full_flat_object_cache, refresh_active_tile_layer_cache_if_needed,
    refresh_flat_object_layer_cache_if_needed, refresh_flat_tile_layer_cache_if_needed, visible_object_count,
    CacheRefresh, VisibleCellBounds,
};
use taled_editor::data_url::{create_svg_url, review_data_url};
use taled_editor::document::{Layer, LayerContent, MapObject, ObjectShape, TileGrid, TileMap, Tileset};
use taled_editor::draw::{
    clear_tile_img_js, collect_single_layer_draw_data, collect_tile_draw_data, generate_tile_draw_js,
    preload_tileset_images_js, TileDrawData,
};
use taled_editor::previews::{
    active_tile_selection_transfer_preview, build_shape_fill_preview, build_tile_selection_overlay, TileTransfer,
};
use taled_editor::edit_ops::Tool;
use taled_editor::render_cache::{
    can_render, canvas_class, canvas_plan, cell_hitbox_class, collect_visible_tile_styles, map_tile_sprites,
    rebuild_active_tile_layer_cache, rebuild_flat_object_layer_cache, rebuild_flat_tile_layer_cache,
    rebuild_render_caches, rebuild_tile_layer_caches, record_flat_object_layer_url, RenderCaches,
};
use taled_editor::shell::{
    dashboard_thumb, document_title, layer_card_class, object_card_class, overlay_layer_class, switch_class,
    tile_chip_class, tileset_cell_class, tool_chip_class, DashboardThumb,
};
use taled_editor::styles::{
    box_string, cell_style, flat_tile_cache_style, object_class, preview_bounds, preview_frame_style,
    signed_cell_style, signed_preview_frame_style,
};
use taled_editor::tiles::{preview_tile_style, preview_tile_style_signed, source_position, sprite_style};
use taled_editor::tileset_sheet::{
    selected_local_id, selected_tile_summary, sheet_info, sheet_row_gids, sheet_rows, sheet_zoom_key, tile_origin,
};
use taled_editor::visuals::{object_icon_style, point_marker_data_uri, rectangle_icon_data_uri, svg_data_uri};

fn terrain() -> Tileset {
    Tileset {
        name: "terrain".to_string(),
        first_gid: 1,
        tile_count: 8,
        columns: 4,
        tile_width: 16,
        tile_height: 16,
        image_width: 64,
        image_height: 32,
    }
}

fn props() -> Tileset {
    Tileset {
        name: "props".to_string(),
        first_gid: 9,
        tile_count: 4,
        columns: 0,
        tile_width: 8,
        tile_height: 8,
        image_width: 8,
        image_height: 32,
    }
}

fn object(id: u32) -> MapObject<()> {
    MapObject {
        id,
        name: format!("o{id}"),
        visible: true,
        shape: ObjectShape::Point,
        geometry: (),
        properties: vec![],
    }
}

fn sample_map() -> TileMap<()> {
    TileMap {
        width: 3,
        height: 2,
        tile_width: 16,
        tile_height: 16,
        next_object_id: 3,
        layers: vec![
            Layer {
                name: "Ground".to_string(),
                visible: true,
                locked: false,
                properties: vec![],
                content: LayerContent::Tiles(TileGrid { width: 3, height: 2, tiles: vec![1, 0, 6, 9, 12, 99] }),
            },
            Layer {
                name: "Things".to_string(),
                visible: true,
                locked: false,
                properties: vec![],
                content: LayerContent::Objects(vec![object(1), object(2)]),
            },
            Layer {
                name: "Hidden".to_string(),
                visible: false,
                locked: false,
                properties: vec![],
                content: LayerContent::Tiles(TileGrid { width: 3, height: 2, tiles: vec![2, 2, 2, 2, 2, 2] }),
            },
        ],
        tilesets: vec![terrain(), props()],
    }
}

fn images() -> BTreeMap<usize, String> {
    let mut cache = BTreeMap::new();
    cache.insert(0, "data:image/png;base64,AAAA".to_string());
    cache
}

fn replacement_chain_uri(svg: &str) -> String {
    let encoded = svg
        .replace('%', "%25")
        .replace('#', "%23")
        .replace('<', "%3C")
        .replace('>', "%3E")
        .replace('"', "'")
        .replace('\n', "")
        .replace(' ', "%20");
    format!("url(\"data:image/svg+xml;utf8,{encoded}\")")
}

#[test]
fn box_styles() {
    assert_eq!(box_string(0, -16, 32, 8), "left:0px;top:-16px;width:32px;height:8px;");
    assert_eq!(cell_style(16, 8, 2, 3), "left:32px;top:24px;width:16px;height:8px;");
    assert_eq!(signed_cell_style(16, 16, -1, 2), "left:-16px;top:32px;width:16px;height:16px;");
    assert_eq!(preview_frame_style(16, 16, 1, 1, 3, 2), "left:16px;top:16px;width:48px;height:32px;");
    assert_eq!(signed_preview_frame_style(10, 10, -2, -1, 0, 0), "left:-20px;top:-10px;width:30px;height:20px;");
    // A tile size past i32::MAX is read as a negative i32 for the position.
    assert_eq!(signed_cell_style(u32::MAX, 16, 1, 0), "left:-1px;top:0px;width:4294967295px;height:16px;");
}

#[test]
fn flat_tile_cache_box() {
    assert_eq!(flat_tile_cache_style(None, 16, 16), None);
    assert_eq!(
        flat_tile_cache_style(Some((2, 5, 1, 1)), 16, 16),
        Some("left:32px;top:16px;width:48px;height:16px;".to_string())
    );
}

#[test]
fn preview_bounds_orders_corners() {
    assert_eq!(preview_bounds((5, 1), (2, 4)), (2, 1, 5, 4));
    assert_eq!(preview_bounds((0, 0), (0, 0)), (0, 0, 0, 0));
}

#[test]
fn object_classes() {
    assert_eq!(object_class(Some(3), 3, ObjectShape::Rectangle), "object-overlay rectangle selected");
    assert_eq!(object_class(Some(3), 4, ObjectShape::Point), "object-overlay point");
    assert_eq!(object_class(None, 4, ObjectShape::Point), "object-overlay point");
    assert_eq!(object_class(Some(4), 4, ObjectShape::Point), "object-overlay point selected");
}

#[test]
fn svg_uri_matches_replacement_chain() {
    for svg in ["<a b=\"c\">#1 50%\n</a>", "", "plain", "% # < > \" \n"] {
        assert_eq!(svg_data_uri(svg), replacement_chain_uri(svg));
    }
    assert_eq!(svg_data_uri("<b>"), "url(\"data:image/svg+xml;utf8,%3Cb%3E\")");
}

#[test]
fn tool_icons() {
    let rect = r#"<svg xmlns='http://www.w3.org/2000/svg' viewBox='0 0 20 20'>
<rect x='3' y='3' width='14' height='14' fill='rgba(128,128,128,0.196)' stroke='#808080' stroke-width='1.5'/>
</svg>"#;
    assert_eq!(rectangle_icon_data_uri(), replacement_chain_uri(rect));
    assert!(point_marker_data_uri().starts_with("url(\"data:image/svg+xml;utf8,%3Csvg%20xmlns="));
    assert_eq!(
        object_icon_style(ObjectShape::Rectangle),
        format!(
            "background-image:{};background-size:contain;background-repeat:no-repeat;background-position:center;",
            replacement_chain_uri(rect)
        )
    );
}

#[test]
fn data_urls_encode_base64() {
    assert_eq!(create_svg_url("<svg/>"), "data:image/svg+xml;base64,PHN2Zy8+");
    assert_eq!(create_svg_url(""), "data:image/svg+xml;base64,");
    assert_eq!(review_data_url(&[0, 1, 2]), "data:image/png;base64,AAEC");
    assert_eq!(review_data_url(&[255, 254]), "data:image/png;base64,//4=");
}

#[test]
fn document_titles() {
    assert_eq!(document_title("maps/level1.tmx"), "level1.tmx");
    assert_eq!(document_title("/abs/dir/world.json"), "world.json");
    assert_eq!(document_title(""), "Embedded Demo");
    assert_eq!(document_title("/"), "Embedded Demo");
    assert_eq!(document_title("maps/.."), "Embedded Demo");
}

#[test]
fn tile_references() {
    let map = sample_map();
    let r = map.tile_reference_for_gid(6).unwrap();
    assert_eq!((r.tileset_index, r.local_id), (0, 5));
    let r = map.tile_reference_for_gid(12).unwrap();
    assert_eq!((r.tileset_index, r.local_id), (1, 3));
    assert!(map.tile_reference_for_gid(0).is_none());
    assert!(map.tile_reference_for_gid(13).is_none());
}

#[test]
fn grid_lookup() {
    let grid = TileGrid { width: 3, height: 2, tiles: vec![1, 0, 6, 9, 12, 99] };
    assert_eq!(grid.tile_at(2, 0), Some(6));
    assert_eq!(grid.tile_at(1, 1), Some(12));
    assert_eq!(grid.tile_at(3, 0), None);
    assert_eq!(grid.tile_at(0, 2), None);
}

#[test]
fn source_positions() {
    assert_eq!(source_position(&terrain(), 5), (16, 16));
    assert_eq!(source_position(&props(), 3), (0, 24));
}

#[test]
fn sprite_styles() {
    let map = sample_map();
    let cache = images();
    assert_eq!(
        sprite_style(&map, &cache, 6, 2, 1),
        Some(format!(
            "left:{}px;top:{}px;width:{}px;height:{}px;background-image:url('{}');background-position:-{}px -{}px;background-size:{}px {}px;image-rendering:pixelated;image-rendering:crisp-edges;",
            32, 16, 16, 16, "data:image/png;base64,AAAA", 16, 16, 64, 32
        ))
    );
    assert_eq!(sprite_style(&map, &cache, 9, 0, 0), None);
    assert_eq!(sprite_style(&map, &cache, 50, 0, 0), None);
    let preview = preview_tile_style(&map, &cache, 1, 0, 0).unwrap();
    assert!(preview.starts_with("left:0px;top:0px;width:16px;height:16px;background-image:url('"));
    assert!(preview.ends_with("crisp-edges;opacity:0.46;filter:saturate(0.92);"));
    let signed = preview_tile_style_signed(&map, &cache, 1, -1, -2).unwrap();
    assert!(signed.starts_with("left:-16px;top:-32px;"));
    assert!(signed.ends_with("opacity:0.46;filter:saturate(0.92);"));
}

#[test]
fn tileset_sheet_layout() {
    let map = sample_map();
    let info = sheet_info(&map);
    assert_eq!((info.columns, info.tile_count, info.first_gid, info.tile_width, info.tile_height), (4, 8, 1, 16, 16));
    assert_eq!(info.name, "terrain");
    let empty: TileMap<()> = TileMap {
        width: 1,
        height: 1,
        tile_width: 16,
        tile_height: 16,
        next_object_id: 1,
        layers: vec![],
        tilesets: vec![],
    };
    let none = sheet_info(&empty);
    assert_eq!((none.columns, none.tile_count, none.first_gid, none.tile_width, none.tile_height), (1, 0, 1, 16, 16));
    assert_eq!(sheet_rows(4, 8), 2);
    assert_eq!(sheet_rows(4, 9), 3);
    assert_eq!(sheet_rows(3, 0), 0);
    assert_eq!(sheet_zoom_key(4, 16), 40016);
    assert_eq!(sheet_row_gids(0, 4, 10, 1), vec![1, 2, 3, 4]);
    assert_eq!(sheet_row_gids(2, 4, 10, 1), vec![9, 10]);
    assert_eq!(sheet_row_gids(3, 4, 10, 1), Vec::<u32>::new());
    assert_eq!(selected_local_id(7, 1), 6);
    assert_eq!(selected_local_id(0, 1), 0);
    assert_eq!(tile_origin(6, 4, 16, 8), (32, 8));
    assert_eq!(selected_tile_summary(&map, 6), "Tile ID 6 from terrain");
    assert_eq!(selected_tile_summary(&map, 10), "Tile ID 10 from props");
    assert_eq!(selected_tile_summary(&map, 0), "Choose a tile from the sheet below.");
}

#[test]
fn cache_bounds() {
    let visible = VisibleCellBounds { min_x: 3, max_x: 10, min_y: 20, max_y: 25 };
    assert_eq!(
        expanded_visible_cell_bounds(visible, 12, 100),
        VisibleCellBounds { min_x: 0, max_x: 12, min_y: 12, max_y: 33 }
    );
    let far = VisibleCellBounds { min_x: 0, max_x: u32::MAX - 2, min_y: 0, max_y: 0 };
    assert_eq!(expanded_visible_cell_bounds(far, u32::MAX, 5).max_x, u32::MAX);
    assert_eq!(full_map_cell_bounds(7, 9), VisibleCellBounds { min_x: 0, max_x: 7, min_y: 0, max_y: 9 });
    let map = sample_map();
    assert_eq!(visible_object_count(&map), 2);
    assert!(prefers_full_flat_object_cache(&map));
    assert_eq!(flat_object_cache_bounds(visible, &map), full_map_cell_bounds(3, 2));
    let mut big = sample_map();
    big.width = 300;
    big.height = 300;
    assert!(!prefers_full_flat_object_cache(&big));
    assert_eq!(
        flat_object_cache_bounds(visible, &big),
        VisibleCellBounds { min_x: 0, max_x: 18, min_y: 12, max_y: 33 }
    );
}

#[test]
fn cache_refresh_decisions() {
    let visible = VisibleCellBounds { min_x: 2, max_x: 4, min_y: 2, max_y: 4 };
    assert_eq!(refresh_flat_object_layer_cache_if_needed(false, None, 10, 10, visible), CacheRefresh::Clear);
    assert_eq!(refresh_flat_object_layer_cache_if_needed(true, None, 10, 10, visible), CacheRefresh::Rebuild);
    assert_eq!(refresh_flat_object_layer_cache_if_needed(true, Some((0, 10, 0, 10)), 10, 10, visible), CacheRefresh::Keep);
    assert_eq!(refresh_flat_object_layer_cache_if_needed(true, Some((1, 5, 1, 5)), 10, 10, visible), CacheRefresh::Keep);
    assert_eq!(refresh_flat_object_layer_cache_if_needed(true, Some((3, 5, 1, 5)), 10, 10, visible), CacheRefresh::Rebuild);
    assert_eq!(refresh_flat_tile_layer_cache_if_needed(false, Some((0, 1, 0, 1))), CacheRefresh::Clear);
    assert_eq!(refresh_flat_tile_layer_cache_if_needed(true, None), CacheRefresh::Rebuild);
    assert_eq!(refresh_flat_tile_layer_cache_if_needed(true, Some((0, 1, 0, 1))), CacheRefresh::Keep);
    assert_eq!(refresh_active_tile_layer_cache_if_needed(false, true, None), CacheRefresh::Clear);
    assert_eq!(refresh_active_tile_layer_cache_if_needed(true, false, None), CacheRefresh::Keep);
    assert_eq!(refresh_active_tile_layer_cache_if_needed(true, true, None), CacheRefresh::Rebuild);
    assert_eq!(refresh_active_tile_layer_cache_if_needed(true, true, Some((0, 1, 0, 1))), CacheRefresh::Keep);
}

#[test]
fn fresh_cache_is_kept_on_concrete_values() {
    let map = sample_map();
    let visible = VisibleCellBounds { min_x: 0, max_x: 2, min_y: 1, max_y: 2 };
    let b = flat_object_cache_bounds(visible, &map);
    let recorded = Some((b.min_x, b.max_x, b.min_y, b.max_y));
    assert_eq!(refresh_flat_object_layer_cache_if_needed(true, recorded, 3, 2, visible), CacheRefresh::Keep);
}

#[test]
fn active_tile_layer() {
    let map = sample_map();
    assert_eq!(active_tile_layer_index(&map, 0), Some(0));
    assert_eq!(active_tile_layer_index(&map, 1), None);
    assert_eq!(active_tile_layer_index(&map, 2), Some(2));
    assert_eq!(active_tile_layer_index(&map, 3), None);
}

#[test]
fn draw_data_of_visible_layers() {
    let map = sample_map();
    let cache = images();
    let data = collect_tile_draw_data(&map, &cache, None).unwrap();
    // Cells with gid 1 (0,0) and gid 6 (2,0) come from the loaded tileset;
    // gids 9 and 12 need the unloaded one, 99 has no tileset, 0 is empty.
    assert_eq!(data.tile_data, vec![0, 0, 0, 0, 0, 0, 16, 16, 32, 0]);
    assert_eq!(data.tile_data.len() % 5, 0);
    assert_eq!(data.ts_dims, vec![(0, 16, 16)]);
    assert!(collect_tile_draw_data(&map, &cache, Some(0)).is_none());
    assert!(collect_tile_draw_data(&map, &BTreeMap::new(), None).is_none());
}

#[test]
fn draw_data_of_one_layer() {
    let map = sample_map();
    let mut cache = images();
    cache.insert(1, "data:props".to_string());
    let grid = TileGrid { width: 2, height: 1, tiles: vec![10, 2] };
    let data = collect_single_layer_draw_data(&map, &cache, &grid).unwrap();
    assert_eq!(data.tile_data, vec![1, 0, 8, 0, 0, 0, 16, 0, 16, 0]);
    assert_eq!(data.ts_dims, vec![(0, 16, 16), (1, 8, 8)]);
    let empty = TileGrid { width: 2, height: 1, tiles: vec![0, 0] };
    assert!(collect_single_layer_draw_data(&map, &cache, &empty).is_none());
}

#[test]
fn draw_script() {
    let data = TileDrawData { tile_data: vec![0, 16, 0, 32, 48], ts_dims: vec![(0, 16, 16), (2, 8, 4)] };
    let expected = [
        "requestAnimationFrame(function _td(){",
        "var ts=window._taledTs;if(!ts)return;",
        "var sd={0:[16,16],2:[8,4]};",
        "for(var k in sd){if(!ts[k]||!ts[k].complete){setTimeout(_td,50);return}}",
        "var c=document.createElement('canvas');",
        "c.width=640;c.height=480;",
        "var x=c.getContext('2d');",
        "x.imageSmoothingEnabled=false;",
        "var d=[0,16,0,32,48];",
        "var dw=16,dh=16;",
        "for(var i=0;i<d.length;i+=5){",
        "var s=sd[d[i]];",
        "x.drawImage(ts[d[i]],d[i+1],d[i+2],s[0],s[1],d[i+3],d[i+4],dw,dh)",
        "}",
        "c.toBlob(function(b){",
        "var el=document.getElementById('tile-img');",
        "if(!el)return;",
        "var old=el.dataset.blobUrl;",
        "if(old)URL.revokeObjectURL(old);",
        "var u=URL.createObjectURL(b);",
        "el.dataset.blobUrl=u;",
        "el.src=u",
        "})",
        "})",
    ]
    .concat();
    assert_eq!(generate_tile_draw_js("tile-img", &data, 640, 480, 16, 16), expected);
}

#[test]
fn clear_and_preload_scripts() {
    assert_eq!(
        clear_tile_img_js("img1"),
        "requestAnimationFrame(function(){var el=document.getElementById('img1');if(!el)return;var old=el.dataset.blobUrl;if(old)URL.revokeObjectURL(old);el.removeAttribute('src');el.dataset.blobUrl=''})"
    );
    let mut cache = BTreeMap::new();
    cache.insert(3, "b".to_string());
    cache.insert(1, "a".to_string());
    assert_eq!(
        preload_tileset_images_js(&cache),
        "window._taledTs={};window._taledTs[1]=new Image();window._taledTs[1].src=\"a\";window._taledTs[3]=new Image();window._taledTs[3].src=\"b\";"
    );
    assert_eq!(preload_tileset_images_js(&BTreeMap::new()), "window._taledTs={};");
}

#[test]
fn shape_fill_preview() {
    let map = sample_map();
    let cache = images();
    let cells = vec![(0, 0), (1, 0)];
    let visual = build_shape_fill_preview(&map, &cache, 6, &cells, (1, 1), (0, 0));
    assert_eq!(visual.tiles.len(), 2);
    assert_eq!((visual.tiles[1].x, visual.tiles[1].y), (1, 0));
    assert!(!visual.tiles[0].fallback);
    assert!(visual.tiles[1].style.ends_with("opacity:0.46;filter:saturate(0.92);"));
    assert_eq!(visual.frame_style, "left:0px;top:0px;width:32px;height:32px;");
    let fallback = build_shape_fill_preview(&map, &cache, 77, &cells, (0, 0), (1, 0));
    assert!(fallback.tiles[0].fallback);
    assert_eq!(fallback.tiles[1].style, "left:16px;top:0px;width:16px;height:16px;");
}

#[test]
fn transfer_preview() {
    let map = sample_map();
    let cache = images();
    let transfer = TileTransfer { width: 2, height: 2, tiles: vec![1, 0, 0, 50] };
    assert!(active_tile_selection_transfer_preview(&map, &cache, None, Some((0, 0))).is_none());
    assert!(active_tile_selection_transfer_preview(&map, &cache, Some(&transfer), None).is_none());
    let tiles = active_tile_selection_transfer_preview(&map, &cache, Some(&transfer), Some((-1, 2))).unwrap();
    assert_eq!(tiles.len(), 2);
    assert_eq!((tiles[0].x, tiles[0].y, tiles[0].fallback), (-1, 2, false));
    assert!(tiles[0].style.starts_with("left:-16px;top:32px;"));
    assert_eq!((tiles[1].x, tiles[1].y, tiles[1].fallback), (0, 3, true));
    assert_eq!(tiles[1].style, "left:0px;top:48px;width:16px;height:16px;");
}

#[test]
fn selection_overlay() {
    let cells = vec![(0, 0), (1, 1)];
    let o = build_tile_selection_overlay(16, 16, (0, 0, 1, 1), &cells, false, true, false, false);
    assert!(o.irregular && o.preview && !o.closing);
    assert!(!o.show_handles && o.show_irregular_handles);
    assert_eq!(o.region_style, "left:0px;top:0px;width:32px;height:32px;");
    assert_eq!(
        o.cell_styles,
        vec![
            "left:0px;top:0px;width:16px;height:16px;".to_string(),
            "left:16px;top:16px;width:16px;height:16px;".to_string()
        ]
    );
    assert_eq!(o.handles.len(), 4);
    assert_eq!((o.handles[0].position, o.handles[0].style), ("top-left", "left:-11px;top:-11px;"));
    assert_eq!((o.handles[3].position, o.handles[3].style), ("bottom-right", "right:-11px;bottom:-11px;"));

    let rect = build_tile_selection_overlay(16, 16, (2, 2, 3, 2), &vec![(2, 2), (3, 2)], true, false, true, false);
    assert!(rect.show_handles && !rect.show_irregular_handles && rect.cell_styles.is_empty());
    let carried = build_tile_selection_overlay(16, 16, (2, 2, 3, 2), &vec![(2, 2), (3, 2)], true, false, false, true);
    assert!(!carried.show_handles && carried.handles.is_empty());
    let single = build_tile_selection_overlay(16, 16, (-1, 0, -1, 0), &vec![(-1, 0)], true, false, false, false);
    assert!(!single.show_handles && single.handles.is_empty());
    assert_eq!(single.region_style, "left:-16px;top:0px;width:16px;height:16px;");
}

fn empty_caches() -> RenderCaches {
    RenderCaches {
        flat_tile_layers_data_url: None,
        flat_tile_layers_cell_bounds: None,
        active_tile_layer_data_url: None,
        active_tile_layer_cell_bounds: None,
        active_tile_layer_cache_dirty: true,
        flat_object_layers_data_url: Some("old".to_string()),
        flat_object_layers_cell_bounds: Some((1, 2, 1, 2)),
    }
}

#[test]
fn flat_tile_cache_rebuild() {
    let map = sample_map();
    let cache = images();
    let mut caches = empty_caches();
    let js = rebuild_flat_tile_layer_cache(&mut caches, Some(&map), &cache, false, 0).unwrap();
    let data = collect_tile_draw_data(&map, &cache, None).unwrap();
    assert_eq!(js, generate_tile_draw_js("taled-fc", &data, 48, 32, 16, 16));
    assert_eq!(caches.flat_tile_layers_data_url, Some(String::new()));
    assert_eq!(caches.flat_tile_layers_cell_bounds, Some((0, 3, 0, 2)));
    assert_eq!(caches.flat_object_layers_data_url, Some("old".to_string()));
    assert_eq!(refresh_flat_tile_layer_cache_if_needed(true, caches.flat_tile_layers_cell_bounds), CacheRefresh::Keep);

    // The ground layer drawn apart leaves nothing else to draw.
    let js = rebuild_flat_tile_layer_cache(&mut caches, Some(&map), &cache, true, 0).unwrap();
    assert_eq!(js, clear_tile_img_js("taled-fc"));
    assert_eq!(caches.flat_tile_layers_data_url, None);
    assert_eq!(caches.flat_tile_layers_cell_bounds, None);

    assert!(rebuild_flat_tile_layer_cache::<()>(&mut caches, None, &cache, false, 0).is_none());
}

#[test]
fn active_tile_cache_rebuild() {
    let map = sample_map();
    let cache = images();
    let mut caches = empty_caches();
    let js = rebuild_active_tile_layer_cache(&mut caches, Some(&map), &cache, 0).unwrap();
    assert!(js.contains("document.getElementById('taled-ac')"));
    assert!(js.contains("var d=[0,0,0,0,0,0,16,16,32,0];"));
    assert_eq!(caches.active_tile_layer_cell_bounds, Some((0, 3, 0, 2)));
    assert!(caches.active_tile_layer_cache_dirty);
    assert_eq!(
        refresh_active_tile_layer_cache_if_needed(true, true, caches.active_tile_layer_cell_bounds),
        CacheRefresh::Keep
    );
    // An object layer, a hidden layer and a missing layer have no cache.
    for layer in [1, 2, 7] {
        assert!(rebuild_active_tile_layer_cache(&mut caches, Some(&map), &cache, layer).is_none());
        assert_eq!(caches.active_tile_layer_data_url, None);
        assert_eq!(caches.active_tile_layer_cell_bounds, None);
    }
    assert_eq!(
        rebuild_active_tile_layer_cache(&mut caches, Some(&map), &BTreeMap::new(), 0),
        Some(clear_tile_img_js("taled-ac"))
    );
}

#[test]
fn object_cache_rebuild() {
    let mut caches = empty_caches();
    let b = VisibleCellBounds { min_x: 0, max_x: 3, min_y: 0, max_y: 2 };
    rebuild_flat_object_layer_cache(&mut caches, Some(b), Some("<svg/>"));
    assert_eq!(caches.flat_object_layers_data_url, Some("data:image/svg+xml;base64,PHN2Zy8+".to_string()));
    assert_eq!(caches.flat_object_layers_cell_bounds, Some((0, 3, 0, 2)));
    rebuild_flat_object_layer_cache(&mut caches, Some(b), None);
    assert_eq!(caches.flat_object_layers_data_url, None);
    assert_eq!(caches.flat_object_layers_cell_bounds, None);
    rebuild_flat_object_layer_cache(&mut caches, None, Some("<svg/>"));
    assert_eq!(caches.flat_object_layers_data_url, None);
}

#[test]
fn all_caches_rebuild() {
    let map = sample_map();
    let cache = images();
    let visible = VisibleCellBounds { min_x: 0, max_x: 2, min_y: 0, max_y: 2 };
    let mut caches = empty_caches();
    let scripts = rebuild_render_caches(&mut caches, Some(&map), &cache, false, 0, visible, Some("<svg/>"));
    assert_eq!(scripts.len(), 1);
    assert_eq!(caches.flat_object_layers_cell_bounds, Some((0, 3, 0, 2)));
    assert_eq!(caches.active_tile_layer_data_url, None);
    assert!(!caches.active_tile_layer_cache_dirty);

    let mut caches = empty_caches();
    let scripts = rebuild_render_caches(&mut caches, Some(&map), &cache, true, 0, visible, None);
    assert_eq!(scripts, vec![clear_tile_img_js("taled-fc"), rebuild_active_tile_layer_cache(&mut empty_caches(), Some(&map), &cache, 0).unwrap()]);
    assert_eq!(caches.flat_object_layers_data_url, None);
    assert!(caches.active_tile_layer_cache_dirty);

    let mut caches = empty_caches();
    let scripts = rebuild_render_caches::<()>(&mut caches, None, &cache, true, 0, visible, None);
    assert!(scripts.is_empty());
    assert_eq!(caches.flat_object_layers_data_url, None);
}

#[test]
fn live_tile_sprites() {
    let map = sample_map();
    let cache = images();
    let visible = VisibleCellBounds { min_x: 1, max_x: 9, min_y: 0, max_y: 1 };
    let styles = collect_visible_tile_styles(&map, &cache, 0, visible);
    assert_eq!(styles.len(), 1);
    assert_eq!((styles[0].0, styles[0].1), (2, 0));
    assert_eq!(Some(styles[0].2.clone()), sprite_style(&map, &cache, 6, 2, 0));
    assert!(collect_visible_tile_styles(&map, &cache, 1, visible).is_empty());
    assert!(collect_visible_tile_styles(&map, &cache, 2, visible).is_empty());
    let nothing = VisibleCellBounds { min_x: 2, max_x: 2, min_y: 0, max_y: 2 };
    assert!(collect_visible_tile_styles(&map, &cache, 0, nothing).is_empty());

    let all = map_tile_sprites(&map, &cache);
    let cells: Vec<(usize, u32, u32)> = all.iter().map(|(l, x, y, _)| (*l, *x, *y)).collect();
    assert_eq!(cells, vec![(0, 0, 0), (0, 2, 0)]);
}

#[test]
fn canvas_decisions() {
    let mut caches = empty_caches();
    let p = canvas_plan(Tool::Paint, false, false, &caches);
    assert!(!p.objects_live && p.cached_objects && !p.object_overlays && !p.live_active_tiles && !p.active_layer_image);
    let p = canvas_plan(Tool::Select, false, true, &caches);
    assert!(p.objects_live && !p.cached_objects && p.object_overlays && p.live_active_tiles && p.active_layer_image);
    caches.flat_object_layers_data_url = None;
    caches.active_tile_layer_data_url = Some(String::new());
    let p = canvas_plan(Tool::Hand, true, true, &caches);
    assert!(!p.cached_objects && p.object_overlays && p.live_active_tiles && !p.active_layer_image);
    assert_eq!(canvas_class(true), "canvas camera-transition");
    assert_eq!(canvas_class(false), "canvas");
    assert_eq!(cell_hitbox_class(Some((1, 2)), 1, 2), "cell-hitbox selected");
    assert_eq!(cell_hitbox_class(Some((1, 2)), 2, 1), "cell-hitbox");
    assert_eq!(cell_hitbox_class(None, 0, 0), "cell-hitbox");
}

#[test]
fn shell_names() {
    assert_eq!(dashboard_thumb("forest"), Some(DashboardThumb::Forest));
    assert_eq!(dashboard_thumb("winter"), Some(DashboardThumb::Winter));
    assert_eq!(dashboard_thumb("castle"), Some(DashboardThumb::Castle));
    assert_eq!(dashboard_thumb("Forest"), None);
    assert_eq!(dashboard_thumb(""), None);
    assert_eq!(tool_chip_class(Tool::Paint, Tool::Paint), "active");
    assert_eq!(tool_chip_class(Tool::Paint, Tool::Erase), "");
}

#[test]
fn render_checks() {
    let map = sample_map();
    assert!(can_render(&map));
    let mut short = sample_map();
    if let LayerContent::Tiles(grid) = &mut short.layers[0].content {
        grid.tiles.pop();
    }
    assert!(!can_render(&short));
    let mut wide = sample_map();
    wide.width = 1 << 20;
    wide.tile_width = 1 << 12;
    assert!(!can_render(&wide));
    let mut tall_sheet = sample_map();
    tall_sheet.tilesets[1].tile_height = u32::MAX;
    // The props sheet has one column, so its last tile sits three rows down.
    assert!(!can_render(&tall_sheet));
    let mut one_tile = sample_map();
    one_tile.tilesets[1].tile_count = 1;
    one_tile.tilesets[1].tile_height = u32::MAX;
    assert!(can_render(&one_tile));
    let mut wide_layer = sample_map();
    wide_layer.tile_width = 1 << 31;
    wide_layer.width = 1;
    assert!(!can_render(&wide_layer));
}

#[test]
fn card_classes() {
    assert_eq!(tile_chip_class(5, 5), "mobile-tile-chip active");
    assert_eq!(tile_chip_class(5, 6), "mobile-tile-chip");
    assert_eq!(tileset_cell_class(1, 1), "mobile-tileset-cell active");
    assert_eq!(tileset_cell_class(1, 2), "mobile-tileset-cell");
    assert_eq!(overlay_layer_class(2, 2), "mobile-overlay-layer active");
    assert_eq!(overlay_layer_class(2, 0), "mobile-overlay-layer");
    assert_eq!(layer_card_class(0, 0), "mobile-layer-card active");
    assert_eq!(layer_card_class(0, 1), "mobile-layer-card");
    assert_eq!(object_card_class(Some(3), 3), "mobile-object-card active");
    assert_eq!(object_card_class(Some(3), 4), "mobile-object-card");
    assert_eq!(object_card_class(None, 3), "mobile-object-card");
    assert_eq!(switch_class(true), "on");
    assert_eq!(switch_class(false), "off");
}

#[test]
fn object_cache_url_records() {
    let mut caches = empty_caches();
    let b = VisibleCellBounds { min_x: 0, max_x: 3, min_y: 0, max_y: 2 };
    let replaced = record_flat_object_layer_url(&mut caches, Some(b), Some("blob:new".to_string()));
    assert_eq!(replaced, Some("old".to_string()));
    assert_eq!(caches.flat_object_layers_data_url, Some("blob:new".to_string()));
    assert_eq!(caches.flat_object_layers_cell_bounds, Some((0, 3, 0, 2)));
    assert_eq!(record_flat_object_layer_url(&mut caches, Some(b), None), None);
    assert_eq!(caches.flat_object_layers_data_url, None);
    assert_eq!(caches.flat_object_layers_cell_bounds, None);
}

#[test]
fn tile_caches_rebuild_alone() {
    let map = sample_map();
    let cache = images();
    let mut caches = empty_caches();
    let scripts = rebuild_tile_layer_caches(&mut caches, Some(&map), &cache, false, 0);
    assert_eq!(scripts.len(), 1);
    assert_eq!(caches.flat_tile_layers_cell_bounds, Some((0, 3, 0, 2)));
    assert_eq!(caches.flat_object_layers_data_url, Some("old".to_string()));
    assert!(!caches.active_tile_layer_cache_dirty);
    let mut caches = empty_caches();
    let scripts = rebuild_tile_layer_caches(&mut caches, Some(&map), &cache, true, 0);
    assert_eq!(scripts[0], clear_tile_img_js("taled-fc"));
    assert_eq!(caches.active_tile_layer_cell_bounds, Some((0, 3, 0, 2)));
    assert!(caches.active_tile_layer_cache_dirty);
}
