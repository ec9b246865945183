use taled_editor::document::{
    Layer, LayerContent, MapObject, ObjectShape, Property, PropertyKind, PropertyValue, TileGrid, TileMap, Tileset,
};
use taled_editor::edit::EditError;
use taled_editor::edit_ops::{
    add_layer_property, add_object_property, apply_cell_tool, choose_layer, choose_object, choose_object_card,
    collect_objects, create_object, select_gid,
    create_object_on_first_object_layer, creation_cell, delete_selected_object, layer_kind_label,
    nudge_selected_object, remove_layer_property, remove_object_property, rename_layer, rename_layer_property,
    rename_object_property, rename_selected_object, selected_object_view, toggle_layer_lock,
    toggle_layer_visibility, update_layer_property_value, update_object_property_value,
    update_selected_object_geometry, AppState, Tool,
};

#[derive(Clone, Copy, Debug, PartialEq)]
struct Geo {
    x: f32,
    y: f32,
    w: f32,
    h: f32,
}

fn text(v: &str) -> PropertyValue {
    PropertyValue { kind: PropertyKind::Text, text: v.to_string() }
}

fn sample_map() -> TileMap<Geo> {
    TileMap {
        width: 3,
        height: 2,
        tile_width: 16,
        tile_height: 16,
        next_object_id: 7,
        layers: vec![
            Layer {
                name: "Ground".to_string(),
                visible: true,
                locked: false,
                properties: vec![Property { name: "biome".to_string(), value: text("forest") }],
                content: LayerContent::Tiles(TileGrid { width: 3, height: 2, tiles: vec![1, 2, 0, 0, 3, 4] }),
            },
            Layer {
                name: "Things".to_string(),
                visible: true,
                locked: false,
                properties: vec![],
                content: LayerContent::Objects(vec![MapObject {
                    id: 3,
                    name: "Chest".to_string(),
                    visible: true,
                    shape: ObjectShape::Rectangle,
                    geometry: Geo { x: 16.0, y: 32.0, w: 16.0, h: 16.0 },
                    properties: vec![Property { name: "loot".to_string(), value: text("gold") }],
                }]),
            },
        ],
        tilesets: vec![Tileset {
            name: "terrain".to_string(),
            first_gid: 1,
            tile_count: 8,
            columns: 4,
            tile_width: 16,
            tile_height: 16,
            image_width: 64,
            image_height: 32,
        }],
    }
}

fn sample_state() -> AppState<Geo> {
    AppState {
        session: Some(sample_map()),
        active_layer: 0,
        selected_cell: None,
        selected_object: None,
        selected_gid: 5,
        tool: Tool::Paint,
        status: String::new(),
        tile_selection: Some((0, 0, 1, 0)),
        tile_selection_cells: Some(vec![(0, 0), (1, 0)]),
        tile_selection_preview: None,
        tile_selection_preview_cells: Some(vec![(2, 1)]),
    }
}

fn tiles_of(state: &AppState<Geo>, layer: usize) -> Vec<u32> {
    match &state.session.as_ref().unwrap().layers[layer].content {
        LayerContent::Tiles(grid) => grid.tiles.clone(),
        LayerContent::Objects(_) => panic!("not a tile layer"),
    }
}

fn objects_of(state: &AppState<Geo>, layer: usize) -> &Vec<MapObject<Geo>> {
    match &state.session.as_ref().unwrap().layers[layer].content {
        LayerContent::Objects(objects) => objects,
        LayerContent::Tiles(_) => panic!("not an object layer"),
    }
}

#[test]
fn toggling_visibility_twice_restores_the_layer() {
    let mut state = sample_state();
    toggle_layer_visibility(&mut state, 1);
    assert!(!state.session.as_ref().unwrap().layers[1].visible);
    assert_eq!(state.status, "Edit applied.");
    toggle_layer_visibility(&mut state, 1);
    assert!(state.session.as_ref().unwrap().layers[1].visible);
}

#[test]
fn toggling_lock_twice_restores_the_layer() {
    let mut state = sample_state();
    toggle_layer_lock(&mut state, 0);
    assert!(state.session.as_ref().unwrap().layers[0].locked);
    toggle_layer_lock(&mut state, 0);
    assert!(!state.session.as_ref().unwrap().layers[0].locked);
}

#[test]
fn unknown_layer_is_reported() {
    let mut state = sample_state();
    toggle_layer_visibility(&mut state, 5);
    assert_eq!(state.status, "Edit failed: unknown layer index 5");
    rename_layer(&mut state, 9, "x".to_string());
    assert_eq!(state.status, "Edit failed: unknown layer index 9");
}

#[test]
fn edits_without_a_map_ask_for_one() {
    let mut state = sample_state();
    state.session = None;
    toggle_layer_lock(&mut state, 0);
    assert_eq!(state.status, "No map loaded.");
    add_layer_property(&mut state);
    assert_eq!(state.status, "No map loaded.");
}

#[test]
fn rename_layer_sets_the_name() {
    let mut state = sample_state();
    rename_layer(&mut state, 1, "Props".to_string());
    assert_eq!(state.session.as_ref().unwrap().layers[1].name, "Props");
    assert_eq!(state.status, "Edit applied.");
}

#[test]
fn paint_writes_the_selected_tile_and_selects_the_cell() {
    let mut state = sample_state();
    apply_cell_tool(&mut state, 2, 1, Geo { x: 0.0, y: 0.0, w: 0.0, h: 0.0 });
    assert_eq!(state.selected_cell, Some((2, 1)));
    assert_eq!(tiles_of(&state, 0), vec![1, 2, 0, 0, 3, 5]);
    assert_eq!(state.status, "Edit applied.");
}

#[test]
fn erase_clears_the_cell() {
    let mut state = sample_state();
    state.tool = Tool::Erase;
    apply_cell_tool(&mut state, 0, 0, Geo { x: 0.0, y: 0.0, w: 0.0, h: 0.0 });
    assert_eq!(tiles_of(&state, 0), vec![0, 2, 0, 0, 3, 4]);
}

#[test]
fn second_paint_of_a_cell_wins() {
    let mut state = sample_state();
    let g = Geo { x: 0.0, y: 0.0, w: 0.0, h: 0.0 };
    apply_cell_tool(&mut state, 1, 0, g);
    state.selected_gid = 8;
    apply_cell_tool(&mut state, 1, 0, g);
    assert_eq!(tiles_of(&state, 0), vec![1, 8, 0, 0, 3, 4]);
}

#[test]
fn paint_refusals_leave_the_map_unchanged() {
    let g = Geo { x: 0.0, y: 0.0, w: 0.0, h: 0.0 };
    let mut state = sample_state();
    apply_cell_tool(&mut state, 3, 0, g);
    assert_eq!(state.status, "Edit failed: cell (3, 0) is outside the layer");
    assert_eq!(tiles_of(&state, 0), vec![1, 2, 0, 0, 3, 4]);

    state.active_layer = 1;
    apply_cell_tool(&mut state, 0, 0, g);
    assert_eq!(state.status, "Edit failed: active layer is not a tile layer");

    state.active_layer = 0;
    toggle_layer_lock(&mut state, 0);
    apply_cell_tool(&mut state, 0, 0, g);
    assert_eq!(state.status, "Edit failed: layer is locked");
    assert_eq!(tiles_of(&state, 0), vec![1, 2, 0, 0, 3, 4]);
}

#[test]
fn hand_and_select_only_select_the_cell() {
    let g = Geo { x: 0.0, y: 0.0, w: 0.0, h: 0.0 };
    let mut state = sample_state();
    state.tool = Tool::Hand;
    state.status = "before".to_string();
    apply_cell_tool(&mut state, 1, 1, g);
    assert_eq!(state.selected_cell, Some((1, 1)));
    assert_eq!(state.status, "before");
    assert_eq!(tiles_of(&state, 0), vec![1, 2, 0, 0, 3, 4]);
    state.tool = Tool::Select;
    apply_cell_tool(&mut state, 0, 1, g);
    assert_eq!(state.selected_cell, Some((0, 1)));
    assert_eq!(state.status, "before");
}

#[test]
fn add_rectangle_creates_and_selects_an_object() {
    let mut state = sample_state();
    state.active_layer = 1;
    state.tool = Tool::AddRectangle;
    let g = Geo { x: 32.0, y: 16.0, w: 16.0, h: 16.0 };
    apply_cell_tool(&mut state, 2, 1, g);
    assert_eq!(state.status, "Edit applied.");
    assert_eq!(state.selected_object, Some(7));
    let objects = objects_of(&state, 1);
    assert_eq!(objects.len(), 2);
    assert_eq!(objects[1].id, 7);
    assert_eq!(objects[1].name, "Object 7");
    assert_eq!(objects[1].shape, ObjectShape::Rectangle);
    assert_eq!(objects[1].geometry, g);
    assert!(objects[1].visible);
    assert!(objects[1].properties.is_empty());
    assert_eq!(state.session.as_ref().unwrap().next_object_id, 8);
}

#[test]
fn creating_on_a_tile_layer_fails_and_clears_the_selection() {
    let mut state = sample_state();
    state.selected_object = Some(3);
    create_object(&mut state, ObjectShape::Point, Geo { x: 0.0, y: 0.0, w: 0.0, h: 0.0 });
    assert_eq!(state.status, "Edit failed: active layer is not an object layer");
    assert_eq!(state.selected_object, None);
    assert_eq!(state.session.as_ref().unwrap().next_object_id, 7);
}

#[test]
fn creation_cell_defaults_to_the_origin() {
    let mut state = sample_state();
    assert_eq!(creation_cell(&state), (0, 0));
    state.selected_cell = Some((4, 2));
    assert_eq!(creation_cell(&state), (4, 2));
}

#[test]
fn create_on_first_object_layer_switches_layer() {
    let mut state = sample_state();
    create_object_on_first_object_layer(&mut state, ObjectShape::Point, Geo { x: 1.0, y: 2.0, w: 0.0, h: 0.0 });
    assert_eq!(state.active_layer, 1);
    assert_eq!(state.selected_object, Some(7));
    assert_eq!(objects_of(&state, 1)[1].shape, ObjectShape::Point);
}

#[test]
fn create_on_first_object_layer_reports_missing_layer_or_map() {
    let mut state = sample_state();
    state.session.as_mut().unwrap().layers.truncate(1);
    create_object_on_first_object_layer(&mut state, ObjectShape::Point, Geo { x: 1.0, y: 2.0, w: 0.0, h: 0.0 });
    assert_eq!(state.status, "No object layer is available yet.");
    state.session = None;
    create_object_on_first_object_layer(&mut state, ObjectShape::Point, Geo { x: 1.0, y: 2.0, w: 0.0, h: 0.0 });
    assert_eq!(state.status, "Load a map first.");
}

#[test]
fn nudge_moves_the_selected_object() {
    let mut state = sample_state();
    state.active_layer = 1;
    state.selected_object = Some(3);
    nudge_selected_object(&mut state, |g: Geo| Geo { x: g.x - 16.0, ..g });
    assert_eq!(state.status, "Edit applied.");
    assert_eq!(objects_of(&state, 1)[0].geometry.x, 0.0);
}

#[test]
fn nudge_needs_a_selection_and_an_object_layer() {
    let mut state = sample_state();
    nudge_selected_object(&mut state, |g: Geo| g);
    assert_eq!(state.status, "Select an object first.");
    state.selected_object = Some(3);
    nudge_selected_object(&mut state, |g: Geo| g);
    assert_eq!(state.status, "Edit failed: active layer is not an object layer");
    state.active_layer = 1;
    state.selected_object = Some(99);
    nudge_selected_object(&mut state, |g: Geo| g);
    assert_eq!(state.status, "Edit failed: unknown object id 99");
}

#[test]
fn geometry_update_reports_parse_failure_and_lookup_failure() {
    let mut state = sample_state();
    state.selected_object = Some(3);
    update_selected_object_geometry(&mut state, "abc", None::<fn(Geo) -> Geo>);
    assert_eq!(state.status, "Cannot parse 'abc' as number.");
    update_selected_object_geometry(&mut state, "2", Some(|g: Geo| Geo { w: 2.0, ..g }));
    assert_eq!(state.status, "Edit failed: unknown object id 3");
    state.active_layer = 1;
    update_selected_object_geometry(&mut state, "2", Some(|g: Geo| Geo { w: 2.0, ..g }));
    assert_eq!(state.status, "Edit applied.");
    assert_eq!(objects_of(&state, 1)[0].geometry.w, 2.0);
}

#[test]
fn delete_removes_the_object_and_clears_selection() {
    let mut state = sample_state();
    state.active_layer = 1;
    state.selected_object = Some(3);
    delete_selected_object(&mut state);
    assert_eq!(state.status, "Edit applied.");
    assert!(objects_of(&state, 1).is_empty());
    assert_eq!(state.selected_object, None);
}

#[test]
fn delete_after_create_restores_the_objects() {
    let mut state = sample_state();
    state.active_layer = 1;
    create_object(&mut state, ObjectShape::Rectangle, Geo { x: 0.0, y: 0.0, w: 16.0, h: 16.0 });
    assert_eq!(objects_of(&state, 1).len(), 2);
    delete_selected_object(&mut state);
    let objects = objects_of(&state, 1);
    assert_eq!(objects.len(), 1);
    assert_eq!(objects[0].id, 3);
    assert_eq!(state.session.as_ref().unwrap().next_object_id, 8);
}

#[test]
fn rename_selected_object_sets_the_name() {
    let mut state = sample_state();
    state.active_layer = 1;
    state.selected_object = Some(3);
    rename_selected_object(&mut state, "Barrel".to_string());
    assert_eq!(objects_of(&state, 1)[0].name, "Barrel");
    state.selected_object = Some(4);
    rename_selected_object(&mut state, "X".to_string());
    assert_eq!(state.status, "Edit failed: unknown object id 4");
}

#[test]
fn layer_properties_add_rename_update_remove() {
    let mut state = sample_state();
    add_layer_property(&mut state);
    {
        let props = &state.session.as_ref().unwrap().layers[0].properties;
        assert_eq!(props.len(), 2);
        assert_eq!(props[1].name, "new_property");
        assert_eq!(props[1].value.kind, PropertyKind::Text);
        assert_eq!(props[1].value.text, "");
    }
    rename_layer_property(&mut state, 1, "speed".to_string());
    assert_eq!(state.session.as_ref().unwrap().layers[0].properties[1].name, "speed");
    update_layer_property_value(&mut state, 1, |_v: &PropertyValue| {
        Ok(PropertyValue { kind: PropertyKind::Integer, text: "3".to_string() })
    });
    assert_eq!(state.session.as_ref().unwrap().layers[0].properties[1].value.text, "3");
    update_layer_property_value(&mut state, 1, |_v: &PropertyValue| Err("not an integer".to_string()));
    assert_eq!(state.status, "Edit failed: not an integer");
    assert_eq!(state.session.as_ref().unwrap().layers[0].properties[1].value.text, "3");
    rename_layer_property(&mut state, 5, "x".to_string());
    assert_eq!(state.status, "Edit failed: unknown property index 5");
    remove_layer_property(&mut state, 1);
    assert_eq!(state.session.as_ref().unwrap().layers[0].properties.len(), 1);
    remove_layer_property(&mut state, 7);
    assert_eq!(state.status, "Edit applied.");
    assert_eq!(state.session.as_ref().unwrap().layers[0].properties.len(), 1);
}

#[test]
fn removing_the_added_layer_property_restores_the_list() {
    let mut state = sample_state();
    add_layer_property(&mut state);
    remove_layer_property(&mut state, 1);
    let props = &state.session.as_ref().unwrap().layers[0].properties;
    assert_eq!(props.len(), 1);
    assert_eq!(props[0].name, "biome");
}

#[test]
fn object_properties_add_rename_update_remove() {
    let mut state = sample_state();
    state.active_layer = 1;
    add_object_property(&mut state);
    assert_eq!(state.status, "Select an object first.");
    state.selected_object = Some(3);
    add_object_property(&mut state);
    assert_eq!(objects_of(&state, 1)[0].properties.len(), 2);
    rename_object_property(&mut state, 1, "weight".to_string());
    assert_eq!(objects_of(&state, 1)[0].properties[1].name, "weight");
    update_object_property_value(&mut state, 1, |v: &PropertyValue| {
        Ok(PropertyValue { kind: v.kind, text: "12".to_string() })
    });
    assert_eq!(objects_of(&state, 1)[0].properties[1].value.text, "12");
    rename_object_property(&mut state, 4, "x".to_string());
    assert_eq!(state.status, "Edit failed: unknown property index 4");
    remove_object_property(&mut state, 0);
    assert_eq!(objects_of(&state, 1)[0].properties.len(), 1);
    assert_eq!(objects_of(&state, 1)[0].properties[0].name, "weight");
    state.selected_object = Some(50);
    remove_object_property(&mut state, 0);
    assert_eq!(state.status, "Edit failed: unknown object id 50");
    update_object_property_value(&mut state, 0, |v: &PropertyValue| {
        Ok(PropertyValue { kind: v.kind, text: String::new() })
    });
    assert_eq!(state.status, "Edit failed: unknown property index 0");
}

#[test]
fn selected_object_view_finds_the_object() {
    let map = sample_map();
    let (object, layer) = selected_object_view(&map, Some(3), 1).unwrap();
    assert_eq!(object.name, "Chest");
    assert_eq!(layer, 1);
    assert!(selected_object_view(&map, Some(3), 0).is_none());
    assert!(selected_object_view(&map, None, 1).is_none());
    assert!(selected_object_view(&map, Some(8), 1).is_none());
}

#[test]
fn collect_objects_lists_every_object() {
    let mut map = sample_map();
    if let LayerContent::Objects(objects) = &mut map.layers[1].content {
        objects.push(MapObject {
            id: 5,
            name: "Flag".to_string(),
            visible: false,
            shape: ObjectShape::Point,
            geometry: Geo { x: 0.0, y: 0.0, w: 0.0, h: 0.0 },
            properties: vec![],
        });
    }
    let list = collect_objects(&map);
    assert_eq!(list.len(), 2);
    assert_eq!((list[0].layer_index, list[0].object_id, list[0].name.as_str()), (1, 3, "Chest"));
    assert_eq!((list[1].layer_index, list[1].object_id, list[1].shape), (1, 5, ObjectShape::Point));
}

#[test]
fn layer_kind_labels() {
    let map = sample_map();
    assert_eq!(layer_kind_label(&map.layers[0]), "Tile Layer");
    assert_eq!(layer_kind_label(&map.layers[1]), "Object Layer");
}

#[test]
fn error_messages() {
    assert_eq!(EditError::UnknownLayer(2).message(), "unknown layer index 2");
    assert_eq!(EditError::UnknownObject(12).message(), "unknown object id 12");
    assert_eq!(EditError::UnknownProperty(0).message(), "unknown property index 0");
    assert_eq!(EditError::LayerLocked.message(), "layer is locked");
    assert_eq!(EditError::NotTileLayer.message(), "active layer is not a tile layer");
    assert_eq!(EditError::NotObjectLayer.message(), "active layer is not an object layer");
    assert_eq!(EditError::TileOutOfBounds(4, 9).message(), "cell (4, 9) is outside the layer");
    assert_eq!(EditError::Rejected("bad".to_string()).message(), "bad");
}

#[test]
fn choosing_an_object_needs_the_select_tool() {
    let mut state = sample_state();
    state.tool = Tool::Paint;
    choose_object(&mut state, 1, 3);
    assert_eq!(state.status, "Switch to Select before choosing objects.");
    assert_eq!(state.selected_object, None);
    assert_eq!(state.active_layer, 0);

    assert_eq!(state.tile_selection, Some((0, 0, 1, 0)));
    assert_eq!(state.tile_selection_preview_cells, Some(vec![(2, 1)]));

    state.tool = Tool::Select;
    state.status = "Edit applied.".to_string();
    choose_object(&mut state, 1, 3);
    assert_eq!(state.selected_object, Some(3));
    assert_eq!(state.active_layer, 1);
    assert_eq!(state.status, "Edit applied.");
    assert_eq!(state.tile_selection, None);
    assert_eq!(state.tile_selection_cells, None);
    assert_eq!(state.tile_selection_preview, None);
    assert_eq!(state.tile_selection_preview_cells, None);
}

#[test]
fn cards_and_palette_taps() {
    let mut state = sample_state();
    state.selected_object = Some(3);
    choose_layer(&mut state, 1);
    assert_eq!(state.active_layer, 1);
    assert_eq!(state.selected_object, None);
    choose_object_card(&mut state, 1, 3);
    assert_eq!((state.active_layer, state.selected_object), (1, Some(3)));
    assert_eq!(state.tile_selection, Some((0, 0, 1, 0)));
    select_gid(&mut state, 12);
    assert_eq!(state.selected_gid, 12);
    assert_eq!(state.status, "Selected gid 12.");
}

#[test]
fn removing_the_added_object_property_restores_the_list() {
    let mut state = sample_state();
    state.active_layer = 1;
    state.selected_object = Some(3);
    add_object_property(&mut state);
    assert_eq!(objects_of(&state, 1)[0].properties[1].name, "new_property");
    remove_object_property(&mut state, 1);
    let props = &objects_of(&state, 1)[0].properties;
    assert_eq!(props.len(), 1);
    assert_eq!(props[0].name, "loot");
    assert_eq!(props[0].value.text, "gold");
}
