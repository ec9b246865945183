//! The editor's actions on its state: each one edits the open map through the
//! rules of `edit` and reports the outcome in the status line.
use vstd::prelude::*;
use crate::document::{
    Layer, LayerContent, MapModel, MapObject, ObjectModel, ObjectShape, PropertyValue, TileMap,
};
use crate::edit::{
    EditError, add_layer_property_result, add_object_property_result, create_object_result,
    delete_object_result, error_message, first_with_id, map_wf, object_at, object_list,
    remove_layer_property_result, remove_object_property_result, rename_layer_property_result,
    rename_layer_result, rename_object_property_result, rename_object_result, set_tile_result,
    toggle_lock_result, toggle_visibility_result, with_object, lemma_first_with_id_meaning,
    layer_value_updated, object_value_updated,
};

use crate::text::{decimal, push_decimal};

verus! {

/// The tool that a tap on a map cell uses.
#[derive(Clone, Copy, PartialEq, Eq, Structural, Debug)]
pub enum Tool {
    Hand,
    Paint,
    Erase,
    Select,
    AddRectangle,
    AddPoint,
}

/// The part of the editor's state that the editing actions read and write:
/// the open map (if any), the selections and the status line.
pub struct AppState<G> {
    pub session: Option<TileMap<G>>,
    pub active_layer: usize,
    pub selected_cell: Option<(u32, u32)>,
    pub selected_object: Option<u32>,
    pub selected_gid: u32,
    pub tool: Tool,
    pub status: String,
    /// The selected block of cells, as its corner cells (min_x, min_y, max_x, max_y).
    pub tile_selection: Option<(i32, i32, i32, i32)>,
    /// The cells of the selected block.
    pub tile_selection_cells: Option<Vec<(i32, i32)>>,
    /// The block being dragged out, before it becomes the selection.
    pub tile_selection_preview: Option<(i32, i32, i32, i32)>,
    /// The cells of the block being dragged out.
    pub tile_selection_preview_cells: Option<Vec<(i32, i32)>>,
}

/// The status line after a refused edit.
pub open spec fn failure_status(e: EditError) -> Seq<char> {
    "Edit failed: "@ + error_message(e)
}

/// What an edit of the open map whose effect is `result` leaves in the state.
pub open spec fn edit_outcome<G>(
    before: AppState<G>,
    after: AppState<G>,
    result: spec_fn(MapModel<G>) -> Result<MapModel<G>, EditError>,
) -> bool {
    match before.session {
        None => after.session is None && after.status@ == "No map loaded."@,
        Some(d) => match result(d@) {
            Ok(m) => after.session matches Some(a) && a@ == m && after.status@ == "Edit applied."@,
            Err(e) => after.session matches Some(a) && a@ == d@ && after.status@ == failure_status(e),
        },
    }
}

/// What an edit of the selected object leaves: without a selection the map is
/// untouched and the status asks for one.
pub open spec fn selected_edit_outcome<G>(
    before: AppState<G>,
    after: AppState<G>,
    result: spec_fn(MapModel<G>, u32) -> Result<MapModel<G>, EditError>,
) -> bool {
    match before.selected_object {
        None => after.session == before.session && after.status@ == "Select an object first."@,
        Some(id) => edit_outcome(before, after, |m: MapModel<G>| result(m, id)),
    }
}

/// The selections, the active layer and the tool are as they were.
pub open spec fn keeps_selection<G>(before: AppState<G>, after: AppState<G>) -> bool {
    &&& after.active_layer == before.active_layer
    &&& after.selected_cell == before.selected_cell
    &&& after.selected_object == before.selected_object
    &&& after.selected_gid == before.selected_gid
    &&& after.tool == before.tool
    &&& keeps_tile_selection(before, after)
}

/// The tile selection and its preview are as they were.
pub open spec fn keeps_tile_selection<G>(before: AppState<G>, after: AppState<G>) -> bool {
    &&& after.tile_selection == before.tile_selection
    &&& after.tile_selection_cells == before.tile_selection_cells
    &&& after.tile_selection_preview == before.tile_selection_preview
    &&& after.tile_selection_preview_cells == before.tile_selection_preview_cells
}

/// No tile selection and no preview of one.
pub open spec fn no_tile_selection<G>(s: AppState<G>) -> bool {
    &&& s.tile_selection is None
    &&& s.tile_selection_cells is None
    &&& s.tile_selection_preview is None
    &&& s.tile_selection_preview_cells is None
}

/// The open map, when there is one, keeps every tile layer sized to its grid.
pub open spec fn state_wf<G>(s: AppState<G>) -> bool {
    s.session matches Some(d) ==> map_wf(d@)
}

fn finish_edit<G>(state: &mut AppState<G>, map: TileMap<G>, r: Result<(), EditError>)
    ensures
        final(state).session == Some(map),
        r is Ok ==> final(state).status@ == "Edit applied."@,
        r matches Err(e) ==> final(state).status@ == failure_status(e),
        keeps_selection(*old(state), *final(state)),
{
    state.session = Some(map);
    match r {
        Ok(()) => {
            state.status = "Edit applied.".to_string();
        },
        Err(e) => {
            let mut status = "Edit failed: ".to_string();
            let message = e.message();
            status.append(message.as_str());
            state.status = status;
        },
    }
}

fn no_map_loaded<G>(state: &mut AppState<G>)
    requires
        old(state).session is None,
    ensures
        final(state).session is None,
        final(state).status@ == "No map loaded."@,
        keeps_selection(*old(state), *final(state)),
{
    state.status = "No map loaded.".to_string();
}

fn ask_for_selection<G>(state: &mut AppState<G>)
    ensures
        final(state).session == old(state).session,
        final(state).status@ == "Select an object first."@,
        keeps_selection(*old(state), *final(state)),
{
    state.status = "Select an object first.".to_string();
}

/// Shows or hides layer `layer_index`.
pub fn toggle_layer_visibility<G>(state: &mut AppState<G>, layer_index: usize)
    ensures
        edit_outcome(*old(state), *final(state), |m: MapModel<G>| toggle_visibility_result(m, layer_index as int)),
        keeps_selection(*old(state), *final(state)),
{
    let mut map = match state.session.take() {
        Some(map) => map,
        None => return no_map_loaded(state),
    };
    let r = map.toggle_layer_visibility(layer_index);
    finish_edit(state, map, r);
}

/// Locks or unlocks layer `layer_index`.
pub fn toggle_layer_lock<G>(state: &mut AppState<G>, layer_index: usize)
    ensures
        edit_outcome(*old(state), *final(state), |m: MapModel<G>| toggle_lock_result(m, layer_index as int)),
        keeps_selection(*old(state), *final(state)),
{
    let mut map = match state.session.take() {
        Some(map) => map,
        None => return no_map_loaded(state),
    };
    let r = map.toggle_layer_lock(layer_index);
    finish_edit(state, map, r);
}

/// Renames layer `layer_index`.
pub fn rename_layer<G>(state: &mut AppState<G>, layer_index: usize, name: String)
    ensures
        edit_outcome(*old(state), *final(state), |m: MapModel<G>| rename_layer_result(m, layer_index as int, name@)),
        keeps_selection(*old(state), *final(state)),
{
    let mut map = match state.session.take() {
        Some(map) => map,
        None => return no_map_loaded(state),
    };
    let r = map.rename_layer(layer_index, name);
    finish_edit(state, map, r);
}

/// What creating an object leaves: the edit's outcome, and the new object
/// selected when it was created (no selection otherwise).
pub open spec fn creation_outcome<G>(before: AppState<G>, after: AppState<G>, shape: ObjectShape, geometry: G) -> bool {
    &&& edit_outcome(before, after, |m: MapModel<G>| create_object_result(m, before.active_layer as int, shape, geometry))
    &&& after.selected_object == match before.session {
        Some(d) => match create_object_result(d@, before.active_layer as int, shape, geometry) {
            Ok(_) => Some(d.next_object_id),
            Err(_) => None::<u32>,
        },
        None => None::<u32>,
    }
}

/// An object can be created: the open map (if any) has an id left to give.
pub open spec fn can_create<G>(s: AppState<G>) -> bool {
    s.session matches Some(d) ==> d.next_object_id < u32::MAX
}

fn create_object_at<G>(state: &mut AppState<G>, shape: ObjectShape, geometry: G)
    requires
        can_create(*old(state)),
    ensures
        creation_outcome(*old(state), *final(state), shape, geometry),
        state_wf(*old(state)) ==> state_wf(*final(state)),
        final(state).active_layer == old(state).active_layer,
        final(state).selected_cell == old(state).selected_cell,
        final(state).selected_gid == old(state).selected_gid,
        final(state).tool == old(state).tool,
        keeps_tile_selection(*old(state), *final(state)),
{
    let layer_index = state.active_layer;
    let mut map = match state.session.take() {
        Some(map) => map,
        None => {
            no_map_loaded(state);
            state.selected_object = None;
            return;
        },
    };
    let created = map.create_object(layer_index, shape, geometry);
    match created {
        Ok(id) => {
            finish_edit(state, map, Ok(()));
            state.selected_object = Some(id);
        },
        Err(e) => {
            finish_edit(state, map, Err(e));
            state.selected_object = None;
        },
    }
}

/// The cell a new object is placed at: the selected cell, or the origin.
pub fn creation_cell<G>(state: &AppState<G>) -> (cell: (u32, u32))
    ensures
        cell == match state.selected_cell {
            Some(c) => c,
            None => (0u32, 0u32),
        },
{
    match state.selected_cell {
        Some(c) => c,
        None => (0, 0),
    }
}

/// Creates an object of `shape` on the active layer, with the geometry given
/// for `creation_cell(state)`, and selects it.
pub fn create_object<G>(state: &mut AppState<G>, shape: ObjectShape, geometry: G)
    requires
        can_create(*old(state)),
    ensures
        creation_outcome(*old(state), *final(state), shape, geometry),
        state_wf(*old(state)) ==> state_wf(*final(state)),
        final(state).active_layer == old(state).active_layer,
        final(state).selected_cell == old(state).selected_cell,
        final(state).selected_gid == old(state).selected_gid,
        final(state).tool == old(state).tool,
        keeps_tile_selection(*old(state), *final(state)),
{
    create_object_at(state, shape, geometry);
}

/// Writes `gid` into cell (x, y) of the active layer.
fn set_active_tile<G>(state: &mut AppState<G>, x: u32, y: u32, gid: u32)
    requires
        state_wf(*old(state)),
    ensures
        edit_outcome(*old(state), *final(state), |m: MapModel<G>| set_tile_result(m, old(state).active_layer as int, x, y, gid)),
        keeps_selection(*old(state), *final(state)),
        state_wf(*final(state)),
{
    let layer_index = state.active_layer;
    let mut map = match state.session.take() {
        Some(map) => map,
        None => return no_map_loaded(state),
    };
    let r = map.set_layer_tile(layer_index, x, y, gid);
    finish_edit(state, map, r);
}

/// A tap on cell (x, y): the cell becomes the selected one, and the current
/// tool acts on it. `geometry` is the geometry that an object created by the
/// tool takes at that cell.
pub fn apply_cell_tool<G>(state: &mut AppState<G>, x: u32, y: u32, geometry: G)
    requires
        state_wf(*old(state)),
        old(state).tool == Tool::AddRectangle || old(state).tool == Tool::AddPoint ==> can_create(*old(state)),
    ensures
        final(state).selected_cell == Some((x, y)),
        final(state).active_layer == old(state).active_layer,
        final(state).selected_gid == old(state).selected_gid,
        final(state).tool == old(state).tool,
        keeps_tile_selection(*old(state), *final(state)),
        state_wf(*final(state)),
        match old(state).tool {
            Tool::Hand | Tool::Select => final(state).session == old(state).session
                && final(state).status == old(state).status
                && final(state).selected_object == old(state).selected_object,
            Tool::Paint => edit_outcome(
                *old(state),
                *final(state),
                |m: MapModel<G>| set_tile_result(m, old(state).active_layer as int, x, y, old(state).selected_gid),
            ) && final(state).selected_object == old(state).selected_object,
            Tool::Erase => edit_outcome(
                *old(state),
                *final(state),
                |m: MapModel<G>| set_tile_result(m, old(state).active_layer as int, x, y, 0),
            ) && final(state).selected_object == old(state).selected_object,
            Tool::AddRectangle => creation_outcome(*old(state), *final(state), ObjectShape::Rectangle, geometry),
            Tool::AddPoint => creation_outcome(*old(state), *final(state), ObjectShape::Point, geometry),
        },
{
    state.selected_cell = Some((x, y));
    match state.tool {
        Tool::Hand => {},
        Tool::Paint => {
            let gid = state.selected_gid;
            set_active_tile(state, x, y, gid);
        },
        Tool::Erase => set_active_tile(state, x, y, 0),
        Tool::Select => {},
        Tool::AddRectangle => create_object_at(state, ObjectShape::Rectangle, geometry),
        Tool::AddPoint => create_object_at(state, ObjectShape::Point, geometry),
    }
}

/// What a geometry update of the selected object leaves. When the active
/// layer holds no objects, the refusal reported is `NotObjectLayer` if
/// `object_layer_refusal` is set, and `UnknownObject` otherwise.
pub open spec fn geometry_outcome<G, F: FnOnce(G) -> G>(
    before: AppState<G>,
    after: AppState<G>,
    update: F,
    object_layer_refusal: bool,
) -> bool {
    match before.selected_object {
        None => after.session == before.session && after.status@ == "Select an object first."@,
        Some(id) => match before.session {
            None => after.session is None && after.status@ == "No map loaded."@,
            Some(d) => {
                let i = before.active_layer as int;
                match object_list(d@, i) {
                    None => after.session matches Some(a) && a@ == d@ && after.status@ == failure_status(
                        if object_layer_refusal { EditError::NotObjectLayer } else { EditError::UnknownObject(id) },
                    ),
                    Some(os) => match first_with_id(os, id) {
                        None => after.session matches Some(a) && a@ == d@
                            && after.status@ == failure_status(EditError::UnknownObject(id)),
                        Some(j) => after.status@ == "Edit applied."@ && exists|g: G| {
                            &&& #[trigger] call_ensures(update, (os[j].geometry,), g)
                            &&& after.session matches Some(a) && a@ == with_object(d@, i, j, ObjectModel { geometry: g, ..os[j] })
                        },
                    },
                }
            },
        },
    }
}

fn edit_selected_geometry<G: Copy, F: FnOnce(G) -> G>(state: &mut AppState<G>, id: u32, update: F, object_layer_refusal: bool)
    requires
        forall|g: G| #[trigger] update.requires((g,)),
        old(state).selected_object == Some(id),
    ensures
        geometry_outcome(*old(state), *final(state), update, object_layer_refusal),
        keeps_selection(*old(state), *final(state)),
{
    let layer_index = state.active_layer;
    let mut map = match state.session.take() {
        Some(map) => map,
        None => return no_map_loaded(state),
    };
    let r = map.update_object_geometry(layer_index, id, update);
    let r = match r {
        Err(EditError::NotObjectLayer) => if object_layer_refusal {
            Err(EditError::NotObjectLayer)
        } else {
            Err(EditError::UnknownObject(id))
        },
        other => other,
    };
    finish_edit(state, map, r);
}

/// Moves the selected object: its geometry becomes what `shift` makes of it.
pub fn nudge_selected_object<G: Copy, F: FnOnce(G) -> G>(state: &mut AppState<G>, shift: F)
    requires
        forall|g: G| #[trigger] shift.requires((g,)),
    ensures
        geometry_outcome(*old(state), *final(state), shift, true),
        keeps_selection(*old(state), *final(state)),
{
    match state.selected_object {
        None => ask_for_selection(state),
        Some(id) => edit_selected_geometry(state, id, shift, true),
    }
}

/// Sets a geometry field of the selected object from the text `raw`:
/// `update` is the change for the parsed value, `None` when `raw` does not
/// parse as a number.
pub fn update_selected_object_geometry<G: Copy, F: FnOnce(G) -> G>(state: &mut AppState<G>, raw: &str, update: Option<F>)
    requires
        update matches Some(f) ==> forall|g: G| #[trigger] f.requires((g,)),
    ensures
        keeps_selection(*old(state), *final(state)),
        match (old(state).selected_object, update) {
            (None, _) => final(state).session == old(state).session && final(state).status@ == "Select an object first."@,
            (Some(_), None) => final(state).session == old(state).session
                && final(state).status@ == "Cannot parse '"@ + raw@ + "' as number."@,
            (Some(_), Some(f)) => geometry_outcome(*old(state), *final(state), f, false),
        },
{
    let id = match state.selected_object {
        None => return ask_for_selection(state),
        Some(id) => id,
    };
    match update {
        None => {
            let mut status = "Cannot parse '".to_string();
            status.append(raw);
            status.append("' as number.");
            state.status = status;
        },
        Some(f) => edit_selected_geometry(state, id, f, false),
    }
}

/// Deletes the selected object; the selection is cleared either way.
pub fn delete_selected_object<G>(state: &mut AppState<G>)
    ensures
        selected_edit_outcome(*old(state), *final(state), |m: MapModel<G>, id: u32| delete_object_result(m, old(state).active_layer as int, id)),
        final(state).selected_object is None,
        final(state).active_layer == old(state).active_layer,
        final(state).selected_cell == old(state).selected_cell,
        final(state).selected_gid == old(state).selected_gid,
        final(state).tool == old(state).tool,
        keeps_tile_selection(*old(state), *final(state)),
{
    let id = match state.selected_object {
        None => return ask_for_selection(state),
        Some(id) => id,
    };
    let layer_index = state.active_layer;
    match state.session.take() {
        Some(mut map) => {
            let r = map.delete_object(layer_index, id);
            finish_edit(state, map, r);
        },
        None => no_map_loaded(state),
    }
    state.selected_object = None;
}

/// Renames the selected object.
pub fn rename_selected_object<G>(state: &mut AppState<G>, name: String)
    ensures
        selected_edit_outcome(*old(state), *final(state), |m: MapModel<G>, id: u32| rename_object_result(m, old(state).active_layer as int, id, name@)),
        keeps_selection(*old(state), *final(state)),
{
    let id = match state.selected_object {
        None => return ask_for_selection(state),
        Some(id) => id,
    };
    let layer_index = state.active_layer;
    match state.session.take() {
        Some(mut map) => {
            let r = map.rename_object(layer_index, id, name);
            finish_edit(state, map, r);
        },
        None => no_map_loaded(state),
    }
}

/// Adds a property named `new_property` to the active layer.
pub fn add_layer_property<G>(state: &mut AppState<G>)
    ensures
        edit_outcome(*old(state), *final(state), |m: MapModel<G>| add_layer_property_result(m, old(state).active_layer as int)),
        keeps_selection(*old(state), *final(state)),
{
    let layer_index = state.active_layer;
    match state.session.take() {
        Some(mut map) => {
            let r = map.add_layer_property(layer_index);
            finish_edit(state, map, r);
        },
        None => no_map_loaded(state),
    }
}

/// Removes property `property_index` of the active layer, if there is one.
pub fn remove_layer_property<G>(state: &mut AppState<G>, property_index: usize)
    ensures
        edit_outcome(*old(state), *final(state), |m: MapModel<G>| remove_layer_property_result(m, old(state).active_layer as int, property_index as int)),
        keeps_selection(*old(state), *final(state)),
{
    let layer_index = state.active_layer;
    match state.session.take() {
        Some(mut map) => {
            let r = map.remove_layer_property(layer_index, property_index);
            finish_edit(state, map, r);
        },
        None => no_map_loaded(state),
    }
}

/// Renames property `property_index` of the active layer.
pub fn rename_layer_property<G>(state: &mut AppState<G>, property_index: usize, name: String)
    ensures
        edit_outcome(*old(state), *final(state), |m: MapModel<G>| rename_layer_property_result(m, old(state).active_layer as int, property_index as int, name@)),
        keeps_selection(*old(state), *final(state)),
{
    let layer_index = state.active_layer;
    match state.session.take() {
        Some(mut map) => {
            let r = map.rename_layer_property(layer_index, property_index, name);
            finish_edit(state, map, r);
        },
        None => no_map_loaded(state),
    }
}

/// Adds a property named `new_property` to the selected object.
pub fn add_object_property<G>(state: &mut AppState<G>)
    ensures
        selected_edit_outcome(*old(state), *final(state), |m: MapModel<G>, id: u32| add_object_property_result(m, old(state).active_layer as int, id)),
        keeps_selection(*old(state), *final(state)),
{
    let id = match state.selected_object {
        None => return ask_for_selection(state),
        Some(id) => id,
    };
    let layer_index = state.active_layer;
    match state.session.take() {
        Some(mut map) => {
            let r = map.add_object_property(layer_index, id);
            finish_edit(state, map, r);
        },
        None => no_map_loaded(state),
    }
}

/// Removes property `property_index` of the selected object, if there is one.
pub fn remove_object_property<G>(state: &mut AppState<G>, property_index: usize)
    ensures
        selected_edit_outcome(
            *old(state),
            *final(state),
            |m: MapModel<G>, id: u32| remove_object_property_result(m, old(state).active_layer as int, id, property_index as int),
        ),
        keeps_selection(*old(state), *final(state)),
{
    let id = match state.selected_object {
        None => return ask_for_selection(state),
        Some(id) => id,
    };
    let layer_index = state.active_layer;
    match state.session.take() {
        Some(mut map) => {
            let r = map.remove_object_property(layer_index, id, property_index);
            finish_edit(state, map, r);
        },
        None => no_map_loaded(state),
    }
}

/// Renames property `property_index` of the selected object.
pub fn rename_object_property<G>(state: &mut AppState<G>, property_index: usize, name: String)
    ensures
        selected_edit_outcome(
            *old(state),
            *final(state),
            |m: MapModel<G>, id: u32| rename_object_property_result(m, old(state).active_layer as int, id, property_index as int, name@),
        ),
        keeps_selection(*old(state), *final(state)),
{
    let id = match state.selected_object {
        None => return ask_for_selection(state),
        Some(id) => id,
    };
    let layer_index = state.active_layer;
    match state.session.take() {
        Some(mut map) => {
            let r = map.rename_object_property(layer_index, id, property_index, name);
            finish_edit(state, map, r);
        },
        None => no_map_loaded(state),
    }
}

/// The status line an edit leaves.
pub open spec fn edit_status(r: Result<(), EditError>) -> Seq<char> {
    match r {
        Ok(_) => "Edit applied."@,
        Err(e) => failure_status(e),
    }
}

/// Replaces the value of property `property_index` of the active layer with
/// what `parse` makes of the current value.
pub fn update_layer_property_value<G, F: FnOnce(&PropertyValue) -> Result<PropertyValue, String>>(
    state: &mut AppState<G>,
    property_index: usize,
    parse: F,
)
    requires
        forall|v: &PropertyValue| #[trigger] parse.requires((v,)),
    ensures
        keeps_selection(*old(state), *final(state)),
        match old(state).session {
            None => final(state).session is None && final(state).status@ == "No map loaded."@,
            Some(d) => final(state).session matches Some(a) && exists|r: Result<(), EditError>| {
                &&& #[trigger] layer_value_updated(d, a@, r, parse, old(state).active_layer, property_index)
                &&& final(state).status@ == edit_status(r)
            },
        },
{
    let layer_index = state.active_layer;
    match state.session.take() {
        Some(mut map) => {
            let ghost before = map;
            let r = map.update_layer_property_value(layer_index, property_index, parse);
            let ghost after = map@;
            finish_edit(state, map, r);
            assert(state.session == Some(map));
            assert(state.session.unwrap()@ == after);
            assert(exists|r: Result<(), EditError>| {
                &&& #[trigger] layer_value_updated(before, after, r, parse, layer_index, property_index)
                &&& state.status@ == edit_status(r)
            });
        },
        None => no_map_loaded(state),
    }
}

/// Replaces the value of property `property_index` of the selected object
/// with what `parse` makes of the current value.
pub fn update_object_property_value<G, F: FnOnce(&PropertyValue) -> Result<PropertyValue, String>>(
    state: &mut AppState<G>,
    property_index: usize,
    parse: F,
)
    requires
        forall|v: &PropertyValue| #[trigger] parse.requires((v,)),
    ensures
        keeps_selection(*old(state), *final(state)),
        match (old(state).selected_object, old(state).session) {
            (None, _) => final(state).session == old(state).session && final(state).status@ == "Select an object first."@,
            (Some(_), None) => final(state).session is None && final(state).status@ == "No map loaded."@,
            (Some(id), Some(d)) => final(state).session matches Some(a) && exists|r: Result<(), EditError>| {
                &&& #[trigger] object_value_updated(d, a@, r, parse, old(state).active_layer, id, property_index)
                &&& final(state).status@ == edit_status(r)
            },
        },
{
    let id = match state.selected_object {
        None => return ask_for_selection(state),
        Some(id) => id,
    };
    let layer_index = state.active_layer;
    match state.session.take() {
        Some(mut map) => {
            let ghost before = map;
            let r = map.update_object_property_value(layer_index, id, property_index, parse);
            let ghost after = map@;
            finish_edit(state, map, r);
            assert(state.session == Some(map));
            assert(state.session.unwrap()@ == after);
            assert(exists|r: Result<(), EditError>| {
                &&& #[trigger] object_value_updated(before, after, r, parse, layer_index, id, property_index)
                &&& state.status@ == edit_status(r)
            });
        },
        None => no_map_loaded(state),
    }
}

/// A tap on the overlay of object `object_id` on layer `layer_index`: with the
/// Select tool the object becomes the selection, its layer the active one, and
/// any tile selection or preview of one is dropped; with any other tool the
/// status asks for the Select tool and nothing else changes.
pub fn choose_object<G>(state: &mut AppState<G>, layer_index: usize, object_id: u32)
    ensures
        final(state).session == old(state).session,
        final(state).selected_cell == old(state).selected_cell,
        final(state).selected_gid == old(state).selected_gid,
        final(state).tool == old(state).tool,
        old(state).tool == Tool::Select ==> {
            &&& final(state).active_layer == layer_index
            &&& final(state).selected_object == Some(object_id)
            &&& final(state).status == old(state).status
            &&& no_tile_selection(*final(state))
        },
        old(state).tool != Tool::Select ==> {
            &&& final(state).active_layer == old(state).active_layer
            &&& final(state).selected_object == old(state).selected_object
            &&& final(state).status@ == "Switch to Select before choosing objects."@
            &&& keeps_tile_selection(*old(state), *final(state))
        },
{
    if state.tool != Tool::Select {
        state.status = "Switch to Select before choosing objects.".to_string();
        return;
    }
    state.active_layer = layer_index;
    state.selected_object = Some(object_id);
    state.tile_selection = None;
    state.tile_selection_cells = None;
    state.tile_selection_preview = None;
    state.tile_selection_preview_cells = None;
}

/// A tap on an object's card in the object list: its layer becomes the active
/// one and the object the selection, whatever the tool.
pub fn choose_object_card<G>(state: &mut AppState<G>, layer_index: usize, object_id: u32)
    ensures
        final(state).active_layer == layer_index,
        final(state).selected_object == Some(object_id),
        final(state).session == old(state).session,
        final(state).status == old(state).status,
        final(state).selected_cell == old(state).selected_cell,
        final(state).selected_gid == old(state).selected_gid,
        final(state).tool == old(state).tool,
        keeps_tile_selection(*old(state), *final(state)),
{
    state.active_layer = layer_index;
    state.selected_object = Some(object_id);
}

/// A tap on a layer's card: the layer becomes the active one and no object
/// stays selected.
pub fn choose_layer<G>(state: &mut AppState<G>, layer_index: usize)
    ensures
        final(state).active_layer == layer_index,
        final(state).selected_object is None,
        final(state).session == old(state).session,
        final(state).status == old(state).status,
        final(state).selected_cell == old(state).selected_cell,
        final(state).selected_gid == old(state).selected_gid,
        final(state).tool == old(state).tool,
        keeps_tile_selection(*old(state), *final(state)),
{
    state.active_layer = layer_index;
    state.selected_object = None;
}

/// A tap on a tile of the palette: it becomes the tile that painting writes,
/// and the status names it.
pub fn select_gid<G>(state: &mut AppState<G>, gid: u32)
    ensures
        final(state).selected_gid == gid,
        final(state).status@ == "Selected gid "@ + decimal(gid as nat) + "."@,
        final(state).session == old(state).session,
        final(state).active_layer == old(state).active_layer,
        final(state).selected_cell == old(state).selected_cell,
        final(state).selected_object == old(state).selected_object,
        final(state).tool == old(state).tool,
        keeps_tile_selection(*old(state), *final(state)),
{
    let mut status = "Selected gid ".to_string();
    push_decimal(&mut status, gid as u128);
    status.append(".");
    state.selected_gid = gid;
    state.status = status;
}

/// The selected object, when it stands on layer `layer_index` of `map`,
/// together with that layer's index.
pub fn selected_object_view<G>(map: &TileMap<G>, selected_object: Option<u32>, layer_index: usize) -> (r: Option<(&MapObject<G>, usize)>)
    ensures
        match selected_object {
            None => r is None,
            Some(id) => match object_at(map@, layer_index as int, id) {
                None => r is None,
                Some(j) => r matches Some((o, l)) && l == layer_index && o@ == object_list(map@, layer_index as int).unwrap()[j],
            },
        },
{
    let id = match selected_object {
        None => return None,
        Some(id) => id,
    };
    let j = match map.object_position(layer_index, id) {
        None => return None,
        Some(j) => j,
    };
    let ghost os = object_list(map@, layer_index as int).unwrap();
    proof { lemma_first_with_id_meaning(os, id); }
    match &map.layers[layer_index].content {
        LayerContent::Objects(objects) => {
            assert(objects@[j as int]@ == os[j as int]);
            Some((&objects[j], layer_index))
        },
        LayerContent::Tiles(_) => None,
    }
}

/// The label of a layer's kind.
pub fn layer_kind_label<G>(layer: &Layer<G>) -> (label: &'static str)
    ensures
        label@ == match layer.content {
            LayerContent::Tiles(_) => "Tile Layer"@,
            LayerContent::Objects(_) => "Object Layer"@,
        },
{
    match &layer.content {
        LayerContent::Tiles(_) => "Tile Layer",
        LayerContent::Objects(_) => "Object Layer",
    }
}

/// One entry of the object library: an object and the layer it stands on.
pub struct ObjectSummary {
    pub layer_index: usize,
    pub object_id: u32,
    pub name: String,
    pub shape: ObjectShape,
}

/// The summary of `o` on layer `layer_index`.
pub open spec fn summary_of<G>(layer_index: int, o: ObjectModel<G>) -> (int, u32, Seq<char>, ObjectShape) {
    (layer_index, o.id, o.name, o.shape)
}

/// The summaries of the objects of the first `n` layers, layer by layer.
pub open spec fn summaries<G>(layers: Seq<crate::document::LayerModel<G>>, n: int) -> Seq<(int, u32, Seq<char>, ObjectShape)>
    decreases n,
{
    if n <= 0 {
        Seq::empty()
    } else {
        summaries(layers, n - 1) + match layers[n - 1].content {
            crate::document::ContentModel::Objects(os) => os.map_values(|o: ObjectModel<G>| summary_of(n - 1, o)),
            crate::document::ContentModel::Tiles(_) => Seq::empty(),
        }
    }
}

pub open spec fn summary_view(s: ObjectSummary) -> (int, u32, Seq<char>, ObjectShape) {
    (s.layer_index as int, s.object_id, s.name@, s.shape)
}

/// Every object of every object layer, in layer order then list order.
pub fn collect_objects<G>(map: &TileMap<G>) -> (objects: Vec<ObjectSummary>)
    ensures
        objects@.map_values(|s: ObjectSummary| summary_view(s)) == summaries(map@.layers, map@.layers.len() as int),
{
    let mut objects: Vec<ObjectSummary> = Vec::new();
    let mut layer_index: usize = 0;
    while layer_index < map.layers.len()
        invariant
            0 <= layer_index <= map.layers.len(),
            objects@.map_values(|s: ObjectSummary| summary_view(s)) == summaries(map@.layers, layer_index as int),
        decreases map.layers.len() - layer_index,
    {
        let ghost start = objects@.map_values(|s: ObjectSummary| summary_view(s));
        assert(map@.layers[layer_index as int] == map.layers@[layer_index as int]@);
        match &map.layers[layer_index].content {
            LayerContent::Objects(os) => {
                let ghost ov = crate::document::objects_view(os@);
                let mut k: usize = 0;
                while k < os.len()
                    invariant
                        0 <= k <= os.len(),
                        objects@.map_values(|s: ObjectSummary| summary_view(s)) == start + ov.take(k as int).map_values(
                            |o: ObjectModel<G>| summary_of(layer_index as int, o),
                        ),
                        ov == crate::document::objects_view(os@),
                    decreases os.len() - k,
                {
                    let o = &os[k];
                    let ghost prev = objects@;
                    objects.push(ObjectSummary {
                        layer_index,
                        object_id: o.id,
                        name: o.name.clone(),
                        shape: o.shape,
                    });
                    assert(ov[k as int] == os@[k as int]@);
                    assert(objects@.map_values(|s: ObjectSummary| summary_view(s)) =~= prev.map_values(
                        |s: ObjectSummary| summary_view(s),
                    ).push(summary_of(layer_index as int, ov[k as int])));
                    assert(ov.take(k as int + 1) =~= ov.take(k as int).push(ov[k as int]));
                    assert(objects@.map_values(|s: ObjectSummary| summary_view(s)) =~= start + ov.take(k as int + 1).map_values(
                        |o: ObjectModel<G>| summary_of(layer_index as int, o),
                    ));
                    k += 1;
                }
                assert(ov.take(os.len() as int) =~= ov);
            },
            LayerContent::Tiles(_) => {
                assert(start + Seq::<(int, u32, Seq<char>, ObjectShape)>::empty() =~= start);
            },
        }
        layer_index += 1;
    }
    objects
}

/// The index of the first object layer, if any.
pub open spec fn first_object_layer<G>(layers: Seq<crate::document::LayerModel<G>>) -> Option<int> {
    if exists|i: int| 0 <= i < layers.len() && layers[i].content is Objects {
        Some(choose|i: int| 0 <= i < layers.len() && layers[i].content is Objects
            && forall|k: int| 0 <= k < i ==> !(layers[k].content is Objects))
    } else {
        None
    }
}

/// The layer new objects go to is the first object layer: it is an object
/// layer and no layer before it is one; there is none only when no layer is
/// an object layer.
pub proof fn first_object_layer_is_the_first<G>(layers: Seq<crate::document::LayerModel<G>>)
    ensures
        first_object_layer(layers) matches Some(i) ==> {
            &&& 0 <= i < layers.len()
            &&& layers[i].content is Objects
            &&& forall|k: int| 0 <= k < i ==> !(#[trigger] layers[k].content is Objects)
        },
        first_object_layer(layers) is None ==> forall|k: int| 0 <= k < layers.len() ==> !(#[trigger] layers[k].content is Objects),
{
    if exists|i: int| 0 <= i < layers.len() && layers[i].content is Objects {
        let w = choose|i: int| 0 <= i < layers.len() && layers[i].content is Objects;
        lemma_first_object_layer_exists(layers, w);
    }
}

proof fn lemma_first_object_layer_exists<G>(layers: Seq<crate::document::LayerModel<G>>, w: int)
    requires
        0 <= w < layers.len(),
        layers[w].content is Objects,
    ensures
        exists|i: int| 0 <= i < layers.len() && layers[i].content is Objects
            && forall|k: int| 0 <= k < i ==> !(#[trigger] layers[k].content is Objects),
    decreases w,
{
    if exists|k: int| 0 <= k < w && #[trigger] layers[k].content is Objects {
        let k = choose|k: int| 0 <= k < w && #[trigger] layers[k].content is Objects;
        lemma_first_object_layer_exists(layers, k);
    } else {
        assert(forall|k: int| 0 <= k < w ==> !(#[trigger] layers[k].content is Objects));
    }
}

/// Creates an object of `shape` on the first object layer, which becomes the
/// active layer.
pub fn create_object_on_first_object_layer<G>(state: &mut AppState<G>, shape: ObjectShape, geometry: G)
    requires
        can_create(*old(state)),
    ensures
        match old(state).session {
            None => final(state).session is None && final(state).status@ == "Load a map first."@
                && final(state).active_layer == old(state).active_layer
                && final(state).selected_object == old(state).selected_object,
            Some(d) => match first_object_layer(d@.layers) {
                None => final(state).session == old(state).session
                    && final(state).status@ == "No object layer is available yet."@
                    && final(state).active_layer == old(state).active_layer
                    && final(state).selected_object == old(state).selected_object,
                Some(i) => final(state).active_layer == i && exists|s: AppState<G>| {
                    &&& #[trigger] s.active_layer == i
                    &&& s.session == old(state).session
                    &&& creation_outcome(s, *final(state), shape, geometry)
                },
            },
        },
        final(state).selected_cell == old(state).selected_cell,
        final(state).selected_gid == old(state).selected_gid,
        final(state).tool == old(state).tool,
        keeps_tile_selection(*old(state), *final(state)),
{
    let found = match &state.session {
        None => {
            state.status = "Load a map first.".to_string();
            return;
        },
        Some(map) => {
            let mut i: usize = 0;
            let mut found: Option<usize> = None;
            while i < map.layers.len()
                invariant_except_break
                    0 <= i <= map.layers.len(),
                    found is None,
                    forall|k: int| 0 <= k < i ==> !(map@.layers[k].content is Objects),
                ensures
                    match found {
                        Some(f) => 0 <= f < map@.layers.len() && map@.layers[f as int].content is Objects
                            && forall|k: int| 0 <= k < f ==> !(map@.layers[k].content is Objects),
                        None => forall|k: int| 0 <= k < map@.layers.len() ==> !(map@.layers[k].content is Objects),
                    },
                decreases map.layers.len() - i,
            {
                assert(map@.layers[i as int] == map.layers@[i as int]@);
                if let LayerContent::Objects(_) = &map.layers[i].content {
                    found = Some(i);
                    break;
                }
                i += 1;
            }
            found
        },
    };
    let ghost layers = old(state).session.unwrap()@.layers;
    match found {
        None => {
            state.status = "No object layer is available yet.".to_string();
        },
        Some(index) => {
            proof {
                let c = choose|i: int| 0 <= i < layers.len() && layers[i].content is Objects
                    && forall|k: int| 0 <= k < i ==> !(layers[k].content is Objects);
                assert(0 <= c < layers.len() && layers[c].content is Objects
                    && forall|k: int| 0 <= k < c ==> !(layers[k].content is Objects));
                if c < index as int {
                    assert(!(layers[c].content is Objects));
                } else if c > index as int {
                    assert(!(layers[index as int].content is Objects));
                }
            }
            state.active_layer = index;
            let ghost s = *state;
            create_object_at(state, shape, geometry);
            assert(s.active_layer == index as int);
        },
    }
}

} // verus!
