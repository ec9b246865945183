//! Editing operations on the document, and the status line they leave.
//!
//! The rules and the refusal texts are this library's own reading of the
//! editor's document: a global tile id belongs to the first tileset holding
//! it, an edit that is refused leaves the map as it was, and a write outside
//! a tile layer's grid is refused as "cell (x, y) is outside the layer".
use vstd::prelude::*;
use crate::document::{
    ContentModel, Layer, LayerContent, LayerModel, MapModel, MapObject, ObjectModel, ObjectShape,
    Property, PropertyKind, PropertyModel, PropertyValue, TileMap, layers_view, objects_view,
    properties_view,
};
use crate::text::{decimal, push_decimal};

verus! {

/// Why an edit was refused.
#[derive(Debug)]
pub enum EditError {
    UnknownLayer(usize),
    LayerLocked,
    NotTileLayer,
    NotObjectLayer,
    UnknownObject(u32),
    UnknownProperty(usize),
    TileOutOfBounds(u32, u32),
    Rejected(String),
}

/// The text shown for a refused edit.
pub open spec fn error_message(e: EditError) -> Seq<char> {
    match e {
        EditError::UnknownLayer(i) => "unknown layer index "@ + decimal(i as nat),
        EditError::LayerLocked => "layer is locked"@,
        EditError::NotTileLayer => "active layer is not a tile layer"@,
        EditError::NotObjectLayer => "active layer is not an object layer"@,
        EditError::UnknownObject(id) => "unknown object id "@ + decimal(id as nat),
        EditError::UnknownProperty(i) => "unknown property index "@ + decimal(i as nat),
        EditError::TileOutOfBounds(x, y) => "cell ("@ + decimal(x as nat) + ", "@ + decimal(
            y as nat,
        ) + ") is outside the layer"@,
        EditError::Rejected(message) => message@,
    }
}

impl EditError {
    /// The text shown for this refusal.
    pub fn message(&self) -> (m: String)
        ensures
            m@ == error_message(*self),
    {
        match self {
            EditError::UnknownLayer(i) => {
                let mut m = "unknown layer index ".to_string();
                push_decimal(&mut m, *i as u128);
                m
            },
            EditError::LayerLocked => "layer is locked".to_string(),
            EditError::NotTileLayer => "active layer is not a tile layer".to_string(),
            EditError::NotObjectLayer => "active layer is not an object layer".to_string(),
            EditError::UnknownObject(id) => {
                let mut m = "unknown object id ".to_string();
                push_decimal(&mut m, *id as u128);
                m
            },
            EditError::UnknownProperty(i) => {
                let mut m = "unknown property index ".to_string();
                push_decimal(&mut m, *i as u128);
                m
            },
            EditError::TileOutOfBounds(x, y) => {
                let mut m = "cell (".to_string();
                push_decimal(&mut m, *x as u128);
                m.append(", ");
                push_decimal(&mut m, *y as u128);
                m.append(") is outside the layer");
                m
            },
            EditError::Rejected(message) => message.clone(),
        }
    }
}

// ---------------------------------------------------------------------------
// Lookups in the model
// ---------------------------------------------------------------------------

/// The objects of layer `i`, when it exists and is an object layer.
pub open spec fn object_list<G>(m: MapModel<G>, i: int) -> Option<Seq<ObjectModel<G>>> {
    if 0 <= i < m.layers.len() {
        match m.layers[i].content {
            ContentModel::Objects(os) => Some(os),
            ContentModel::Tiles(_) => None,
        }
    } else {
        None
    }
}

/// `j` is the position of the first object with id `id`.
pub open spec fn is_first_with_id<G>(os: Seq<ObjectModel<G>>, id: u32, j: int) -> bool {
    &&& 0 <= j < os.len()
    &&& os[j].id == id
    &&& forall|k: int| 0 <= k < j ==> os[k].id != id
}

/// The position of the first object with id `id`, if any.
pub open spec fn first_with_id<G>(os: Seq<ObjectModel<G>>, id: u32) -> Option<int> {
    if exists|j: int| 0 <= j < os.len() && os[j].id == id {
        Some(choose|j: int| is_first_with_id(os, id, j))
    } else {
        None
    }
}

/// Where object `id` of layer `i` stands in that layer's object list.
pub open spec fn object_at<G>(m: MapModel<G>, i: int, id: u32) -> Option<int> {
    match object_list(m, i) {
        Some(os) => first_with_id(os, id),
        None => None,
    }
}

pub proof fn lemma_first_with_id<G>(os: Seq<ObjectModel<G>>, id: u32, j: int)
    requires
        is_first_with_id(os, id, j),
    ensures
        first_with_id(os, id) == Some(j),
{
    let c = choose|j: int| is_first_with_id(os, id, j);
    assert(is_first_with_id(os, id, c));
    if c < j {
        assert(os[c].id != id);
    } else if c > j {
        assert(os[j].id != id);
    }
}

proof fn lemma_first_exists<G>(os: Seq<ObjectModel<G>>, id: u32, j: int)
    requires
        0 <= j < os.len(),
        os[j].id == id,
    ensures
        exists|k: int| is_first_with_id(os, id, k),
    decreases j,
{
    if exists|k: int| 0 <= k < j && os[k].id == id {
        let k = choose|k: int| 0 <= k < j && os[k].id == id;
        lemma_first_exists(os, id, k);
    } else {
        assert(is_first_with_id(os, id, j));
    }
}

/// What `first_with_id` answers: the first match, or no match at all.
pub proof fn lemma_first_with_id_meaning<G>(os: Seq<ObjectModel<G>>, id: u32)
    ensures
        match first_with_id(os, id) {
            Some(j) => is_first_with_id(os, id, j),
            None => forall|k: int| 0 <= k < os.len() ==> os[k].id != id,
        },
{
    if exists|j: int| 0 <= j < os.len() && os[j].id == id {
        let j = choose|j: int| 0 <= j < os.len() && os[j].id == id;
        lemma_first_exists(os, id, j);
    }
}

/// The layer model with its object list replaced.
pub open spec fn with_objects<G>(m: MapModel<G>, i: int, os: Seq<ObjectModel<G>>) -> MapModel<G> {
    with_layer(m, i, LayerModel { content: ContentModel::Objects(os), ..m.layers[i] })
}

/// The model with object `j` of layer `i` replaced.
pub open spec fn with_object<G>(m: MapModel<G>, i: int, j: int, o: ObjectModel<G>) -> MapModel<G> {
    with_objects(m, i, object_list(m, i).unwrap().update(j, o))
}

pub open spec fn with_layer<G>(m: MapModel<G>, i: int, l: LayerModel<G>) -> MapModel<G> {
    MapModel { layers: m.layers.update(i, l), ..m }
}

/// Every tile layer holds exactly `width * height` cells.
pub open spec fn map_wf<G>(m: MapModel<G>) -> bool {
    forall|i: int|
        0 <= i < m.layers.len() ==> match #[trigger] m.layers[i].content {
            ContentModel::Tiles(g) => g.tiles.len() == g.width * g.height,
            ContentModel::Objects(_) => true,
        }
}

/// Replacing the objects of an object layer keeps every tile layer as it was.
pub proof fn lemma_wf_objects_replaced<G>(m: MapModel<G>, i: int, os: Seq<ObjectModel<G>>)
    requires
        map_wf(m),
        0 <= i < m.layers.len(),
    ensures
        map_wf(with_objects(m, i, os)),
{
    let n = with_objects(m, i, os);
    assert forall|k: int| 0 <= k < n.layers.len() implies match #[trigger] n.layers[k].content {
        ContentModel::Tiles(g) => g.tiles.len() == g.width * g.height,
        ContentModel::Objects(_) => true,
    } by {
        if k != i {
            assert(n.layers[k] == m.layers[k]);
        }
    }
}

/// A fresh property: named `new_property`, holding empty text.
pub open spec fn new_property_model() -> PropertyModel {
    PropertyModel { name: "new_property"@, kind: PropertyKind::Text, text: Seq::empty() }
}

// ---------------------------------------------------------------------------
// The effect of each edit on the model
// ---------------------------------------------------------------------------

/// Flipping the visibility of layer `i`.
pub open spec fn toggle_visibility_result<G>(m: MapModel<G>, i: int) -> Result<MapModel<G>, EditError> {
    if 0 <= i < m.layers.len() {
        Ok(with_layer(m, i, LayerModel { visible: !m.layers[i].visible, ..m.layers[i] }))
    } else {
        Err(EditError::UnknownLayer(i as usize))
    }
}

/// Flipping the lock of layer `i`.
pub open spec fn toggle_lock_result<G>(m: MapModel<G>, i: int) -> Result<MapModel<G>, EditError> {
    if 0 <= i < m.layers.len() {
        Ok(with_layer(m, i, LayerModel { locked: !m.layers[i].locked, ..m.layers[i] }))
    } else {
        Err(EditError::UnknownLayer(i as usize))
    }
}

/// Renaming layer `i`.
pub open spec fn rename_layer_result<G>(m: MapModel<G>, i: int, name: Seq<char>) -> Result<
    MapModel<G>,
    EditError,
> {
    if 0 <= i < m.layers.len() {
        Ok(with_layer(m, i, LayerModel { name: name, ..m.layers[i] }))
    } else {
        Err(EditError::UnknownLayer(i as usize))
    }
}

/// Writing global id `gid` into cell (x, y) of tile layer `i`.
pub open spec fn set_tile_result<G>(m: MapModel<G>, i: int, x: u32, y: u32, gid: u32) -> Result<
    MapModel<G>,
    EditError,
> {
    if !(0 <= i < m.layers.len()) {
        Err(EditError::UnknownLayer(i as usize))
    } else if m.layers[i].locked {
        Err(EditError::LayerLocked)
    } else {
        match m.layers[i].content {
            ContentModel::Objects(_) => Err(EditError::NotTileLayer),
            ContentModel::Tiles(g) => if x < g.width && y < g.height {
                Ok(
                    with_layer(
                        m,
                        i,
                        LayerModel {
                            content: ContentModel::Tiles(
                                crate::document::GridModel {
                                    tiles: g.tiles.update(y * g.width + x, gid),
                                    ..g
                                },
                            ),
                            ..m.layers[i]
                        },
                    ),
                )
            } else {
                Err(EditError::TileOutOfBounds(x, y))
            },
        }
    }
}

/// The object created with id `id`.
pub open spec fn created_object<G>(id: u32, shape: ObjectShape, geometry: G) -> ObjectModel<G> {
    ObjectModel {
        id: id,
        name: "Object "@ + decimal(id as nat),
        visible: true,
        shape: shape,
        geometry: geometry,
        properties: Seq::empty(),
    }
}

/// Creating an object on layer `i`: it takes the map's next object id, which then advances.
pub open spec fn create_object_result<G>(m: MapModel<G>, i: int, shape: ObjectShape, geometry: G) -> Result<
    MapModel<G>,
    EditError,
> {
    if !(0 <= i < m.layers.len()) {
        Err(EditError::UnknownLayer(i as usize))
    } else if m.layers[i].locked {
        Err(EditError::LayerLocked)
    } else {
        match object_list(m, i) {
            None => Err(EditError::NotObjectLayer),
            Some(os) => Ok(
                MapModel {
                    next_object_id: (m.next_object_id + 1) as u32,
                    ..with_objects(m, i, os.push(created_object(m.next_object_id, shape, geometry)))
                },
            ),
        }
    }
}

/// Removing object `id` from layer `i`.
pub open spec fn delete_object_result<G>(m: MapModel<G>, i: int, id: u32) -> Result<MapModel<G>, EditError> {
    match object_list(m, i) {
        None => Err(EditError::NotObjectLayer),
        Some(os) => match first_with_id(os, id) {
            None => Err(EditError::UnknownObject(id)),
            Some(j) => Ok(with_objects(m, i, os.remove(j))),
        },
    }
}

/// Renaming object `id` of layer `i`.
pub open spec fn rename_object_result<G>(m: MapModel<G>, i: int, id: u32, name: Seq<char>) -> Result<
    MapModel<G>,
    EditError,
> {
    match object_at(m, i, id) {
        None => Err(EditError::UnknownObject(id)),
        Some(j) => Ok(with_object(m, i, j, ObjectModel { name: name, ..object_list(m, i).unwrap()[j] })),
    }
}

/// The model with the property list of layer `i` replaced.
pub open spec fn with_layer_properties<G>(m: MapModel<G>, i: int, ps: Seq<PropertyModel>) -> MapModel<G> {
    with_layer(m, i, LayerModel { properties: ps, ..m.layers[i] })
}

/// The model with the property list of object `j` of layer `i` replaced.
pub open spec fn with_object_properties<G>(m: MapModel<G>, i: int, j: int, ps: Seq<PropertyModel>) -> MapModel<G> {
    with_object(m, i, j, ObjectModel { properties: ps, ..object_list(m, i).unwrap()[j] })
}

/// Appending a fresh property to layer `i`.
pub open spec fn add_layer_property_result<G>(m: MapModel<G>, i: int) -> Result<MapModel<G>, EditError> {
    if 0 <= i < m.layers.len() {
        Ok(with_layer_properties(m, i, m.layers[i].properties.push(new_property_model())))
    } else {
        Err(EditError::UnknownLayer(i as usize))
    }
}

/// Removing property `p` of layer `i`; an index past the end changes nothing.
pub open spec fn remove_layer_property_result<G>(m: MapModel<G>, i: int, p: int) -> Result<MapModel<G>, EditError> {
    if !(0 <= i < m.layers.len()) {
        Err(EditError::UnknownLayer(i as usize))
    } else if 0 <= p < m.layers[i].properties.len() {
        Ok(with_layer_properties(m, i, m.layers[i].properties.remove(p)))
    } else {
        Ok(m)
    }
}

/// Renaming property `p` of layer `i`.
pub open spec fn rename_layer_property_result<G>(m: MapModel<G>, i: int, p: int, name: Seq<char>) -> Result<
    MapModel<G>,
    EditError,
> {
    if !(0 <= i < m.layers.len()) {
        Err(EditError::UnknownLayer(i as usize))
    } else if 0 <= p < m.layers[i].properties.len() {
        Ok(with_layer_properties(m, i, m.layers[i].properties.update(
            p,
            PropertyModel { name: name, ..m.layers[i].properties[p] },
        )))
    } else {
        Err(EditError::UnknownProperty(p as usize))
    }
}

/// Appending a fresh property to object `id` of layer `i`.
pub open spec fn add_object_property_result<G>(m: MapModel<G>, i: int, id: u32) -> Result<MapModel<G>, EditError> {
    match object_at(m, i, id) {
        None => Err(EditError::UnknownObject(id)),
        Some(j) => Ok(with_object_properties(m, i, j, object_list(m, i).unwrap()[j].properties.push(new_property_model()))),
    }
}

/// Removing property `p` of object `id` of layer `i`; an index past the end changes nothing.
pub open spec fn remove_object_property_result<G>(m: MapModel<G>, i: int, id: u32, p: int) -> Result<
    MapModel<G>,
    EditError,
> {
    match object_at(m, i, id) {
        None => Err(EditError::UnknownObject(id)),
        Some(j) => {
            let ps = object_list(m, i).unwrap()[j].properties;
            if 0 <= p < ps.len() {
                Ok(with_object_properties(m, i, j, ps.remove(p)))
            } else {
                Ok(m)
            }
        },
    }
}

/// Renaming property `p` of object `id` of layer `i`; every failure reports the property.
pub open spec fn rename_object_property_result<G>(m: MapModel<G>, i: int, id: u32, p: int, name: Seq<char>) -> Result<
    MapModel<G>,
    EditError,
> {
    match object_at(m, i, id) {
        None => Err(EditError::UnknownProperty(p as usize)),
        Some(j) => {
            let ps = object_list(m, i).unwrap()[j].properties;
            if 0 <= p < ps.len() {
                Ok(with_object_properties(m, i, j, ps.update(p, PropertyModel { name: name, ..ps[p] })))
            } else {
                Err(EditError::UnknownProperty(p as usize))
            }
        },
    }
}

/// What replacing the value of property `property_index` of layer
/// `layer_index` through `parse` leaves.
pub open spec fn layer_value_updated<G, F: FnOnce(&PropertyValue) -> Result<PropertyValue, String>>(
    before: TileMap<G>,
    after: MapModel<G>,
    r: Result<(), EditError>,
    parse: F,
    layer_index: usize,
    property_index: usize,
) -> bool {
    if layer_index >= before@.layers.len() {
        r == Err::<(), EditError>(EditError::UnknownLayer(layer_index)) && after == before@
    } else if property_index >= before@.layers[layer_index as int].properties.len() {
        r == Err::<(), EditError>(EditError::UnknownProperty(property_index)) && after == before@
    } else {
        exists|out: Result<PropertyValue, String>| {
            &&& #[trigger] call_ensures(
                parse,
                (&before.layers@[layer_index as int].properties@[property_index as int].value,),
                out,
            )
            &&& match out {
                Ok(v) => r is Ok && after == with_layer_properties(
                    before@,
                    layer_index as int,
                    before@.layers[layer_index as int].properties.update(
                        property_index as int,
                        PropertyModel {
                            kind: v.kind,
                            text: v.text@,
                            ..before@.layers[layer_index as int].properties[property_index as int]
                        },
                    ),
                ),
                Err(message) => r == Err::<(), EditError>(EditError::Rejected(message))
                    && after == before@,
            }
        }
    }
}

/// What replacing the value of property `property_index` of object `id` of
/// layer `layer_index` through `parse` leaves; every failed lookup reports the property.
pub open spec fn object_value_updated<G, F: FnOnce(&PropertyValue) -> Result<PropertyValue, String>>(
    before: TileMap<G>,
    after: MapModel<G>,
    r: Result<(), EditError>,
    parse: F,
    layer_index: usize,
    id: u32,
    property_index: usize,
) -> bool {
    match object_at(before@, layer_index as int, id) {
        None => r == Err::<(), EditError>(EditError::UnknownProperty(property_index)) && after == before@,
        Some(j) => {
            let ps = object_list(before@, layer_index as int).unwrap()[j].properties;
            if property_index >= ps.len() {
                r == Err::<(), EditError>(EditError::UnknownProperty(property_index)) && after == before@
            } else {
                exists|out: Result<PropertyValue, String>| {
                    &&& #[trigger] call_ensures(
                        parse,
                        (&object_value(before.layers@[layer_index as int], j, property_index as int),),
                        out,
                    )
                    &&& match out {
                        Ok(v) => r is Ok && after == with_object_properties(
                            before@,
                            layer_index as int,
                            j,
                            ps.update(property_index as int, PropertyModel { kind: v.kind, text: v.text@, ..ps[property_index as int] }),
                        ),
                        Err(message) => r == Err::<(), EditError>(EditError::Rejected(message))
                            && after == before@,
                    }
                }
            }
        },
    }
}

/// `after` and `r` are what an edit whose effect is `expected` leaves:
/// the new model on success, the untouched model and the refusal otherwise.
pub open spec fn applied<G>(
    before: MapModel<G>,
    after: MapModel<G>,
    r: Result<(), EditError>,
    expected: Result<MapModel<G>, EditError>,
) -> bool {
    match expected {
        Ok(m) => r is Ok && after == m,
        Err(e) => r == Err::<(), EditError>(e) && after == before,
    }
}

/// The position of the first object with id `id` in `os`.
pub fn object_index<G>(os: &Vec<MapObject<G>>, id: u32) -> (r: Option<usize>)
    ensures
        match r {
            Some(j) => first_with_id(objects_view(os@), id) == Some(j as int),
            None => first_with_id(objects_view(os@), id) is None,
        },
{
    let mut j: usize = 0;
    while j < os.len()
        invariant
            0 <= j <= os.len(),
            forall|k: int| 0 <= k < j ==> #[trigger] os@[k].id != id,
        decreases os.len() - j,
    {
        if os[j].id == id {
            proof {
                let v = objects_view(os@);
                assert forall|k: int| 0 <= k < j implies v[k].id != id by {
                    assert(v[k] == os@[k]@);
                }
                lemma_first_with_id(v, id, j as int);
            }
            return Some(j);
        }
        j += 1;
    }
    proof {
        let v = objects_view(os@);
        assert forall|k: int| 0 <= k < v.len() implies v[k].id != id by {
            assert(v[k] == os@[k]@);
        }
    }
    None
}

impl<G> TileMap<G> {
    /// Where object `id` of layer `layer_index` stands in that layer's object list.
    pub fn object_position(&self, layer_index: usize, id: u32) -> (r: Option<usize>)
        ensures
            match r {
                Some(j) => object_at(self@, layer_index as int, id) == Some(j as int),
                None => object_at(self@, layer_index as int, id) is None,
            },
    {
        if layer_index >= self.layers.len() {
            return None;
        }
        assert(self@.layers[layer_index as int] == self.layers@[layer_index as int]@);
        match &self.layers[layer_index].content {
            LayerContent::Objects(os) => object_index(os, id),
            LayerContent::Tiles(_) => None,
        }
    }

    pub fn toggle_layer_visibility(&mut self, layer_index: usize) -> (r: Result<(), EditError>)
        ensures
            applied(old(self)@, final(self)@, r, toggle_visibility_result(old(self)@, layer_index as int)),
    {
        if layer_index >= self.layers.len() {
            return Err(EditError::UnknownLayer(layer_index));
        }
        let v = self.layers[layer_index].visible;
        self.layers[layer_index].visible = !v;
        assert(layers_view(self.layers@) =~= layers_view(old(self).layers@).update(
            layer_index as int,
            LayerModel { visible: !v, ..old(self)@.layers[layer_index as int] },
        ));
        Ok(())
    }

    pub fn rename_object(&mut self, layer_index: usize, id: u32, name: String) -> (r: Result<(), EditError>)
        ensures
            applied(old(self)@, final(self)@, r, rename_object_result(old(self)@, layer_index as int, id, name@)),
    {
        let j = match self.object_position(layer_index, id) {
            None => return Err(EditError::UnknownObject(id)),
            Some(j) => j,
        };
        let ghost new_name = name@;
        let ghost before = object_list(self@, layer_index as int).unwrap();
        proof { lemma_first_with_id_meaning(before, id); }
        match &mut self.layers[layer_index].content {
            LayerContent::Objects(os) => {
                assert(objects_view(os@) == before);
                os[j].name = name;
                assert(objects_view(os@) =~= before.update(j as int, ObjectModel { name: new_name, ..before[j as int] }));
            },
            LayerContent::Tiles(_) => {
                assert(false);
            },
        }
        assert(self.layers@[layer_index as int]@ == LayerModel {
            content: ContentModel::Objects(before.update(j as int, ObjectModel { name: new_name, ..before[j as int] })),
            ..old(self)@.layers[layer_index as int]
        });
        assert(layers_view(self.layers@) =~= layers_view(old(self).layers@).update(
            layer_index as int,
            self.layers@[layer_index as int]@,
        ));
        Ok(())
    }

    pub fn toggle_layer_lock(&mut self, layer_index: usize) -> (r: Result<(), EditError>)
        ensures
            applied(old(self)@, final(self)@, r, toggle_lock_result(old(self)@, layer_index as int)),
    {
        if layer_index >= self.layers.len() {
            return Err(EditError::UnknownLayer(layer_index));
        }
        let v = self.layers[layer_index].locked;
        self.layers[layer_index].locked = !v;
        assert(layers_view(self.layers@) =~= layers_view(old(self).layers@).update(
            layer_index as int,
            LayerModel { locked: !v, ..old(self)@.layers[layer_index as int] },
        ));
        Ok(())
    }

    pub fn rename_layer(&mut self, layer_index: usize, name: String) -> (r: Result<(), EditError>)
        ensures
            applied(old(self)@, final(self)@, r, rename_layer_result(old(self)@, layer_index as int, name@)),
    {
        if layer_index >= self.layers.len() {
            return Err(EditError::UnknownLayer(layer_index));
        }
        let ghost new_name = name@;
        self.layers[layer_index].name = name;
        assert(layers_view(self.layers@) =~= layers_view(old(self).layers@).update(
            layer_index as int,
            LayerModel { name: new_name, ..old(self)@.layers[layer_index as int] },
        ));
        Ok(())
    }

    /// Writes `gid` into cell (x, y) of tile layer `layer_index`, unless the
    /// layer is missing, locked, not a tile layer, or smaller than the cell.
    pub fn set_layer_tile(&mut self, layer_index: usize, x: u32, y: u32, gid: u32) -> (r: Result<(), EditError>)
        requires
            map_wf(old(self)@),
        ensures
            applied(old(self)@, final(self)@, r, set_tile_result(old(self)@, layer_index as int, x, y, gid)),
            map_wf(final(self)@),
    {
        if layer_index >= self.layers.len() {
            return Err(EditError::UnknownLayer(layer_index));
        }
        if self.layers[layer_index].locked {
            return Err(EditError::LayerLocked);
        }
        let ghost i = layer_index as int;
        assert(self@.layers[i] == self.layers@[i]@);
        match &self.layers[layer_index].content {
            LayerContent::Objects(_) => {
                return Err(EditError::NotTileLayer);
            },
            LayerContent::Tiles(grid) => {
                if x >= grid.width || y >= grid.height {
                    return Err(EditError::TileOutOfBounds(x, y));
                }
            },
        }
        assert(match self.layers@[i].content {
            LayerContent::Tiles(g) => x < g.width && y < g.height && g.tiles@.len() == g.width * g.height,
            LayerContent::Objects(_) => false,
        });
        match &mut self.layers[layer_index].content {
            LayerContent::Objects(_) => {
                assert(false);
            },
            LayerContent::Tiles(grid) => {
                assert(grid.tiles@.len() == grid.width * grid.height);
                assert(y * grid.width + x < grid.width * grid.height) by (nonlinear_arith)
                    requires
                        x < grid.width,
                        y < grid.height,
                ;
                let len = grid.tiles.len();
                assert((y as usize) * (grid.width as usize) + (x as usize) < len);
                let row_start = (y as usize) * (grid.width as usize);
                let index = row_start + (x as usize);
                grid.tiles.set(index, gid);
            },
        }
        assert(layers_view(self.layers@) =~= layers_view(old(self).layers@).update(i, self.layers@[i]@));
        assert forall|k: int| 0 <= k < self@.layers.len() implies match #[trigger] self@.layers[k].content {
            ContentModel::Tiles(g) => g.tiles.len() == g.width * g.height,
            ContentModel::Objects(_) => true,
        } by {
            assert(old(self)@.layers[k] == old(self).layers@[k]@);
        }
        Ok(())
    }

    /// Appends a new object to object layer `layer_index`, giving it the next
    /// object id; answers that id.
    pub fn create_object(&mut self, layer_index: usize, shape: ObjectShape, geometry: G) -> (r: Result<u32, EditError>)
        requires
            old(self).next_object_id < u32::MAX,
        ensures
            map_wf(old(self)@) ==> map_wf(final(self)@),
            match create_object_result(old(self)@, layer_index as int, shape, geometry) {
                Ok(m) => r == Ok::<u32, EditError>(old(self).next_object_id) && final(self)@ == m,
                Err(e) => r == Err::<u32, EditError>(e) && final(self)@ == old(self)@,
            },
    {
        if layer_index >= self.layers.len() {
            return Err(EditError::UnknownLayer(layer_index));
        }
        if self.layers[layer_index].locked {
            return Err(EditError::LayerLocked);
        }
        let id = self.next_object_id;
        let ghost i = layer_index as int;
        let ghost before = object_list(self@, i);
        let mut name = "Object ".to_string();
        push_decimal(&mut name, id as u128);
        let object = MapObject {
            id,
            name,
            visible: true,
            shape,
            geometry,
            properties: Vec::new(),
        };
        assert(object@.properties =~= Seq::<PropertyModel>::empty());
        assert(object@ == created_object(id, shape, geometry));
        if let LayerContent::Tiles(_) = &self.layers[layer_index].content {
            return Err(EditError::NotObjectLayer);
        }
        match &mut self.layers[layer_index].content {
            LayerContent::Tiles(_) => {
                assert(false);
            },
            LayerContent::Objects(os) => {
                assert(objects_view(os@) == before.unwrap());
                os.push(object);
                assert(objects_view(os@) =~= before.unwrap().push(created_object(id, shape, geometry)));
            },
        }
        self.next_object_id = id + 1;
        assert(layers_view(self.layers@) =~= layers_view(old(self).layers@).update(i, self.layers@[i]@));
        proof {
            if map_wf(old(self)@) {
                lemma_wf_objects_replaced(old(self)@, i, before.unwrap().push(created_object(id, shape, geometry)));
            }
        }
        Ok(id)
    }

    /// Removes object `id` from object layer `layer_index`.
    pub fn delete_object(&mut self, layer_index: usize, id: u32) -> (r: Result<(), EditError>)
        ensures
            applied(old(self)@, final(self)@, r, delete_object_result(old(self)@, layer_index as int, id)),
    {
        if layer_index >= self.layers.len() {
            return Err(EditError::NotObjectLayer);
        }
        let ghost i = layer_index as int;
        assert(self@.layers[i] == self.layers@[i]@);
        let j = match self.object_position(layer_index, id) {
            None => {
                return match &self.layers[layer_index].content {
                    LayerContent::Tiles(_) => Err(EditError::NotObjectLayer),
                    LayerContent::Objects(_) => Err(EditError::UnknownObject(id)),
                };
            },
            Some(j) => j,
        };
        let ghost before = object_list(self@, i).unwrap();
        proof { lemma_first_with_id_meaning(before, id); }
        match &mut self.layers[layer_index].content {
            LayerContent::Objects(os) => {
                assert(objects_view(os@) == before);
                os.remove(j);
                assert(objects_view(os@) =~= before.remove(j as int));
            },
            LayerContent::Tiles(_) => {
                assert(false);
            },
        }
        assert(layers_view(self.layers@) =~= layers_view(old(self).layers@).update(i, self.layers@[i]@));
        Ok(())
    }

    /// Replaces the geometry of object `id` on layer `layer_index` with what
    /// `update` makes of it.
    pub fn update_object_geometry<F: FnOnce(G) -> G>(&mut self, layer_index: usize, id: u32, update: F) -> (r: Result<(), EditError>)
        where G: Copy,
        requires
            forall|g: G| #[trigger] update.requires((g,)),
        ensures
            match object_list(old(self)@, layer_index as int) {
                None => r == Err::<(), EditError>(EditError::NotObjectLayer) && final(self)@ == old(self)@,
                Some(os) => match first_with_id(os, id) {
                    None => r == Err::<(), EditError>(EditError::UnknownObject(id)) && final(self)@ == old(self)@,
                    Some(j) => r is Ok && exists|g: G| {
                        &&& #[trigger] call_ensures(update, (os[j].geometry,), g)
                        &&& final(self)@ == with_object(old(self)@, layer_index as int, j, ObjectModel { geometry: g, ..os[j] })
                    },
                },
            },
    {
        if layer_index >= self.layers.len() {
            return Err(EditError::NotObjectLayer);
        }
        let ghost i = layer_index as int;
        assert(self@.layers[i] == self.layers@[i]@);
        let j = match self.object_position(layer_index, id) {
            None => {
                return match &self.layers[layer_index].content {
                    LayerContent::Tiles(_) => Err(EditError::NotObjectLayer),
                    LayerContent::Objects(_) => Err(EditError::UnknownObject(id)),
                };
            },
            Some(j) => j,
        };
        let ghost before = object_list(self@, i).unwrap();
        proof { lemma_first_with_id_meaning(before, id); }
        match &mut self.layers[layer_index].content {
            LayerContent::Objects(os) => {
                assert(objects_view(os@) == before);
                let g = os[j].geometry;
                assert(g == before[j as int].geometry);
                let moved = update(g);
                os[j].geometry = moved;
                assert(objects_view(os@) =~= before.update(j as int, ObjectModel { geometry: moved, ..before[j as int] }));
                assert(call_ensures(update, (before[j as int].geometry,), moved));
            },
            LayerContent::Tiles(_) => {
                assert(false);
            },
        }
        assert(layers_view(self.layers@) =~= layers_view(old(self).layers@).update(i, self.layers@[i]@));
        Ok(())
    }

    /// Appends a property named `new_property` with empty text to layer `layer_index`.
    pub fn add_layer_property(&mut self, layer_index: usize) -> (r: Result<(), EditError>)
        ensures
            applied(old(self)@, final(self)@, r, add_layer_property_result(old(self)@, layer_index as int)),
    {
        if layer_index >= self.layers.len() {
            return Err(EditError::UnknownLayer(layer_index));
        }
        let ghost i = layer_index as int;
        let ghost before = old(self)@.layers[i].properties;
        let property = new_property();
        self.layers[layer_index].properties.push(property);
        assert(properties_view(self.layers@[i].properties@) =~= before.push(new_property_model()));
        assert(layers_view(self.layers@) =~= layers_view(old(self).layers@).update(i, self.layers@[i]@));
        Ok(())
    }

    /// Removes property `property_index` of layer `layer_index`, if there is one.
    pub fn remove_layer_property(&mut self, layer_index: usize, property_index: usize) -> (r: Result<(), EditError>)
        ensures
            applied(
                old(self)@,
                final(self)@,
                r,
                remove_layer_property_result(old(self)@, layer_index as int, property_index as int),
            ),
    {
        if layer_index >= self.layers.len() {
            return Err(EditError::UnknownLayer(layer_index));
        }
        let ghost i = layer_index as int;
        let ghost before = old(self)@.layers[i].properties;
        if property_index < self.layers[layer_index].properties.len() {
            self.layers[layer_index].properties.remove(property_index);
            assert(properties_view(self.layers@[i].properties@) =~= before.remove(property_index as int));
            assert(layers_view(self.layers@) =~= layers_view(old(self).layers@).update(i, self.layers@[i]@));
        }
        Ok(())
    }

    /// Renames property `property_index` of layer `layer_index`.
    pub fn rename_layer_property(&mut self, layer_index: usize, property_index: usize, name: String) -> (r: Result<(), EditError>)
        ensures
            applied(
                old(self)@,
                final(self)@,
                r,
                rename_layer_property_result(old(self)@, layer_index as int, property_index as int, name@),
            ),
    {
        if layer_index >= self.layers.len() {
            return Err(EditError::UnknownLayer(layer_index));
        }
        if property_index >= self.layers[layer_index].properties.len() {
            return Err(EditError::UnknownProperty(property_index));
        }
        let ghost i = layer_index as int;
        let ghost p = property_index as int;
        let ghost before = old(self)@.layers[i].properties;
        let ghost new_name = name@;
        self.layers[layer_index].properties[property_index].name = name;
        assert(properties_view(self.layers@[i].properties@) =~= before.update(p, PropertyModel { name: new_name, ..before[p] }));
        assert(layers_view(self.layers@) =~= layers_view(old(self).layers@).update(i, self.layers@[i]@));
        Ok(())
    }

    /// Replaces the value of property `property_index` of layer `layer_index`
    /// with what `parse` makes of the current value; a refusal from `parse`
    /// refuses the edit.
    pub fn update_layer_property_value<F: FnOnce(&PropertyValue) -> Result<PropertyValue, String>>(
        &mut self,
        layer_index: usize,
        property_index: usize,
        parse: F,
    ) -> (r: Result<(), EditError>)
        requires
            forall|v: &PropertyValue| #[trigger] parse.requires((v,)),
        ensures
            layer_value_updated(*old(self), final(self)@, r, parse, layer_index, property_index),
    {
        if layer_index >= self.layers.len() {
            return Err(EditError::UnknownLayer(layer_index));
        }
        assert(old(self)@.layers[layer_index as int] == old(self).layers@[layer_index as int]@);
        if property_index >= self.layers[layer_index].properties.len() {
            return Err(EditError::UnknownProperty(property_index));
        }
        let ghost i = layer_index as int;
        let ghost p = property_index as int;
        let ghost before = old(self)@.layers[i].properties;
        let out = parse(&self.layers[layer_index].properties[property_index].value);
        match out {
            Ok(v) => {
                let ghost nv = v;
                self.layers[layer_index].properties[property_index].value = v;
                assert(properties_view(self.layers@[i].properties@) =~= before.update(
                    p,
                    PropertyModel { kind: nv.kind, text: nv.text@, ..before[p] },
                ));
                assert(layers_view(self.layers@) =~= layers_view(old(self).layers@).update(i, self.layers@[i]@));
                Ok(())
            },
            Err(message) => Err(EditError::Rejected(message)),
        }
    }

    /// Appends a property named `new_property` with empty text to object `id` of layer `layer_index`.
    pub fn add_object_property(&mut self, layer_index: usize, id: u32) -> (r: Result<(), EditError>)
        ensures
            applied(old(self)@, final(self)@, r, add_object_property_result(old(self)@, layer_index as int, id)),
    {
        let j = match self.object_position(layer_index, id) {
            None => return Err(EditError::UnknownObject(id)),
            Some(j) => j,
        };
        let ghost i = layer_index as int;
        let ghost before = object_list(self@, i).unwrap();
        proof { lemma_first_with_id_meaning(before, id); }
        let property = new_property();
        match &mut self.layers[layer_index].content {
            LayerContent::Objects(os) => {
                assert(objects_view(os@) == before);
                os[j].properties.push(property);
                let ghost ps = before[j as int].properties.push(new_property_model());
                assert(properties_view(os@[j as int].properties@) =~= ps);
                assert(objects_view(os@) =~= before.update(j as int, ObjectModel { properties: ps, ..before[j as int] }));
            },
            LayerContent::Tiles(_) => {
                assert(false);
            },
        }
        assert(layers_view(self.layers@) =~= layers_view(old(self).layers@).update(i, self.layers@[i]@));
        Ok(())
    }

    /// Removes property `property_index` of object `id` of layer `layer_index`, if there is one.
    pub fn remove_object_property(&mut self, layer_index: usize, id: u32, property_index: usize) -> (r: Result<(), EditError>)
        ensures
            applied(
                old(self)@,
                final(self)@,
                r,
                remove_object_property_result(old(self)@, layer_index as int, id, property_index as int),
            ),
    {
        let j = match self.object_position(layer_index, id) {
            None => return Err(EditError::UnknownObject(id)),
            Some(j) => j,
        };
        let ghost i = layer_index as int;
        let ghost before = object_list(self@, i).unwrap();
        proof { lemma_first_with_id_meaning(before, id); }
        let count = match &self.layers[layer_index].content {
            LayerContent::Objects(os) => os[j].properties.len(),
            LayerContent::Tiles(_) => 0,
        };
        assert(count == before[j as int].properties.len());
        if property_index >= count {
            return Ok(());
        }
        match &mut self.layers[layer_index].content {
            LayerContent::Objects(os) => {
                assert(objects_view(os@) == before);
                os[j].properties.remove(property_index);
                let ghost ps = before[j as int].properties.remove(property_index as int);
                assert(properties_view(os@[j as int].properties@) =~= ps);
                assert(objects_view(os@) =~= before.update(j as int, ObjectModel { properties: ps, ..before[j as int] }));
            },
            LayerContent::Tiles(_) => {
                assert(false);
            },
        }
        assert(layers_view(self.layers@) =~= layers_view(old(self).layers@).update(i, self.layers@[i]@));
        Ok(())
    }

    /// Renames property `property_index` of object `id` of layer `layer_index`.
    pub fn rename_object_property(&mut self, layer_index: usize, id: u32, property_index: usize, name: String) -> (r: Result<(), EditError>)
        ensures
            applied(
                old(self)@,
                final(self)@,
                r,
                rename_object_property_result(old(self)@, layer_index as int, id, property_index as int, name@),
            ),
    {
        let j = match self.object_position(layer_index, id) {
            None => return Err(EditError::UnknownProperty(property_index)),
            Some(j) => j,
        };
        let ghost i = layer_index as int;
        let ghost before = object_list(self@, i).unwrap();
        proof { lemma_first_with_id_meaning(before, id); }
        let count = match &self.layers[layer_index].content {
            LayerContent::Objects(os) => os[j].properties.len(),
            LayerContent::Tiles(_) => 0,
        };
        assert(count == before[j as int].properties.len());
        if property_index >= count {
            return Err(EditError::UnknownProperty(property_index));
        }
        let ghost new_name = name@;
        match &mut self.layers[layer_index].content {
            LayerContent::Objects(os) => {
                assert(objects_view(os@) == before);
                os[j].properties[property_index].name = name;
                let ghost old_ps = before[j as int].properties;
                let ghost ps = old_ps.update(property_index as int, PropertyModel { name: new_name, ..old_ps[property_index as int] });
                assert(properties_view(os@[j as int].properties@) =~= ps);
                assert(objects_view(os@) =~= before.update(j as int, ObjectModel { properties: ps, ..before[j as int] }));
            },
            LayerContent::Tiles(_) => {
                assert(false);
            },
        }
        assert(layers_view(self.layers@) =~= layers_view(old(self).layers@).update(i, self.layers@[i]@));
        Ok(())
    }

    /// Replaces the value of property `property_index` of object `id` of layer
    /// `layer_index` with what `parse` makes of the current value; a refusal
    /// from `parse` refuses the edit.
    pub fn update_object_property_value<F: FnOnce(&PropertyValue) -> Result<PropertyValue, String>>(
        &mut self,
        layer_index: usize,
        id: u32,
        property_index: usize,
        parse: F,
    ) -> (r: Result<(), EditError>)
        requires
            forall|v: &PropertyValue| #[trigger] parse.requires((v,)),
        ensures
            object_value_updated(*old(self), final(self)@, r, parse, layer_index, id, property_index),
    {
        let j = match self.object_position(layer_index, id) {
            None => return Err(EditError::UnknownProperty(property_index)),
            Some(j) => j,
        };
        let ghost i = layer_index as int;
        let ghost before = object_list(self@, i).unwrap();
        proof { lemma_first_with_id_meaning(before, id); }
        let count = match &self.layers[layer_index].content {
            LayerContent::Objects(os) => os[j].properties.len(),
            LayerContent::Tiles(_) => 0,
        };
        assert(count == before[j as int].properties.len());
        if property_index >= count {
            return Err(EditError::UnknownProperty(property_index));
        }
        let out = match &self.layers[layer_index].content {
            LayerContent::Objects(os) => parse(&os[j].properties[property_index].value),
            LayerContent::Tiles(_) => {
                assert(false);
                Err(String::new())
            },
        };
        match out {
            Ok(v) => {
                let ghost nv = v;
                match &mut self.layers[layer_index].content {
                    LayerContent::Objects(os) => {
                        assert(objects_view(os@) == before);
                        os[j].properties[property_index].value = v;
                        let ghost old_ps = before[j as int].properties;
                        let ghost ps = old_ps.update(property_index as int, PropertyModel { kind: nv.kind, text: nv.text@, ..old_ps[property_index as int] });
                        assert(properties_view(os@[j as int].properties@) =~= ps);
                        assert(objects_view(os@) =~= before.update(j as int, ObjectModel { properties: ps, ..before[j as int] }));
                    },
                    LayerContent::Tiles(_) => {
                        assert(false);
                    },
                }
                assert(layers_view(self.layers@) =~= layers_view(old(self).layers@).update(i, self.layers@[i]@));
                Ok(())
            },
            Err(message) => Err(EditError::Rejected(message)),
        }
    }
}

/// The value of property `p` of object `j` of an object layer.
pub open spec fn object_value<G>(l: Layer<G>, j: int, p: int) -> PropertyValue {
    match l.content {
        LayerContent::Objects(os) => os@[j].properties@[p].value,
        LayerContent::Tiles(_) => vstd::pervasive::arbitrary(),
    }
}

/// A property named `new_property` with empty text.
pub fn new_property() -> (p: Property)
    ensures
        p@ == new_property_model(),
{
    Property {
        name: "new_property".to_string(),
        value: PropertyValue { kind: PropertyKind::Text, text: String::new() },
    }
}

} // verus!
