//! Properties that relate several edits of the map.
use vstd::prelude::*;
use crate::document::{ContentModel, LayerModel, MapModel, ObjectModel, ObjectShape};
use crate::edit::{
    add_layer_property_result, add_object_property_result, create_object_result, created_object,
    delete_object_result, is_first_with_id, lemma_first_with_id, lemma_first_with_id_meaning, object_at,
    object_list, remove_layer_property_result, remove_object_property_result, rename_layer_property_result,
    rename_layer_result, rename_object_property_result, rename_object_result, set_tile_result,
    toggle_lock_result, toggle_visibility_result,
};

verus! {

/// Every object of the map has an id below the id the next object receives.
pub open spec fn ids_below_next<G>(m: MapModel<G>) -> bool {
    forall|i: int, j: int|
        #![trigger object_list(m, i).unwrap()[j]]
        object_list(m, i) is Some && 0 <= j < object_list(m, i).unwrap().len()
            ==> object_list(m, i).unwrap()[j].id < m.next_object_id
}

/// The global id stored in cell (x, y) of layer `i`, when that layer is a tile
/// layer holding the cell.
pub open spec fn tile_in<G>(m: MapModel<G>, i: int, x: u32, y: u32) -> Option<u32> {
    if 0 <= i < m.layers.len() {
        match m.layers[i].content {
            ContentModel::Tiles(g) => if x < g.width && y < g.height {
                Some(g.tiles[y * g.width + x])
            } else {
                None
            },
            ContentModel::Objects(_) => None,
        }
    } else {
        None
    }
}

/// Showing or hiding a layer twice leaves the map as it was.
pub proof fn toggle_visibility_twice<G>(m: MapModel<G>, i: int)
    requires
        0 <= i < m.layers.len(),
    ensures
        toggle_visibility_result(toggle_visibility_result(m, i).unwrap(), i) == Ok::<MapModel<G>, crate::edit::EditError>(m),
{
    let once = toggle_visibility_result(m, i).unwrap();
    let twice = toggle_visibility_result(once, i).unwrap();
    assert(twice.layers =~= m.layers);
}

/// Locking or unlocking a layer twice leaves the map as it was.
pub proof fn toggle_lock_twice<G>(m: MapModel<G>, i: int)
    requires
        0 <= i < m.layers.len(),
    ensures
        toggle_lock_result(toggle_lock_result(m, i).unwrap(), i) == Ok::<MapModel<G>, crate::edit::EditError>(m),
{
    let once = toggle_lock_result(m, i).unwrap();
    let twice = toggle_lock_result(once, i).unwrap();
    assert(twice.layers =~= m.layers);
}

/// A tile written into a cell is what the cell then holds; every other cell of
/// every layer keeps its tile.
pub proof fn painted_tile_reads_back<G>(m: MapModel<G>, i: int, x: u32, y: u32, gid: u32, k: int, cx: u32, cy: u32)
    requires
        crate::edit::map_wf(m),
        set_tile_result(m, i, x, y, gid) is Ok,
    ensures
        tile_in(set_tile_result(m, i, x, y, gid).unwrap(), i, x, y) == Some(gid),
        (k != i || cx != x || cy != y) ==> tile_in(set_tile_result(m, i, x, y, gid).unwrap(), k, cx, cy)
            == tile_in(m, k, cx, cy),
{
    let n = set_tile_result(m, i, x, y, gid).unwrap();
    let g = match m.layers[i].content {
        ContentModel::Tiles(g) => g,
        ContentModel::Objects(_) => arbitrary(),
    };
    assert(g.tiles.len() == g.width * g.height);
    assert(y * g.width + x < g.width * g.height) by (nonlinear_arith)
        requires
            x < g.width,
            y < g.height,
    ;
    if k == i && (cx != x || cy != y) && cx < g.width && cy < g.height {
        assert(cy * g.width + cx != y * g.width + x) by (nonlinear_arith)
            requires
                cx < g.width,
                x < g.width,
                cx != x || cy != y,
        {
            if cy == y {
            } else if cy < y {
                assert(cy * g.width + g.width <= y * g.width);
            } else {
                assert(y * g.width + g.width <= cy * g.width);
            }
        }
        assert(cy * g.width + cx < g.width * g.height) by (nonlinear_arith)
            requires
                cx < g.width,
                cy < g.height,
        ;
    }
}

/// Writing a cell twice leaves what the second write alone leaves.
pub proof fn second_paint_wins<G>(m: MapModel<G>, i: int, x: u32, y: u32, first: u32, second: u32)
    requires
        crate::edit::map_wf(m),
        set_tile_result(m, i, x, y, first) is Ok,
    ensures
        set_tile_result(set_tile_result(m, i, x, y, first).unwrap(), i, x, y, second) == set_tile_result(m, i, x, y, second),
{
    let once = set_tile_result(m, i, x, y, first).unwrap();
    let g = match m.layers[i].content {
        ContentModel::Tiles(g) => g,
        ContentModel::Objects(_) => arbitrary(),
    };
    let idx = y * g.width + x;
    assert(g.tiles.len() == g.width * g.height);
    assert(idx < g.width * g.height) by (nonlinear_arith)
        requires
            x < g.width,
            y < g.height,
            idx == y * g.width + x,
    ;
    assert(g.tiles.update(idx, first).update(idx, second) =~= g.tiles.update(idx, second));
    assert(set_tile_result(once, i, x, y, second).unwrap().layers =~= set_tile_result(m, i, x, y, second).unwrap().layers);
}

/// Creating an object keeps every id below the next one, and the new object's
/// id is held by no other object.
pub proof fn created_id_is_fresh<G>(m: MapModel<G>, i: int, shape: ObjectShape, geometry: G)
    requires
        ids_below_next(m),
        m.next_object_id < u32::MAX,
        create_object_result(m, i, shape, geometry) is Ok,
    ensures
        ids_below_next(create_object_result(m, i, shape, geometry).unwrap()),
        forall|j: int| 0 <= j < object_list(m, i).unwrap().len() ==> #[trigger] object_list(m, i).unwrap()[j].id
            != m.next_object_id,
{
    let n = create_object_result(m, i, shape, geometry).unwrap();
    let os = object_list(m, i).unwrap();
    assert forall|j: int| 0 <= j < os.len() implies #[trigger] os[j].id != m.next_object_id by {
        assert(os[j].id < m.next_object_id);
    }
    assert forall|k: int, j: int|
        object_list(n, k) is Some && 0 <= j < object_list(n, k).unwrap().len() implies #[trigger] object_list(n, k).unwrap()[j].id
        < n.next_object_id by {
        if k != i {
            assert(n.layers[k] == m.layers[k]);
            assert(object_list(n, k) == object_list(m, k));
            assert(object_list(m, k).unwrap()[j].id < m.next_object_id);
        } else if j < os.len() {
            assert(object_list(n, k).unwrap()[j] == os[j]);
            assert(os[j].id < m.next_object_id);
        }
    }
}

/// Deleting the object just created restores the map, but for the next
/// object id, which stays advanced.
pub proof fn delete_undoes_create<G>(m: MapModel<G>, i: int, shape: ObjectShape, geometry: G)
    requires
        ids_below_next(m),
        m.next_object_id < u32::MAX,
        create_object_result(m, i, shape, geometry) is Ok,
    ensures
        delete_object_result(create_object_result(m, i, shape, geometry).unwrap(), i, m.next_object_id)
            == Ok::<MapModel<G>, crate::edit::EditError>(MapModel { next_object_id: (m.next_object_id + 1) as u32, ..m }),
{
    created_id_is_fresh(m, i, shape, geometry);
    let n = create_object_result(m, i, shape, geometry).unwrap();
    let os = object_list(m, i).unwrap();
    let id = m.next_object_id;
    let new_os = os.push(created_object(id, shape, geometry));
    assert(object_list(n, i) == Some(new_os));
    assert(is_first_with_id(new_os, id, os.len() as int)) by {
        assert forall|k: int| 0 <= k < os.len() implies new_os[k].id != id by {
            assert(new_os[k] == os[k]);
        }
    }
    lemma_first_with_id(new_os, id, os.len() as int);
    assert(new_os.remove(os.len() as int) =~= os);
    let d = delete_object_result(n, i, id).unwrap();
    assert(d.layers =~= m.layers) by {
        assert(d.layers[i] == LayerModel { content: ContentModel::Objects(os), ..m.layers[i] });
        assert(m.layers[i].content == ContentModel::Objects(os));
    }
}

/// Removing the property just added to a layer restores the map.
pub proof fn remove_undoes_add_layer_property<G>(m: MapModel<G>, i: int)
    requires
        0 <= i < m.layers.len(),
    ensures
        remove_layer_property_result(add_layer_property_result(m, i).unwrap(), i, m.layers[i].properties.len() as int)
            == Ok::<MapModel<G>, crate::edit::EditError>(m),
{
    let n = add_layer_property_result(m, i).unwrap();
    let ps = m.layers[i].properties;
    assert(n.layers[i].properties.remove(ps.len() as int) =~= ps);
    let back = remove_layer_property_result(n, i, ps.len() as int).unwrap();
    assert(back.layers =~= m.layers);
}

/// Removing the property just added to an object restores the map.
pub proof fn remove_undoes_add_object_property<G>(m: MapModel<G>, i: int, id: u32)
    requires
        object_at(m, i, id) is Some,
    ensures
        remove_object_property_result(
            add_object_property_result(m, i, id).unwrap(),
            i,
            id,
            object_list(m, i).unwrap()[object_at(m, i, id).unwrap()].properties.len() as int,
        ) == Ok::<MapModel<G>, crate::edit::EditError>(m),
{
    let os = object_list(m, i).unwrap();
    let j = object_at(m, i, id).unwrap();
    lemma_first_with_id_meaning(os, id);
    let o = os[j];
    let added = ObjectModel { properties: o.properties.push(crate::edit::new_property_model()), ..o };
    let n = add_object_property_result(m, i, id).unwrap();
    let new_os = os.update(j, added);
    assert(object_list(n, i) == Some(new_os));
    assert(is_first_with_id(new_os, id, j)) by {
        assert forall|k: int| 0 <= k < j implies new_os[k].id != id by {
            assert(new_os[k] == os[k]);
        }
    }
    lemma_first_with_id(new_os, id, j);
    assert(added.properties.remove(o.properties.len() as int) =~= o.properties);
    let back = remove_object_property_result(n, i, id, o.properties.len() as int).unwrap();
    assert(new_os.update(j, ObjectModel { properties: o.properties, ..added }) =~= os);
    assert(back.layers =~= m.layers) by {
        assert(m.layers[i].content == ContentModel::Objects(os));
    }
}

/// Renaming a layer property changes only its name: its kind and text stay,
/// every other property of the layer and every other layer stay as they were.
pub proof fn rename_layer_property_keeps_value<G>(m: MapModel<G>, i: int, p: int, name: Seq<char>)
    requires
        rename_layer_property_result(m, i, p, name) is Ok,
    ensures
        ({
            let n = rename_layer_property_result(m, i, p, name).unwrap();
            &&& 0 <= i < m.layers.len()
            &&& 0 <= p < m.layers[i].properties.len()
            &&& n.layers.len() == m.layers.len()
            &&& n.layers[i].properties.len() == m.layers[i].properties.len()
            &&& n.layers[i].properties[p].name == name
            &&& n.layers[i].properties[p].kind == m.layers[i].properties[p].kind
            &&& n.layers[i].properties[p].text == m.layers[i].properties[p].text
            &&& forall|q: int| 0 <= q < m.layers[i].properties.len() && q != p ==> #[trigger] n.layers[i].properties[q]
                == m.layers[i].properties[q]
            &&& n.layers[i].name == m.layers[i].name
            &&& n.layers[i].visible == m.layers[i].visible
            &&& n.layers[i].locked == m.layers[i].locked
            &&& n.layers[i].content == m.layers[i].content
            &&& forall|k: int| 0 <= k < m.layers.len() && k != i ==> #[trigger] n.layers[k] == m.layers[k]
            &&& n.tilesets == m.tilesets
            &&& n.next_object_id == m.next_object_id
        }),
{
}

/// Renaming an object property changes only its name: its kind and text stay,
/// and every other property of the object stays as it was.
pub proof fn rename_object_property_keeps_value<G>(m: MapModel<G>, i: int, id: u32, p: int, name: Seq<char>)
    requires
        rename_object_property_result(m, i, id, p, name) is Ok,
    ensures
        ({
            let n = rename_object_property_result(m, i, id, p, name).unwrap();
            let j = object_at(m, i, id).unwrap();
            let before = object_list(m, i).unwrap()[j];
            let after = object_list(n, i).unwrap()[j];
            &&& object_at(m, i, id) is Some
            &&& object_list(n, i) is Some
            &&& object_list(n, i).unwrap().len() == object_list(m, i).unwrap().len()
            &&& 0 <= p < before.properties.len()
            &&& after.properties.len() == before.properties.len()
            &&& after.properties[p].name == name
            &&& after.properties[p].kind == before.properties[p].kind
            &&& after.properties[p].text == before.properties[p].text
            &&& forall|q: int| 0 <= q < before.properties.len() && q != p ==> #[trigger] after.properties[q]
                == before.properties[q]
            &&& after.id == before.id
            &&& after.name == before.name
            &&& after.geometry == before.geometry
        }),
{
    let os = object_list(m, i).unwrap();
    let j = object_at(m, i, id).unwrap();
    lemma_first_with_id_meaning(os, id);
}

/// Showing or hiding a layer flips its visibility and changes nothing else;
/// an unknown layer is refused.
pub proof fn toggle_visibility_flips<G>(m: MapModel<G>, i: int)
    ensures
        !(0 <= i < m.layers.len()) ==> toggle_visibility_result(m, i) is Err,
        0 <= i < m.layers.len() ==> {
            let n = toggle_visibility_result(m, i).unwrap();
            &&& toggle_visibility_result(m, i) is Ok
            &&& n.layers.len() == m.layers.len()
            &&& n.layers[i].visible == !m.layers[i].visible
            &&& n.layers[i].locked == m.layers[i].locked
            &&& n.layers[i].name == m.layers[i].name
            &&& n.layers[i].properties == m.layers[i].properties
            &&& n.layers[i].content == m.layers[i].content
            &&& forall|k: int| 0 <= k < m.layers.len() && k != i ==> #[trigger] n.layers[k] == m.layers[k]
            &&& n.tilesets == m.tilesets
            &&& n.next_object_id == m.next_object_id
        },
{
}

/// Locking or unlocking a layer flips its lock and changes nothing else; an
/// unknown layer is refused.
pub proof fn toggle_lock_flips<G>(m: MapModel<G>, i: int)
    ensures
        !(0 <= i < m.layers.len()) ==> toggle_lock_result(m, i) is Err,
        0 <= i < m.layers.len() ==> {
            let n = toggle_lock_result(m, i).unwrap();
            &&& toggle_lock_result(m, i) is Ok
            &&& n.layers.len() == m.layers.len()
            &&& n.layers[i].locked == !m.layers[i].locked
            &&& n.layers[i].visible == m.layers[i].visible
            &&& n.layers[i].name == m.layers[i].name
            &&& n.layers[i].properties == m.layers[i].properties
            &&& n.layers[i].content == m.layers[i].content
            &&& forall|k: int| 0 <= k < m.layers.len() && k != i ==> #[trigger] n.layers[k] == m.layers[k]
            &&& n.tilesets == m.tilesets
            &&& n.next_object_id == m.next_object_id
        },
{
}

/// Renaming a layer gives it the new name and changes nothing else.
pub proof fn rename_layer_sets_only_the_name<G>(m: MapModel<G>, i: int, name: Seq<char>)
    requires
        0 <= i < m.layers.len(),
    ensures
        ({
            let n = rename_layer_result(m, i, name).unwrap();
            &&& rename_layer_result(m, i, name) is Ok
            &&& n.layers.len() == m.layers.len()
            &&& n.layers[i].name == name
            &&& n.layers[i].visible == m.layers[i].visible
            &&& n.layers[i].locked == m.layers[i].locked
            &&& n.layers[i].properties == m.layers[i].properties
            &&& n.layers[i].content == m.layers[i].content
            &&& forall|k: int| 0 <= k < m.layers.len() && k != i ==> #[trigger] n.layers[k] == m.layers[k]
            &&& n.tilesets == m.tilesets
            &&& n.next_object_id == m.next_object_id
        }),
{
}

/// A tile is written only into a cell of an unlocked tile layer that has the
/// cell; anything else is refused.
pub proof fn paint_refusals<G>(m: MapModel<G>, i: int, x: u32, y: u32, gid: u32)
    ensures
        set_tile_result(m, i, x, y, gid) is Ok <==> (0 <= i < m.layers.len() && !m.layers[i].locked && tile_in(m, i, x, y)
            is Some),
{
}

/// Creating an object appends, at the end of the layer's objects, a visible
/// object named "Object <id>" with the map's next id, the given shape and
/// geometry and no properties; the next id then advances and the other
/// objects stay as they were.
pub proof fn create_appends_a_fresh_object<G>(m: MapModel<G>, i: int, shape: ObjectShape, geometry: G)
    requires
        create_object_result(m, i, shape, geometry) is Ok,
        m.next_object_id < u32::MAX,
    ensures
        ({
            let n = create_object_result(m, i, shape, geometry).unwrap();
            let before = object_list(m, i).unwrap();
            let after = object_list(n, i).unwrap();
            &&& 0 <= i < m.layers.len()
            &&& !m.layers[i].locked
            &&& object_list(m, i) is Some
            &&& object_list(n, i) is Some
            &&& after.len() == before.len() + 1
            &&& forall|k: int| 0 <= k < before.len() ==> #[trigger] after[k] == before[k]
            &&& after[before.len() as int].id == m.next_object_id
            &&& after[before.len() as int].name == "Object "@ + crate::text::decimal(m.next_object_id as nat)
            &&& after[before.len() as int].visible
            &&& after[before.len() as int].shape == shape
            &&& after[before.len() as int].geometry == geometry
            &&& after[before.len() as int].properties.len() == 0
            &&& n.next_object_id == m.next_object_id + 1
            &&& forall|k: int| 0 <= k < m.layers.len() && k != i ==> #[trigger] n.layers[k] == m.layers[k]
        }),
{
    let n = create_object_result(m, i, shape, geometry).unwrap();
    let before = object_list(m, i).unwrap();
    let o = created_object(m.next_object_id, shape, geometry);
    assert(n.layers[i].content == ContentModel::Objects(before.push(o)));
    assert(object_list(n, i) == Some(before.push(o)));
    assert(before.push(o)[before.len() as int] == o);
}

/// Deleting an object removes the first object with that id from its layer,
/// keeping the others in order; the map's next id stays.
pub proof fn delete_removes_the_object<G>(m: MapModel<G>, i: int, id: u32)
    requires
        delete_object_result(m, i, id) is Ok,
    ensures
        ({
            let n = delete_object_result(m, i, id).unwrap();
            let before = object_list(m, i).unwrap();
            let after = object_list(n, i).unwrap();
            let j = object_at(m, i, id).unwrap();
            &&& object_at(m, i, id) is Some
            &&& 0 <= j < before.len()
            &&& before[j].id == id
            &&& forall|k: int| 0 <= k < j ==> #[trigger] before[k].id != id
            &&& object_list(n, i) is Some
            &&& after.len() == before.len() - 1
            &&& forall|k: int| 0 <= k < j ==> #[trigger] after[k] == before[k]
            &&& forall|k: int| j <= k < after.len() ==> #[trigger] after[k] == before[k + 1]
            &&& n.next_object_id == m.next_object_id
            &&& forall|k: int| 0 <= k < m.layers.len() && k != i ==> #[trigger] n.layers[k] == m.layers[k]
        }),
{
    let os = object_list(m, i).unwrap();
    lemma_first_with_id_meaning(os, id);
}

/// Renaming an object changes only its name.
pub proof fn rename_object_sets_only_the_name<G>(m: MapModel<G>, i: int, id: u32, name: Seq<char>)
    requires
        rename_object_result(m, i, id, name) is Ok,
    ensures
        ({
            let n = rename_object_result(m, i, id, name).unwrap();
            let before = object_list(m, i).unwrap();
            let after = object_list(n, i).unwrap();
            let j = object_at(m, i, id).unwrap();
            &&& object_at(m, i, id) is Some
            &&& before[j].id == id
            &&& object_list(n, i) is Some
            &&& after.len() == before.len()
            &&& after[j].name == name
            &&& after[j].id == before[j].id
            &&& after[j].visible == before[j].visible
            &&& after[j].shape == before[j].shape
            &&& after[j].geometry == before[j].geometry
            &&& after[j].properties == before[j].properties
            &&& forall|k: int| 0 <= k < before.len() && k != j ==> #[trigger] after[k] == before[k]
        }),
{
    let os = object_list(m, i).unwrap();
    lemma_first_with_id_meaning(os, id);
}

/// Adding a layer property appends one named "new_property", of kind text
/// and empty, after the layer's other properties.
pub proof fn add_layer_property_appends<G>(m: MapModel<G>, i: int)
    requires
        0 <= i < m.layers.len(),
    ensures
        ({
            let n = add_layer_property_result(m, i).unwrap();
            let before = m.layers[i].properties;
            let after = n.layers[i].properties;
            &&& add_layer_property_result(m, i) is Ok
            &&& after.len() == before.len() + 1
            &&& forall|q: int| 0 <= q < before.len() ==> #[trigger] after[q] == before[q]
            &&& after[before.len() as int].name == "new_property"@
            &&& after[before.len() as int].kind == crate::document::PropertyKind::Text
            &&& after[before.len() as int].text.len() == 0
            &&& n.layers[i].content == m.layers[i].content
            &&& forall|k: int| 0 <= k < m.layers.len() && k != i ==> #[trigger] n.layers[k] == m.layers[k]
        }),
{
}

/// Removing layer property `p` drops exactly that property, keeping the
/// others in order; an index past the end changes nothing.
pub proof fn remove_layer_property_drops_one<G>(m: MapModel<G>, i: int, p: int)
    requires
        0 <= i < m.layers.len(),
    ensures
        ({
            let n = remove_layer_property_result(m, i, p).unwrap();
            let before = m.layers[i].properties;
            let after = n.layers[i].properties;
            &&& remove_layer_property_result(m, i, p) is Ok
            &&& !(0 <= p < before.len()) ==> n == m
            &&& 0 <= p < before.len() ==> {
                &&& after.len() == before.len() - 1
                &&& forall|q: int| 0 <= q < p ==> #[trigger] after[q] == before[q]
                &&& forall|q: int| p <= q < after.len() ==> #[trigger] after[q] == before[q + 1]
                &&& n.layers[i].content == m.layers[i].content
                &&& forall|k: int| 0 <= k < m.layers.len() && k != i ==> #[trigger] n.layers[k] == m.layers[k]
            }
        }),
{
}

} // verus!
