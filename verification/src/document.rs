//! The map document that the editor works on: layers of tiles or objects,
//! tilesets, and the custom properties attached to layers and objects.
//!
//! Object geometry is carried as a type parameter `G`: the editing rules
//! store and move it but never compute with it.
use vstd::prelude::*;

verus! {

/// The two kinds of map object the editor creates.
#[derive(Clone, Copy, PartialEq, Eq, Structural, Debug)]
pub enum ObjectShape {
    Rectangle,
    Point,
}

/// The declared type of a custom property value.
#[derive(Clone, Copy, PartialEq, Eq, Structural, Debug)]
pub enum PropertyKind {
    Text,
    Integer,
    Decimal,
    Boolean,
    Color,
    File,
    ObjectRef,
}

/// A custom property value: its declared kind and its textual form.
pub struct PropertyValue {
    pub kind: PropertyKind,
    pub text: String,
}

/// A named custom property.
pub struct Property {
    pub name: String,
    pub value: PropertyValue,
}

/// An object placed on an object layer.
pub struct MapObject<G> {
    pub id: u32,
    pub name: String,
    pub visible: bool,
    pub shape: ObjectShape,
    pub geometry: G,
    pub properties: Vec<Property>,
}

/// A rectangular grid of global tile ids, stored row by row; 0 is an empty cell.
pub struct TileGrid {
    pub width: u32,
    pub height: u32,
    pub tiles: Vec<u32>,
}

/// What a layer holds.
pub enum LayerContent<G> {
    Tiles(TileGrid),
    Objects(Vec<MapObject<G>>),
}

/// A map layer.
pub struct Layer<G> {
    pub name: String,
    pub visible: bool,
    pub locked: bool,
    pub properties: Vec<Property>,
    pub content: LayerContent<G>,
}

/// A tileset used by the map, with the first global id assigned to its tiles.
pub struct Tileset {
    pub name: String,
    pub first_gid: u32,
    pub tile_count: u32,
    pub columns: u32,
    pub tile_width: u32,
    pub tile_height: u32,
    pub image_width: u32,
    pub image_height: u32,
}

/// A tile map: its size in cells, the size of one cell in pixels, the id the
/// next created object receives, its layers (bottom first) and its tilesets.
pub struct TileMap<G> {
    pub width: u32,
    pub height: u32,
    pub tile_width: u32,
    pub tile_height: u32,
    pub next_object_id: u32,
    pub layers: Vec<Layer<G>>,
    pub tilesets: Vec<Tileset>,
}

// ---------------------------------------------------------------------------
// Mathematical models
// ---------------------------------------------------------------------------

pub struct PropertyModel {
    pub name: Seq<char>,
    pub kind: PropertyKind,
    pub text: Seq<char>,
}

pub struct ObjectModel<G> {
    pub id: u32,
    pub name: Seq<char>,
    pub visible: bool,
    pub shape: ObjectShape,
    pub geometry: G,
    pub properties: Seq<PropertyModel>,
}

pub struct GridModel {
    pub width: u32,
    pub height: u32,
    pub tiles: Seq<u32>,
}

pub enum ContentModel<G> {
    Tiles(GridModel),
    Objects(Seq<ObjectModel<G>>),
}

pub struct LayerModel<G> {
    pub name: Seq<char>,
    pub visible: bool,
    pub locked: bool,
    pub properties: Seq<PropertyModel>,
    pub content: ContentModel<G>,
}

pub struct MapModel<G> {
    pub width: u32,
    pub height: u32,
    pub tile_width: u32,
    pub tile_height: u32,
    pub next_object_id: u32,
    pub layers: Seq<LayerModel<G>>,
    pub tilesets: Seq<Tileset>,
}

impl View for Property {
    type V = PropertyModel;

    open spec fn view(&self) -> PropertyModel {
        PropertyModel { name: self.name@, kind: self.value.kind, text: self.value.text@ }
    }
}

pub open spec fn properties_view(ps: Seq<Property>) -> Seq<PropertyModel> {
    ps.map_values(|p: Property| p@)
}

impl<G> View for MapObject<G> {
    type V = ObjectModel<G>;

    open spec fn view(&self) -> ObjectModel<G> {
        ObjectModel {
            id: self.id,
            name: self.name@,
            visible: self.visible,
            shape: self.shape,
            geometry: self.geometry,
            properties: properties_view(self.properties@),
        }
    }
}

pub open spec fn objects_view<G>(os: Seq<MapObject<G>>) -> Seq<ObjectModel<G>> {
    os.map_values(|o: MapObject<G>| o@)
}

impl View for TileGrid {
    type V = GridModel;

    open spec fn view(&self) -> GridModel {
        GridModel { width: self.width, height: self.height, tiles: self.tiles@ }
    }
}

impl<G> View for Layer<G> {
    type V = LayerModel<G>;

    open spec fn view(&self) -> LayerModel<G> {
        LayerModel {
            name: self.name@,
            visible: self.visible,
            locked: self.locked,
            properties: properties_view(self.properties@),
            content: match self.content {
                LayerContent::Tiles(grid) => ContentModel::Tiles(grid@),
                LayerContent::Objects(objects) => ContentModel::Objects(objects_view(objects@)),
            },
        }
    }
}

pub open spec fn layers_view<G>(ls: Seq<Layer<G>>) -> Seq<LayerModel<G>> {
    ls.map_values(|l: Layer<G>| l@)
}

impl<G> View for TileMap<G> {
    type V = MapModel<G>;

    open spec fn view(&self) -> MapModel<G> {
        MapModel {
            width: self.width,
            height: self.height,
            tile_width: self.tile_width,
            tile_height: self.tile_height,
            next_object_id: self.next_object_id,
            layers: layers_view(self.layers@),
            tilesets: self.tilesets@,
        }
    }
}

impl<G> TileMap<G> {
    /// The map's width in pixels.
    pub fn total_pixel_width(&self) -> (w: u32)
        requires
            self.width * self.tile_width <= u32::MAX,
        ensures
            w == self.width * self.tile_width,
    {
        self.width * self.tile_width
    }

    /// The map's height in pixels.
    pub fn total_pixel_height(&self) -> (h: u32)
        requires
            self.height * self.tile_height <= u32::MAX,
        ensures
            h == self.height * self.tile_height,
    {
        self.height * self.tile_height
    }
}

} // verus!
