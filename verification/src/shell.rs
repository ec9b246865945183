//! Text and class names of the mobile shell: headers, tool chips and the
//! dashboard's sample thumbnails.
use vstd::prelude::*;
use crate::edit_ops::Tool;

verus! {

/// The final component of a path, as `std::path::Path::file_name` reads it
/// under the path rules of the platform the library is built for.
pub uninterp spec fn path_file_name(path: Seq<char>) -> Option<Seq<char>>;

/// Calls `std::path::Path::file_name` on `path` and turns the component back
/// into text. The contract names the result only: it is the final component
/// of the path, absent when there is none or the path ends in `..`. A `&str`
/// is valid UTF-8, so turning the component back into text cannot fail; what
/// counts as a separator is left unsaid, as it depends on the build target.
#[verifier::external_body]
fn file_name(path: &str) -> (name: Option<String>)
    ensures
        match name {
            Some(n) => path_file_name(path@) == Some(n@),
            None => path_file_name(path@) is None,
        },
{
    std::path::Path::new(path).file_name().and_then(|n| n.to_str()).map(|n| n.to_string())
}

/// The title of the open document: the file name of its path, or
/// "Embedded Demo" when the path has no (or an empty) file name.
pub fn document_title(path_input: &str) -> (title: String)
    ensures
        title@ == match path_file_name(path_input@) {
            Some(n) => if n.len() > 0 { n } else { "Embedded Demo"@ },
            None => "Embedded Demo"@,
        },
{
    match file_name(path_input) {
        Some(name) => {
            if name.as_str().is_empty() {
                "Embedded Demo".to_string()
            } else {
                name
            }
        },
        None => "Embedded Demo".to_string(),
    }
}

/// Whether two texts are the same.
fn same_text(a: &str, b: &str) -> (same: bool)
    ensures
        same == (a@ == b@),
{
    a.to_owned() == b.to_owned()
}

/// The sample maps whose thumbnails the dashboard shows.
#[derive(Clone, Copy, PartialEq, Eq, Structural, Debug)]
pub enum DashboardThumb {
    Forest,
    Dungeon,
    Castle,
    Desert,
    Winter,
}

/// The thumbnail named `kind`, if there is one.
pub open spec fn thumb_named(kind: Seq<char>) -> Option<DashboardThumb> {
    if kind == "forest"@ {
        Some(DashboardThumb::Forest)
    } else if kind == "dungeon"@ {
        Some(DashboardThumb::Dungeon)
    } else if kind == "castle"@ {
        Some(DashboardThumb::Castle)
    } else if kind == "desert"@ {
        Some(DashboardThumb::Desert)
    } else if kind == "winter"@ {
        Some(DashboardThumb::Winter)
    } else {
        None
    }
}

/// The thumbnail of the sample named `kind`; none for an unknown name.
pub fn dashboard_thumb(kind: &str) -> (thumb: Option<DashboardThumb>)
    ensures
        thumb == thumb_named(kind@),
{
    if same_text(kind, "forest") {
        Some(DashboardThumb::Forest)
    } else if same_text(kind, "dungeon") {
        Some(DashboardThumb::Dungeon)
    } else if same_text(kind, "castle") {
        Some(DashboardThumb::Castle)
    } else if same_text(kind, "desert") {
        Some(DashboardThumb::Desert)
    } else if same_text(kind, "winter") {
        Some(DashboardThumb::Winter)
    } else {
        None
    }
}

/// The class of a tool's chip: marked when it is the current tool.
pub fn tool_chip_class(current: Tool, tool: Tool) -> (class: &'static str)
    ensures
        class@ == if current == tool { "active"@ } else { ""@ },
{
    if current == tool {
        "active"
    } else {
        ""
    }
}

/// The class of a palette chip for tile `gid`: marked when it is the selected tile.
pub fn tile_chip_class(selected_gid: u32, gid: u32) -> (class: &'static str)
    ensures
        class@ == if selected_gid == gid { "mobile-tile-chip active"@ } else { "mobile-tile-chip"@ },
{
    if selected_gid == gid {
        "mobile-tile-chip active"
    } else {
        "mobile-tile-chip"
    }
}

/// The class of a tileset sheet cell for tile `gid`: marked when it is the selected tile.
pub fn tileset_cell_class(selected_gid: u32, gid: u32) -> (class: &'static str)
    ensures
        class@ == if selected_gid == gid { "mobile-tileset-cell active"@ } else { "mobile-tileset-cell"@ },
{
    if selected_gid == gid {
        "mobile-tileset-cell active"
    } else {
        "mobile-tileset-cell"
    }
}

/// The class of layer `index`'s row in the canvas overlay: marked when it is the active layer.
pub fn overlay_layer_class(active_layer: usize, index: usize) -> (class: &'static str)
    ensures
        class@ == if active_layer == index { "mobile-overlay-layer active"@ } else { "mobile-overlay-layer"@ },
{
    if active_layer == index {
        "mobile-overlay-layer active"
    } else {
        "mobile-overlay-layer"
    }
}

/// The class of layer `index`'s card on the layers page: marked when it is the active layer.
pub fn layer_card_class(active_layer: usize, index: usize) -> (class: &'static str)
    ensures
        class@ == if active_layer == index { "mobile-layer-card active"@ } else { "mobile-layer-card"@ },
{
    if active_layer == index {
        "mobile-layer-card active"
    } else {
        "mobile-layer-card"
    }
}

/// The class of object `object_id`'s card: marked when it is the selected object.
pub fn object_card_class(selected_object: Option<u32>, object_id: u32) -> (class: &'static str)
    ensures
        class@ == if selected_object == Some(object_id) { "mobile-object-card active"@ } else { "mobile-object-card"@ },
{
    let selected = match selected_object {
        Some(id) => id == object_id,
        None => false,
    };
    if selected {
        "mobile-object-card active"
    } else {
        "mobile-object-card"
    }
}

/// The class of a layer's visibility or lock switch.
pub fn switch_class(on: bool) -> (class: &'static str)
    ensures
        class@ == if on { "on"@ } else { "off"@ },
{
    if on {
        "on"
    } else {
        "off"
    }
}

} // verus!
