//! Editing rules, diagnostics bookkeeping and render-string builders of the
//! tile-map editor, with their behaviour stated in contracts.

pub mod android_diag;
pub mod bounds;
pub mod data_url;
pub mod document;
pub mod draw;
pub mod edit;
pub mod edit_ops;
pub mod laws;
pub mod previews;
pub mod render_cache;
pub mod search;
pub mod shell;
pub mod styles;
pub mod text;
pub mod tiles;
pub mod tileset_sheet;
pub mod visuals;
pub mod web_diag;
