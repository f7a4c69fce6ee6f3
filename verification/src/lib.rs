//! Theme data, resolution and export.

pub mod text;
pub mod textmap;
pub mod scalar;
pub mod color;
pub mod chain;
pub mod value;
pub mod tokens;
pub mod style;
pub mod theme;
pub mod cascade;
pub mod defaults;
pub mod schema;
pub mod slint_gen;
pub mod decisions;
pub mod declarations;
pub mod store;
pub mod storage;
pub mod loader;
pub mod migration;
pub mod inherit;
pub mod plugin_files;
pub mod generate;
pub mod double;
pub mod decimal;
pub mod json;
pub mod json_text;
pub mod token_theme;
pub mod fallback;
pub mod component_json;
pub mod read_back;
pub mod sorting;
pub mod records;
pub mod reconcile;
pub mod validate;
pub mod report;
pub mod record_json;
pub mod root_file;
pub mod literals;
pub mod export_theme;
pub mod exported;
pub mod theme_source;
pub mod rust_export;
pub mod written;
pub mod live;
pub mod agreement;
pub mod panels;
pub mod icons;
pub mod editor;
pub mod edits;
