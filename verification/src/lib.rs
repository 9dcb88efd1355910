//! Override resolution across defaults, templates and instances of structured
//! documents, compiled into path-addressed patch records.

pub mod content;
pub mod content_laws;
pub mod document;
pub mod error;
pub mod files;
pub mod generator;
pub mod identifier;
pub mod mod_ops;
pub mod patch_laws;
pub mod registry;
pub mod resolver;
pub mod run_laws;
pub mod state;
pub mod text;
pub mod values;
pub mod views;
pub mod xml_node;
pub mod xml_structure;
