//! Renderable components: rules, padding and the like, each rendered to
//! segments for a given width.
pub mod rule;
pub mod padding;
pub mod control;
pub mod table;
pub mod panel;
pub mod columns;
pub mod progress;
pub mod markdown;
pub mod cmark;
pub mod syntax;
pub mod group;
pub mod traceback;
pub mod json;
