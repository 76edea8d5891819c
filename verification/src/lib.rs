//! A cheatsheet viewer core: the document model, the step that builds it from
//! a decoded markdown tree, the interaction state machine, and the projection
//! of a document onto scrollable, filterable display lines.

pub mod text;
pub mod sheet;
pub mod display;
pub mod input;
pub mod app;
pub mod markdown;
pub mod parser;
pub mod screen;
