//! Cell formats, their deduplication into a style table, and the XML parts
//! that describe them in an xlsx file.

pub mod app;
pub mod escape;
pub mod format;
pub mod style_table;
pub mod styles;
pub mod text;
pub mod xmlwriter;
