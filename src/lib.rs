//! Editing core of a terminal text editor: line storage, tab rendering,
//! viewport geometry, cursor coordination and incremental search.

pub mod editor;
pub mod highlight;
pub mod render;
pub mod search;
pub mod text;
pub mod view;
