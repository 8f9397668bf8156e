//! The text buffer and viewport engine of a small terminal text editor.
//!
//! A [`Row`] is one line of text addressed by grapheme clusters, a
//! [`Document`] is an ordered sequence of rows with a dirty flag and a search
//! anchor, and an [`Editor`] is the controller state: cursor, scroll offset,
//! status message and quit confirmation. Nothing here touches a terminal or a
//! file; a front end feeds keys in and draws what the editor hands back.

pub mod segment;
pub mod text;
pub mod color;
pub mod highlighting;
pub mod position;
pub mod row;
pub mod document;
pub mod key;
pub mod editor;
pub mod screen;

pub use document::Document;
pub use editor::Editor;
pub use key::Key;
pub use position::Position;
pub use row::Row;
