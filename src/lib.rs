//! Translates Markdown documents into block documents: a tree of typed,
//! identified blocks with rich-text runs, for a collaborative editor.
pub mod document;
pub mod html;
pub mod ids;
pub mod importer;
pub mod inline;
pub mod syntax;
pub mod text;

pub use document::{
    create_image_block, Attributes, Block, BlockType, DataValue, DocumentData, TextRun,
};
pub use importer::{DocumentError, ListKind, MDImporter};
pub use syntax::{Align, MdNode, NodeKind, ParseConfig};
