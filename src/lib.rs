//! Rendering core of a document viewer: turns a tree of positioned document
//! elements into a display list of flat-colored shapes, queued text runs and
//! selected text, in integer pixel coordinates.

pub mod geometry;
pub mod text;
pub mod mesh;
pub mod element;
pub mod renderer;
pub mod guarantees;
