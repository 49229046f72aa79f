//! Edit/undo engine for a sparse, chunked signed-distance-field voxel volume: voxel face
//! picking state, quad selection, the drag-face and terraform tools, and an exact undo/redo
//! timeline over chunk snapshots.

pub mod voxel;
pub mod cursor;
pub mod chunk_map;
pub mod timeline;
pub mod terraform;
pub mod editor;
pub mod selection;
pub mod tools;
pub mod drag_face;
pub mod terraformer;
pub mod database;
pub mod config;
pub mod geometry;
