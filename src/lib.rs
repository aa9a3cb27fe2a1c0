//! Baking a triangle mesh into a GPU-ready byte bundle: a mesh-text importer
//! with vertex deduplication, an aligned region packer, and typed accessors
//! over the packed bytes.

pub mod bundle;
pub mod text;
pub mod obj;
pub mod mesh;
pub mod pack;
pub mod face_map;
