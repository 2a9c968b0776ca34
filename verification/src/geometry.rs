//! Plain data records shared with the geometry-file loader.
//!
//! The on-disk format and its parsing live outside this crate; these
//! records are the shape in which descriptive fields cross the boundary.

use vstd::prelude::*;

verus! {

/// Descriptive header of a geometry file.
#[derive(Debug)]
pub struct Metadata {
    pub version: String,
    pub description: String,
    pub created: String,
}

/// Material names attached to a mesh.
#[derive(Debug)]
pub struct MaterialData {
    pub name: String,
    pub diffuse_texture: String,
    pub normal_texture: String,
}

} // verus!
