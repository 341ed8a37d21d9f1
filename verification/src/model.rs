use vstd::prelude::*;
use crate::render::storage::ResourceId;

verus! {

/// The stored mesh of one part of a model and the bind group of its material.
#[derive(Debug)]
pub struct MeshId {
    pub id: ResourceId,
    pub material_id: ResourceId,
}

/// The stored meshes of a model, part by part.
#[derive(Debug)]
pub struct ModelIds {
    pub meshes: Vec<MeshId>,
}

} // verus!
