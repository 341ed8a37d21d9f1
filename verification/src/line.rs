use vstd::prelude::*;
use crate::render::renderer::MAX_BIND_GROUPS;
use crate::render::storage::ResourceId;
use crate::utils::const_vec::ConstVec;

verus! {

/// A request to draw every line segment of a stored line mesh: one instance
/// per segment, each made of the same six vertices.
#[derive(Debug, Clone)]
pub struct LineRenderCommand {
    pub pipeline_id: ResourceId,
    pub mesh_id: ResourceId,
    pub bind_groups: ConstVec<MAX_BIND_GROUPS, ResourceId>,
}

} // verus!
