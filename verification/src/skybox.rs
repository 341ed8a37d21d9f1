use vstd::prelude::*;
use crate::mesh::GpuMesh;
use crate::render::storage::{RenderStorage, ResourceId, replaced};
use crate::texture::GpuTexture;

verus! {

/// The GPU resources of a skybox: its cube map and the cube it is drawn on.
#[derive(Debug)]
pub struct SkyboxResources {
    pub texture: GpuTexture,
    pub mesh: GpuMesh,
}

/// Where the resources of a skybox are kept in a [`RenderStorage`].
#[derive(Debug, Clone, Copy)]
pub struct SkyboxHandle {
    pub texture_id: ResourceId,
    pub mesh_id: ResourceId,
}

impl SkyboxHandle {
    /// Stores the cube map and the cube in fresh slots.
    pub fn new(storage: &mut RenderStorage, resource: SkyboxResources) -> (r: Self)
        requires
            old(storage).wf(),
            old(storage).texture_count() < usize::MAX,
            old(storage).mesh_count() < usize::MAX,
        ensures
            final(storage).wf(),
            r.texture_id == ResourceId::Slot(old(storage).texture_count() as usize),
            r.mesh_id == ResourceId::Slot(old(storage).mesh_count() as usize),
            final(storage).textures() == old(storage).textures().insert(
                old(storage).texture_count() as usize,
                resource.texture,
            ),
            final(storage).texture_count() == old(storage).texture_count() + 1,
            final(storage).meshes() == old(storage).meshes().insert(
                old(storage).mesh_count() as usize,
                resource.mesh,
            ),
            final(storage).mesh_count() == old(storage).mesh_count() + 1,
            final(storage).same_buffers(*old(storage)),
            final(storage).same_bind_groups(*old(storage)),
            final(storage).same_pipelines_and_layouts(*old(storage)),
    {
        Self {
            texture_id: storage.insert_texture(resource.texture),
            mesh_id: storage.insert_mesh(resource.mesh),
        }
    }

    /// Puts the resources in place of the ones this handle names.
    pub fn replace(&self, storage: &mut RenderStorage, resource: SkyboxResources)
        requires
            old(storage).wf(),
        ensures
            final(storage).wf(),
            final(storage).textures() == replaced(old(storage).textures(), self.texture_id, resource.texture),
            final(storage).meshes() == replaced(old(storage).meshes(), self.mesh_id, resource.mesh),
            final(storage).texture_count() == old(storage).texture_count(),
            final(storage).mesh_count() == old(storage).mesh_count(),
            final(storage).same_buffers(*old(storage)),
            final(storage).same_bind_groups(*old(storage)),
            final(storage).same_pipelines_and_layouts(*old(storage)),
    {
        storage.replace_texture(self.texture_id, resource.texture);
        storage.replace_mesh(self.mesh_id, resource.mesh);
    }
}

} // verus!
