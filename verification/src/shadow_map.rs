use vstd::prelude::*;
use crate::render::storage::{RenderStorage, ResourceId, replaced};
use crate::texture::{EmptyTexture, GpuTexture};

verus! {

/// The depth target that shadows are rendered into.
#[derive(Debug)]
pub struct ShadowMap {
    pub shadow_map: EmptyTexture,
}

impl Default for ShadowMap {
    /// A filtered depth target sized like the surface.
    fn default() -> (r: Self)
        ensures
            r.shadow_map.dimensions is None,
            r.shadow_map.format is Depth32Float,
            r.shadow_map.filtered,
    {
        Self { shadow_map: EmptyTexture::new_depth() }
    }
}

/// The GPU resources of a [`ShadowMap`].
#[derive(Debug)]
pub struct ShadowMapResource {
    pub texture: GpuTexture,
}

/// Where the resources of a [`ShadowMap`] are kept in a [`RenderStorage`].
#[derive(Debug, Clone, Copy)]
pub struct ShadowMapHandle {
    pub texture_id: ResourceId,
}

impl ShadowMapHandle {
    /// Stores the depth texture in a fresh slot.
    pub fn new(storage: &mut RenderStorage, resource: ShadowMapResource) -> (r: Self)
        requires
            old(storage).wf(),
            old(storage).texture_count() < usize::MAX,
        ensures
            final(storage).wf(),
            r.texture_id == ResourceId::Slot(old(storage).texture_count() as usize),
            final(storage).textures() == old(storage).textures().insert(
                old(storage).texture_count() as usize,
                resource.texture,
            ),
            final(storage).texture_count() == old(storage).texture_count() + 1,
            final(storage).same_buffers(*old(storage)),
            final(storage).same_meshes(*old(storage)),
            final(storage).same_bind_groups(*old(storage)),
            final(storage).same_pipelines_and_layouts(*old(storage)),
    {
        Self { texture_id: storage.insert_texture(resource.texture) }
    }

    /// Puts the depth texture in place of the one this handle names.
    pub fn replace(&self, storage: &mut RenderStorage, resource: ShadowMapResource)
        requires
            old(storage).wf(),
        ensures
            final(storage).wf(),
            final(storage).textures() == replaced(old(storage).textures(), self.texture_id, resource.texture),
            final(storage).texture_count() == old(storage).texture_count(),
            final(storage).same_buffers(*old(storage)),
            final(storage).same_meshes(*old(storage)),
            final(storage).same_bind_groups(*old(storage)),
            final(storage).same_pipelines_and_layouts(*old(storage)),
    {
        storage.replace_texture(self.texture_id, resource.texture);
    }
}

/// The bind group through which shaders read a shadow map together with the
/// transform of the light that casts it.
#[derive(Debug, Clone, Copy)]
pub struct ShadowBindGroup(pub ResourceId);

} // verus!
