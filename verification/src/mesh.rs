use vstd::prelude::*;
use std::ops::Range;
use wgpu::Buffer;
use crate::render::renderer::MAX_BIND_GROUPS;
use crate::render::storage::ResourceId;
use crate::utils::const_vec::ConstVec;

verus! {

/// Vertex and optional index buffers of a mesh on the GPU.
#[derive(Debug)]
pub struct GpuMesh {
    pub vertex_buffer: Buffer,
    pub index_buffer: Option<Buffer>,
    pub num_elements: u32,
}

/// Size in bytes of one entry of an index buffer (indices are `u32`).
pub const INDEX_SIZE: u32 = 4;

/// A request to draw (a part of) a stored mesh with a pipeline.
///
/// The slices are byte ranges of the mesh's buffers; `None` stands for the
/// whole buffer. The scissor rectangle is `[x, y, width, height]`.
#[derive(Debug, Clone)]
pub struct MeshRenderCommand {
    pub pipeline_id: ResourceId,
    pub mesh_id: ResourceId,
    pub index_slice: Option<Range<u64>>,
    pub vertex_slice: Option<Range<u64>>,
    pub scissor_rect: Option<[u32; 4]>,
    pub bind_groups: ConstVec<MAX_BIND_GROUPS, ResourceId>,
}

/// The draw call a command ends with.
#[derive(Debug, Clone, PartialEq, Eq)]
pub enum DrawCall {
    /// Bind `index_slice` of the index buffer (all of it when `None`) and draw
    /// its first `count` indices, one instance.
    Indexed { index_slice: Option<Range<u64>>, count: u32 },
    /// Draw the first `count` vertices of the vertex buffer, one instance.
    Vertices { count: u32 },
}

/// The number of `u32` indices in a byte range of an index buffer, counted
/// as a `u32` byte length.
pub open spec fn indices_in(slice: Range<u64>) -> u32 {
    ((slice.end - slice.start) as u32) / INDEX_SIZE
}

/// A byte range of an index buffer holds `indices_in(slice)` whole `u32`
/// indices: four bytes each, with less than one index's bytes left over.
pub proof fn lemma_indices_in_counts_u32(slice: Range<u64>)
    ensures
        indices_in(slice) * 4 <= ((slice.end - slice.start) as u32),
        ((slice.end - slice.start) as u32) < indices_in(slice) * 4 + 4,
{
}

impl MeshRenderCommand {
    /// The draw call for this command on `mesh`: an indexed draw when the mesh
    /// has an index buffer, a plain vertex draw otherwise.
    pub fn draw_call(&self, mesh: &GpuMesh) -> (r: DrawCall)
        requires
            mesh.index_buffer is Some && self.index_slice is Some ==> self.index_slice->Some_0.start
                <= self.index_slice->Some_0.end,
        ensures
            mesh.index_buffer is None ==> r == (DrawCall::Vertices { count: mesh.num_elements }),
            mesh.index_buffer is Some && self.index_slice is Some ==> r == (DrawCall::Indexed {
                index_slice: self.index_slice,
                count: indices_in(self.index_slice->Some_0),
            }),
            mesh.index_buffer is Some && self.index_slice is Some ==> ({
                let bytes = (self.index_slice->Some_0.end - self.index_slice->Some_0.start) as u32;
                &&& r is Indexed
                &&& r->Indexed_count * 4 <= bytes < r->Indexed_count * 4 + 4
            }),
            mesh.index_buffer is Some && self.index_slice is None ==> r == (DrawCall::Indexed {
                index_slice: None,
                count: mesh.num_elements,
            }),
    {
        if mesh.index_buffer.is_some() {
            match &self.index_slice {
                Some(slice) => {
                    let bytes = (slice.end - slice.start) as u32;
                    let count = bytes / INDEX_SIZE;
                    DrawCall::Indexed {
                        index_slice: Some(Range { start: slice.start, end: slice.end }),
                        count,
                    }
                },
                None => DrawCall::Indexed { index_slice: None, count: mesh.num_elements },
            }
        } else {
            DrawCall::Vertices { count: mesh.num_elements }
        }
    }
}

} // verus!
