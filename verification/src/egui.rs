use vstd::prelude::*;
use std::ops::Range;
use wgpu::{Extent3d, Origin3d};
use crate::render::storage::{RenderStorage, ResourceId, replaced};
use crate::texture::GpuTexture;
use crate::mesh::MeshRenderCommand;
use crate::render::renderer::MAX_BIND_GROUPS;
use crate::utils::const_vec::ConstVec;

verus! {

/// RGBA texels of an egui image, or of the part of it at `origin`.
#[derive(Debug)]
pub struct EguiTexture<'a> {
    pub texture: &'a [u8],
    pub size: Extent3d,
    pub origin: Origin3d,
}

/// Where the texture of an egui image is kept in a [`RenderStorage`].
#[derive(Debug, Clone, Copy)]
pub struct EguiTextureHandle {
    pub texture_id: ResourceId,
}

impl EguiTextureHandle {
    /// Stores the texture in a fresh slot.
    pub fn new(storage: &mut RenderStorage, resource: GpuTexture) -> (r: Self)
        requires
            old(storage).wf(),
            old(storage).texture_count() < usize::MAX,
        ensures
            final(storage).wf(),
            r.texture_id == ResourceId::Slot(old(storage).texture_count() as usize),
            final(storage).textures() == old(storage).textures().insert(
                old(storage).texture_count() as usize,
                resource,
            ),
            final(storage).texture_count() == old(storage).texture_count() + 1,
            final(storage).same_buffers(*old(storage)),
            final(storage).same_meshes(*old(storage)),
            final(storage).same_bind_groups(*old(storage)),
            final(storage).same_pipelines_and_layouts(*old(storage)),
    {
        Self { texture_id: storage.insert_texture(resource) }
    }

    /// Puts the texture in place of the one this handle names.
    pub fn replace(&self, storage: &mut RenderStorage, resource: GpuTexture)
        requires
            old(storage).wf(),
        ensures
            final(storage).wf(),
            final(storage).textures() == replaced(old(storage).textures(), self.texture_id, resource),
            final(storage).texture_count() == old(storage).texture_count(),
            final(storage).same_buffers(*old(storage)),
            final(storage).same_meshes(*old(storage)),
            final(storage).same_bind_groups(*old(storage)),
            final(storage).same_pipelines_and_layouts(*old(storage)),
    {
        storage.replace_texture(self.texture_id, resource);
    }
}

/// A scissor rectangle in physical pixels.
#[derive(Debug, Clone, Copy, PartialEq, Eq, Structural)]
pub struct ScissorRect {
    pub x: u32,
    pub y: u32,
    pub width: u32,
    pub height: u32,
}

/// `v` clamped into `[lo, hi]`, for `lo <= hi`.
pub open spec fn clamped(v: u32, lo: u32, hi: u32) -> u32 {
    if v < lo {
        lo
    } else if v > hi {
        hi
    } else {
        v
    }
}

impl ScissorRect {
    /// The part of the clip rectangle `[min_x, max_x] x [min_y, max_y]`
    /// (corners already rounded to pixels) that lies on a target of the given
    /// size. An empty overlap gives a zero width or height.
    pub fn new(
        min_x: u32,
        min_y: u32,
        max_x: u32,
        max_y: u32,
        target_width: u32,
        target_height: u32,
    ) -> (r: Self)
        ensures
            r.x == clamped(min_x, 0, target_width),
            r.y == clamped(min_y, 0, target_height),
            r.width == clamped(max_x, r.x, target_width) - r.x,
            r.height == clamped(max_y, r.y, target_height) - r.y,
            r.x + r.width <= target_width,
            r.y + r.height <= target_height,
    {
        let clip_min_x = clamp_u32(min_x, 0, target_width);
        let clip_min_y = clamp_u32(min_y, 0, target_height);
        let clip_max_x = clamp_u32(max_x, clip_min_x, target_width);
        let clip_max_y = clamp_u32(max_y, clip_min_y, target_height);
        Self {
            x: clip_min_x,
            y: clip_min_y,
            width: clip_max_x - clip_min_x,
            height: clip_max_y - clip_min_y,
        }
    }
}

fn clamp_u32(v: u32, lo: u32, hi: u32) -> (r: u32)
    requires
        lo <= hi,
    ensures
        r == clamped(v, lo, hi),
        lo <= r <= hi,
{
    if v < lo {
        lo
    } else if v > hi {
        hi
    } else {
        v
    }
}

/// The sum of `counts`.
pub open spec fn total(counts: Seq<usize>) -> nat
    decreases counts.len(),
{
    if counts.len() == 0 {
        0
    } else {
        total(counts.drop_last()) + counts.last() as nat
    }
}

proof fn lemma_total_step(counts: Seq<usize>, i: int)
    requires
        0 <= i < counts.len(),
    ensures
        total(counts.take(i + 1)) == total(counts.take(i)) + counts[i],
{
    assert(counts.take(i + 1).drop_last() =~= counts.take(i));
}

proof fn lemma_total_monotone(counts: Seq<usize>, i: int, j: int)
    requires
        0 <= i <= j <= counts.len(),
    ensures
        total(counts.take(i)) <= total(counts.take(j)),
    decreases j - i,
{
    if i < j {
        lemma_total_monotone(counts, i, j - 1);
        lemma_total_step(counts, j - 1);
    }
}

/// The total number of elements of the meshes whose element counts are
/// `counts`.
pub fn total_count(counts: &Vec<usize>) -> (r: usize)
    requires
        total(counts@) <= usize::MAX,
    ensures
        r == total(counts@),
{
    let mut sum: usize = 0;
    let mut i: usize = 0;
    while i < counts.len()
        invariant
            i <= counts@.len(),
            total(counts@) <= usize::MAX,
            sum == total(counts@.take(i as int)),
        decreases counts@.len() - i,
    {
        proof {
            lemma_total_step(counts@, i as int);
            lemma_total_monotone(counts@, i as int + 1, counts@.len() as int);
            assert(counts@.take(counts@.len() as int) =~= counts@);
        }
        sum = sum + counts[i];
        i = i + 1;
    }
    assert(counts@.take(counts@.len() as int) =~= counts@);
    sum
}

/// The byte ranges that meshes with the given element counts occupy when
/// they are written one after the other into a single buffer, each element
/// taking `element_size` bytes.
pub fn buffer_slices(counts: &Vec<usize>, element_size: usize) -> (r: Vec<Range<u64>>)
    requires
        total(counts@) * element_size <= usize::MAX,
    ensures
        r@.len() == counts@.len(),
        forall|i: int| #![trigger r@[i]] 0 <= i < r@.len() ==> {
            &&& r@[i].start == total(counts@.take(i)) * element_size
            &&& r@[i].end == total(counts@.take(i + 1)) * element_size
            &&& r@[i].end - r@[i].start == counts@[i] * element_size
        },
        forall|i: int| 0 < i < r@.len() ==> #[trigger] r@[i].start == r@[i - 1].end,
        r@.len() > 0 ==> r@[0].start == 0,
        r@.len() > 0 ==> r@[r@.len() - 1].end == total(counts@) * element_size,
{
    let mut slices: Vec<Range<u64>> = Vec::new();
    let mut offset: usize = 0;
    assert(total(counts@.take(0)) == 0);
    let mut i: usize = 0;
    while i < counts.len()
        invariant
            i <= counts@.len(),
            total(counts@) * element_size <= usize::MAX,
            slices@.len() == i,
            offset == total(counts@.take(i as int)) * element_size,
            forall|j: int| #![trigger slices@[j]] 0 <= j < i ==> {
                &&& slices@[j].start == total(counts@.take(j)) * element_size
                &&& slices@[j].end == total(counts@.take(j + 1)) * element_size
                &&& slices@[j].end - slices@[j].start == counts@[j] * element_size
            },
        decreases counts@.len() - i,
    {
        let ghost before = total(counts@.take(i as int));
        proof {
            lemma_total_step(counts@, i as int);
            lemma_total_monotone(counts@, i as int + 1, counts@.len() as int);
            assert(counts@.take(counts@.len() as int) =~= counts@);
            vstd::arithmetic::mul::lemma_mul_is_distributive_add_other_way(
                element_size as int,
                before as int,
                counts@[i as int] as int,
            );
            vstd::arithmetic::mul::lemma_mul_inequality(
                total(counts@.take(i as int + 1)) as int,
                total(counts@) as int,
                element_size as int,
            );
            vstd::arithmetic::mul::lemma_mul_inequality(
                counts@[i as int] as int,
                total(counts@.take(i as int + 1)) as int,
                element_size as int,
            );
        }
        let size = counts[i] * element_size;
        slices.push(Range { start: offset as u64, end: (size + offset) as u64 });
        offset = offset + size;
        i = i + 1;
    }
    proof {
        assert(counts@.take(counts@.len() as int) =~= counts@);
        if slices@.len() > 0 {
            assert(slices@[0].start == total(counts@.take(0)) * element_size);
        }
        assert forall|i: int| 0 < i < slices@.len() implies #[trigger] slices@[i].start == slices@[i
            - 1].end by {
            assert(slices@[i - 1].end == total(counts@.take(i)) * element_size);
        }
    }
    slices
}

/// The size a mesh buffer is given so that `required` bytes fit: a buffer
/// that is too small grows to twice its size, or to `required` if that is
/// larger; a large enough buffer keeps its size.
pub fn grown_buffer_size(current: u64, required: u64) -> (r: u64)
    requires
        current < required ==> current * 2 <= u64::MAX,
    ensures
        r == (if current < required {
            if current * 2 >= required {
                current * 2
            } else {
                required as int
            }
        } else {
            current as int
        }),
        r >= required,
        r >= current,
{
    if current < required {
        let doubled = current * 2;
        if doubled >= required {
            doubled
        } else {
            required
        }
    } else {
        current
    }
}

/// What drawing one clipped egui primitive depends on. A mesh carries the
/// bind group of its texture (`None` when no texture is known under its id)
/// and its scissor rectangle; a paint callback is not drawn by this renderer.
#[derive(Debug, Clone, Copy)]
pub enum EguiPrimitive {
    Mesh { texture_bind_group: Option<ResourceId>, scissor: ScissorRect },
    Callback,
}

/// Whether a primitive gets a draw command: it is a mesh whose scissor
/// rectangle is not empty.
pub open spec fn drawn(p: EguiPrimitive) -> bool {
    match p {
        EguiPrimitive::Mesh { scissor, .. } => scissor.width != 0 && scissor.height != 0,
        EguiPrimitive::Callback => false,
    }
}

/// The positions below `n` whose primitives are drawn, in increasing order.
pub open spec fn drawn_positions(primitives: Seq<EguiPrimitive>, n: int) -> Seq<int>
    decreases n,
{
    if n <= 0 {
        Seq::empty()
    } else if drawn(primitives[n - 1]) {
        drawn_positions(primitives, n - 1).push(n - 1)
    } else {
        drawn_positions(primitives, n - 1)
    }
}

/// Exactly the meshes whose scissor rectangle has a non-zero width and height
/// are drawn: every drawn position holds such a mesh, every such mesh is at a
/// drawn position, and a mesh with a zero-sized rectangle is at none.
pub proof fn lemma_drawn_positions_non_empty(primitives: Seq<EguiPrimitive>, n: int)
    requires
        0 <= n <= primitives.len(),
    ensures
        forall|j: int|
            0 <= j < drawn_positions(primitives, n).len() ==> {
                let p = primitives[#[trigger] drawn_positions(primitives, n)[j]];
                &&& p is Mesh
                &&& p->Mesh_scissor.width != 0
                &&& p->Mesh_scissor.height != 0
            },
        forall|i: int|
            0 <= i < n && (#[trigger] primitives[i] is Mesh) && (primitives[i]->Mesh_scissor.width == 0
                || primitives[i]->Mesh_scissor.height == 0) ==> !drawn_positions(primitives, n).contains(i),
        forall|i: int|
            0 <= i < n && (#[trigger] primitives[i] is Mesh) && primitives[i]->Mesh_scissor.width != 0
                && primitives[i]->Mesh_scissor.height != 0 ==> drawn_positions(primitives, n).contains(i),
    decreases n,
{
    if n > 0 {
        lemma_drawn_positions_non_empty(primitives, n - 1);
        let prev = drawn_positions(primitives, n - 1);
        assert forall|i: int|
            0 <= i < n && (#[trigger] primitives[i] is Mesh) && primitives[i]->Mesh_scissor.width != 0
                && primitives[i]->Mesh_scissor.height != 0 implies drawn_positions(primitives, n).contains(i) by {
            if i < n - 1 {
                let j = choose|j: int| 0 <= j < prev.len() && prev[j] == i;
                if drawn(primitives[n - 1]) {
                    assert(drawn_positions(primitives, n)[j] == i);
                } else {
                    assert(drawn_positions(primitives, n)[j] == i);
                }
            } else {
                let last = drawn_positions(primitives, n).len() - 1;
                assert(drawn_positions(primitives, n)[last] == i);
            }
        }
        assert forall|i: int|
            0 <= i < n && (#[trigger] primitives[i] is Mesh) && (primitives[i]->Mesh_scissor.width == 0
                || primitives[i]->Mesh_scissor.height == 0) implies !drawn_positions(primitives, n).contains(i) by {
            if drawn(primitives[n - 1]) {
                if drawn_positions(primitives, n).contains(i) {
                    let j = choose|j: int| 0 <= j < drawn_positions(primitives, n).len() && drawn_positions(primitives, n)[j] == i;
                    if j < prev.len() {
                        assert(prev[j] == i);
                        assert(prev.contains(i));
                    }
                }
            }
        }
    }
}

/// The number of primitives that are paired with buffer slices: primitives
/// and slices are matched position by position, as far as all three go.
pub open spec fn paired_len(primitives: Seq<EguiPrimitive>, index_slices: Seq<Range<u64>>, vertex_slices: Seq<Range<u64>>) -> int {
    let a = if primitives.len() <= index_slices.len() { primitives.len() } else { index_slices.len() };
    if a <= vertex_slices.len() { a as int } else { vertex_slices.len() as int }
}

/// `c` draws the mesh primitive `p` with the given slices: the egui pipeline
/// and mesh, the uniform bind group then the texture's, clipped to the
/// primitive's scissor rectangle `[x, y, width, height]`.
pub open spec fn draws_primitive(
    c: MeshRenderCommand,
    pipeline_id: ResourceId,
    mesh_id: ResourceId,
    uniform_bind_group: ResourceId,
    p: EguiPrimitive,
    index_slice: Range<u64>,
    vertex_slice: Range<u64>,
) -> bool {
    match p {
        EguiPrimitive::Mesh { texture_bind_group, scissor } => {
            &&& c.pipeline_id == pipeline_id
            &&& c.mesh_id == mesh_id
            &&& c.index_slice == Some(index_slice)
            &&& c.vertex_slice == Some(vertex_slice)
            &&& c.scissor_rect is Some
            &&& c.scissor_rect->Some_0@ == seq![scissor.x, scissor.y, scissor.width, scissor.height]
            &&& c.bind_groups.wf()
            &&& c.bind_groups@ == seq![uniform_bind_group, texture_bind_group->Some_0]
        },
        EguiPrimitive::Callback => false,
    }
}

/// The draw commands of one egui frame. Primitive `i` is paired with the
/// `i`-th index and vertex slices; each paired mesh with a non-empty scissor
/// rectangle gets one command, in order, and the others none. Every paired
/// mesh needs a known texture.
pub fn egui_commands(
    pipeline_id: ResourceId,
    mesh_id: ResourceId,
    uniform_bind_group: ResourceId,
    primitives: &Vec<EguiPrimitive>,
    index_slices: &Vec<Range<u64>>,
    vertex_slices: &Vec<Range<u64>>,
) -> (r: Vec<MeshRenderCommand>)
    requires
        forall|i: int|
            0 <= i < paired_len(primitives@, index_slices@, vertex_slices@) ==> match #[trigger] primitives@[i] {
                EguiPrimitive::Mesh { texture_bind_group, .. } => texture_bind_group is Some,
                EguiPrimitive::Callback => true,
            },
    ensures
        ({
            let positions = drawn_positions(
                primitives@,
                paired_len(primitives@, index_slices@, vertex_slices@),
            );
            &&& r@.len() == positions.len()
            &&& forall|j: int|
                0 <= j < r@.len() ==> draws_primitive(
                    #[trigger] r@[j],
                    pipeline_id,
                    mesh_id,
                    uniform_bind_group,
                    primitives@[positions[j]],
                    index_slices@[positions[j]],
                    vertex_slices@[positions[j]],
                )
        }),
        forall|j: int|
            0 <= j < r@.len() ==> (#[trigger] r@[j]).scissor_rect is Some && r@[j].scissor_rect->Some_0@[2]
                != 0 && r@[j].scissor_rect->Some_0@[3] != 0,
{
    let n = if primitives.len() <= index_slices.len() { primitives.len() } else { index_slices.len() };
    let n = if n <= vertex_slices.len() { n } else { vertex_slices.len() };
    let ghost len = paired_len(primitives@, index_slices@, vertex_slices@);
    assert(n == len);
    let mut commands: Vec<MeshRenderCommand> = Vec::new();
    let mut i: usize = 0;
    while i < n
        invariant
            n == len,
            len == paired_len(primitives@, index_slices@, vertex_slices@),
            n <= primitives@.len() && n <= index_slices@.len() && n <= vertex_slices@.len(),
            i <= n,
            forall|k: int|
                0 <= k < len ==> match #[trigger] primitives@[k] {
                    EguiPrimitive::Mesh { texture_bind_group, .. } => texture_bind_group is Some,
                    EguiPrimitive::Callback => true,
                },
            commands@.len() == drawn_positions(primitives@, i as int).len(),
            forall|j: int|
                0 <= j < commands@.len() ==> (#[trigger] commands@[j]).scissor_rect is Some
                    && commands@[j].scissor_rect->Some_0@[2] != 0 && commands@[j].scissor_rect->Some_0@[3] != 0,
            forall|j: int|
                0 <= j < commands@.len() ==> {
                    let p = drawn_positions(primitives@, i as int)[j];
                    draws_primitive(
                        #[trigger] commands@[j],
                        pipeline_id,
                        mesh_id,
                        uniform_bind_group,
                        primitives@[p],
                        index_slices@[p],
                        vertex_slices@[p],
                    )
                },
        decreases n - i,
    {
        let ghost before = drawn_positions(primitives@, i as int);
        match primitives[i] {
            EguiPrimitive::Mesh { texture_bind_group, scissor } => {
                let texture_bind_group = texture_bind_group.unwrap();
                if scissor.width != 0 && scissor.height != 0 {
                    let mut bind_groups: ConstVec<MAX_BIND_GROUPS, ResourceId> = ConstVec::default();
                    bind_groups.push(uniform_bind_group);
                    bind_groups.push(texture_bind_group);
                    let index_slice = Range { start: index_slices[i].start, end: index_slices[i].end };
                    let vertex_slice = Range { start: vertex_slices[i].start, end: vertex_slices[i].end };
                    let command = MeshRenderCommand {
                        pipeline_id,
                        mesh_id,
                        index_slice: Some(index_slice),
                        vertex_slice: Some(vertex_slice),
                        scissor_rect: Some([scissor.x, scissor.y, scissor.width, scissor.height]),
                        bind_groups,
                    };
                    proof {
                        assert(command.scissor_rect->Some_0@ =~= seq![scissor.x, scissor.y, scissor.width, scissor.height]);
                        assert(command.bind_groups@ =~= seq![uniform_bind_group, texture_bind_group]);
                        assert(drawn_positions(primitives@, i as int + 1) == before.push(i as int));
                    }
                    commands.push(command);
                } else {
                    assert(drawn_positions(primitives@, i as int + 1) == before);
                }
            },
            EguiPrimitive::Callback => {
                assert(drawn_positions(primitives@, i as int + 1) == before);
            },
        }
        i = i + 1;
    }
    commands
}

} // verus!
