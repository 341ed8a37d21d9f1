use vstd::prelude::*;
use wgpu::{BindGroup, BindGroupLayout, Buffer, RenderPipeline};
use crate::texture::GpuTexture;
use crate::mesh::GpuMesh;
use crate::utils::sparse_set::SparseSet;

verus! {

/// Identifier of a resource: a slot handed out by a [`RenderStorage`], or the
/// view of the frame currently being rendered.
#[allow(non_camel_case_types)]
#[derive(Debug, Clone, Copy, PartialEq, Eq, Structural, PartialOrd, Ord, Hash)]
pub enum ResourceId {
    Slot(usize),
    WINDOW_VIEW_ID,
}

/// `<str as PartialEq>::eq`: two string slices are equal exactly when they
/// hold the same characters.
#[verifier::external_body]
pub(crate) fn str_equal(a: &str, b: &str) -> (r: bool)
    ensures
        r == (a@ == b@),
{
    a == b
}

/// The keys of a sparse set are exactly the numbers below its length: no key
/// was ever removed or reused.
pub open spec fn keys_are_dense<V>(s: SparseSet<V>) -> bool {
    &&& s.wf()
    &&& s.packed()
    &&& forall|k: usize| #[trigger] s@.dom().contains(k) <==> (k as nat) < s.spec_len()
}

/// Stores `value` in a set whose keys are dense and returns its fresh key.
fn insert_dense<V>(set: &mut SparseSet<V>, value: V) -> (r: usize)
    requires
        keys_are_dense(*old(set)),
        old(set).spec_len() < usize::MAX,
    ensures
        keys_are_dense(*final(set)),
        r == old(set).spec_len(),
        !old(set)@.dom().contains(r),
        final(set)@ == old(set)@.insert(r, value),
        final(set).spec_len() == old(set).spec_len() + 1,
{
    let r = set.insert(value);
    assert forall|k: usize| #[trigger] set@.dom().contains(k) <==> (k as nat) < set.spec_len() by {
        assert(old(set)@.dom().contains(k) <==> (k as nat) < old(set).spec_len());
    }
    r
}

/// Replaces the value under `key`, when the key is live.
fn replace_dense<V>(set: &mut SparseSet<V>, key: usize, value: V)
    requires
        keys_are_dense(*old(set)),
    ensures
        keys_are_dense(*final(set)),
        final(set).spec_len() == old(set).spec_len(),
        final(set)@ == if old(set)@.dom().contains(key) {
            old(set)@.insert(key, value)
        } else {
            old(set)@
        },
{
    if let Some(slot) = set.get_mut(key) {
        *slot = value;
    }
    assert forall|k: usize| #[trigger] set@.dom().contains(k) <==> (k as nat) < set.spec_len() by {
        assert(old(set)@.dom().contains(k) <==> (k as nat) < old(set).spec_len());
    }
}

/// Storage for the GPU resources of a renderer. Buffers, textures, meshes and
/// bind groups are addressed by the [`ResourceId`] handed out when they were
/// inserted; bind group layouts are registered under a name.
#[derive(Debug)]
pub struct RenderStorage {
    buffers: SparseSet<Buffer>,
    textures: SparseSet<GpuTexture>,
    meshes: SparseSet<GpuMesh>,
    bind_groups: SparseSet<BindGroup>,
    pipelines: Vec<RenderPipeline>,
    layouts: Vec<(&'static str, BindGroupLayout)>,
}

/// The slot of a stored resource, if `id` names one.
pub open spec fn slot_of(id: ResourceId) -> Option<usize> {
    match id {
        ResourceId::Slot(n) => Some(n),
        ResourceId::WINDOW_VIEW_ID => None,
    }
}

/// The slot `id` names; the window view id maps past every slot.
fn slot_index(id: ResourceId) -> (r: usize)
    ensures
        r == match id {
            ResourceId::Slot(n) => n,
            ResourceId::WINDOW_VIEW_ID => usize::MAX,
        },
{
    match id {
        ResourceId::Slot(n) => n,
        ResourceId::WINDOW_VIEW_ID => usize::MAX,
    }
}

/// Whether `id` names a resource held in `m`.
pub open spec fn holds<V>(m: Map<usize, V>, id: ResourceId) -> bool {
    match id {
        ResourceId::Slot(n) => m.dom().contains(n),
        ResourceId::WINDOW_VIEW_ID => false,
    }
}

/// The value `m` holds for `id`.
pub open spec fn held<V>(m: Map<usize, V>, id: ResourceId) -> V {
    m[slot_of(id)->Some_0]
}

/// `m` with the value for `id` replaced, when it holds one.
pub open spec fn replaced<V>(m: Map<usize, V>, id: ResourceId, value: V) -> Map<usize, V> {
    if holds(m, id) {
        m.insert(slot_of(id)->Some_0, value)
    } else {
        m
    }
}

spec fn entries_name(entries: Seq<(&'static str, BindGroupLayout)>, name: Seq<char>) -> bool {
    exists|i: int| 0 <= i < entries.len() && #[trigger] entries[i].0@ == name
}

spec fn entry_for(entries: Seq<(&'static str, BindGroupLayout)>, name: Seq<char>) -> BindGroupLayout {
    let i = choose|i: int| 0 <= i < entries.len() && #[trigger] entries[i].0@ == name;
    entries[i].1
}

spec fn entries_map(entries: Seq<(&'static str, BindGroupLayout)>) -> Map<Seq<char>, BindGroupLayout> {
    Map::new(|name: Seq<char>| entries_name(entries, name), |name: Seq<char>| entry_for(entries, name))
}

/// What is stored under a slot is read back under that slot's id, which is
/// never the window view id.
pub proof fn lemma_stored_then_read<V>(m: Map<usize, V>, slot: usize, value: V)
    ensures
        holds(m.insert(slot, value), ResourceId::Slot(slot)),
        held(m.insert(slot, value), ResourceId::Slot(slot)) == value,
        ResourceId::Slot(slot) != ResourceId::WINDOW_VIEW_ID,
{
}

/// Replacing the resource under `id` is read back under `id` when `id` held
/// one, changes nothing when it did not, and leaves every other id as it was.
pub proof fn lemma_replace_then_read<V>(m: Map<usize, V>, id: ResourceId, value: V)
    ensures
        holds(m, id) ==> holds(replaced(m, id, value), id) && held(replaced(m, id, value), id)
            == value,
        !holds(m, id) ==> replaced(m, id, value) == m,
        forall|other: ResourceId|
            other != id ==> (holds(replaced(m, id, value), other) == holds(m, other) && (holds(
                m,
                other,
            ) ==> held(replaced(m, id, value), other) == held(m, other))),
{
}

impl RenderStorage {
    pub closed spec fn buffers(&self) -> Map<usize, Buffer> {
        self.buffers@
    }

    pub closed spec fn textures(&self) -> Map<usize, GpuTexture> {
        self.textures@
    }

    pub closed spec fn meshes(&self) -> Map<usize, GpuMesh> {
        self.meshes@
    }

    pub closed spec fn bind_groups(&self) -> Map<usize, BindGroup> {
        self.bind_groups@
    }

    pub closed spec fn pipelines(&self) -> Seq<RenderPipeline> {
        self.pipelines@
    }

    /// Number of slots handed out so far for each kind of resource.
    pub closed spec fn buffer_count(&self) -> nat {
        self.buffers.spec_len()
    }

    pub closed spec fn texture_count(&self) -> nat {
        self.textures.spec_len()
    }

    pub closed spec fn mesh_count(&self) -> nat {
        self.meshes.spec_len()
    }

    pub closed spec fn bind_group_count(&self) -> nat {
        self.bind_groups.spec_len()
    }

    /// The layouts registered, by name.
    pub closed spec fn layouts(&self) -> Map<Seq<char>, BindGroupLayout> {
        entries_map(self.layouts@)
    }

    pub closed spec fn wf(&self) -> bool {
        &&& keys_are_dense(self.buffers)
        &&& keys_are_dense(self.textures)
        &&& keys_are_dense(self.meshes)
        &&& keys_are_dense(self.bind_groups)
        &&& forall|i: int, j: int|
            0 <= i < self.layouts@.len() && 0 <= j < self.layouts@.len() && i != j
                ==> #[trigger] self.layouts@[i].0@ != #[trigger] self.layouts@[j].0@
    }

    /// Every slot handed out so far still holds a resource: slots are never
    /// freed, so a fresh id never names an existing resource.
    pub proof fn lemma_slots_below_count(&self)
        requires
            self.wf(),
        ensures
            forall|k: usize| #[trigger] self.buffers().dom().contains(k) <==> (k as nat) < self.buffer_count(),
            forall|k: usize| #[trigger] self.textures().dom().contains(k) <==> (k as nat) < self.texture_count(),
            forall|k: usize| #[trigger] self.meshes().dom().contains(k) <==> (k as nat) < self.mesh_count(),
            forall|k: usize| #[trigger] self.bind_groups().dom().contains(k) <==> (k as nat) < self.bind_group_count(),
    {
    }

    pub fn new() -> (r: Self)
        ensures
            r.wf(),
            r.buffers() == Map::<usize, Buffer>::empty(),
            r.textures() == Map::<usize, GpuTexture>::empty(),
            r.meshes() == Map::<usize, GpuMesh>::empty(),
            r.bind_groups() == Map::<usize, BindGroup>::empty(),
            r.pipelines() == Seq::<RenderPipeline>::empty(),
            r.layouts() == Map::<Seq<char>, BindGroupLayout>::empty(),
            r.buffer_count() == 0 && r.texture_count() == 0,
            r.mesh_count() == 0 && r.bind_group_count() == 0,
    {
        let r = RenderStorage {
            buffers: SparseSet::new(),
            textures: SparseSet::new(),
            meshes: SparseSet::new(),
            bind_groups: SparseSet::new(),
            pipelines: Vec::new(),
            layouts: Vec::new(),
        };
        assert(r.layouts() =~= Map::<Seq<char>, BindGroupLayout>::empty());
        r
    }

    pub fn insert_pipeline(&mut self, pipeline: RenderPipeline) -> (r: ResourceId)
        requires
            old(self).wf(),
            old(self).pipelines().len() < usize::MAX,
        ensures
            final(self).wf(),
            r == ResourceId::Slot(old(self).pipelines().len() as usize),
            final(self).pipelines() == old(self).pipelines().push(pipeline),
            final(self).same_except_pipelines(*old(self)),
    {
        let id = ResourceId::Slot(self.pipelines.len());
        self.pipelines.push(pipeline);
        id
    }

    /// The buffers, and the number of buffer slots, are as in `other`.
    pub open spec fn same_buffers(&self, other: Self) -> bool {
        self.buffers() == other.buffers() && self.buffer_count() == other.buffer_count()
    }

    pub open spec fn same_textures(&self, other: Self) -> bool {
        self.textures() == other.textures() && self.texture_count() == other.texture_count()
    }

    pub open spec fn same_meshes(&self, other: Self) -> bool {
        self.meshes() == other.meshes() && self.mesh_count() == other.mesh_count()
    }

    pub open spec fn same_bind_groups(&self, other: Self) -> bool {
        self.bind_groups() == other.bind_groups() && self.bind_group_count()
            == other.bind_group_count()
    }

    /// Everything but the pipelines is as in `other`.
    pub open spec fn same_except_pipelines(&self, other: Self) -> bool {
        &&& self.same_buffers(other)
        &&& self.same_textures(other)
        &&& self.same_meshes(other)
        &&& self.same_bind_groups(other)
        &&& self.layouts() == other.layouts()
    }

    /// Pipelines and layouts are as in `other`.
    pub open spec fn same_pipelines_and_layouts(&self, other: Self) -> bool {
        self.pipelines() == other.pipelines() && self.layouts() == other.layouts()
    }

    /// Stores a buffer and returns the id of its fresh slot.
    pub fn insert_buffer(&mut self, buffer: Buffer) -> (r: ResourceId)
        requires
            old(self).wf(),
            old(self).buffer_count() < usize::MAX,
        ensures
            final(self).wf(),
            r == ResourceId::Slot(old(self).buffer_count() as usize),
            !holds(old(self).buffers(), r),
            final(self).buffers() == old(self).buffers().insert(slot_of(r)->Some_0, buffer),
            final(self).buffer_count() == old(self).buffer_count() + 1,
            final(self).same_textures(*old(self)),
            final(self).same_meshes(*old(self)),
            final(self).same_bind_groups(*old(self)),
            final(self).same_pipelines_and_layouts(*old(self)),
    {
        ResourceId::Slot(insert_dense(&mut self.buffers, buffer))
    }

    /// Stores a texture and returns the id of its fresh slot.
    pub fn insert_texture(&mut self, texture: GpuTexture) -> (r: ResourceId)
        requires
            old(self).wf(),
            old(self).texture_count() < usize::MAX,
        ensures
            final(self).wf(),
            r == ResourceId::Slot(old(self).texture_count() as usize),
            !holds(old(self).textures(), r),
            final(self).textures() == old(self).textures().insert(slot_of(r)->Some_0, texture),
            final(self).texture_count() == old(self).texture_count() + 1,
            inserts_texture(*old(self), *final(self), texture, r),
            final(self).same_buffers(*old(self)),
            final(self).same_meshes(*old(self)),
            final(self).same_bind_groups(*old(self)),
            final(self).same_pipelines_and_layouts(*old(self)),
    {
        ResourceId::Slot(insert_dense(&mut self.textures, texture))
    }

    /// Stores a mesh and returns the id of its fresh slot.
    pub fn insert_mesh(&mut self, mesh: GpuMesh) -> (r: ResourceId)
        requires
            old(self).wf(),
            old(self).mesh_count() < usize::MAX,
        ensures
            final(self).wf(),
            r == ResourceId::Slot(old(self).mesh_count() as usize),
            !holds(old(self).meshes(), r),
            final(self).meshes() == old(self).meshes().insert(slot_of(r)->Some_0, mesh),
            final(self).mesh_count() == old(self).mesh_count() + 1,
            final(self).same_buffers(*old(self)),
            final(self).same_textures(*old(self)),
            final(self).same_bind_groups(*old(self)),
            final(self).same_pipelines_and_layouts(*old(self)),
    {
        ResourceId::Slot(insert_dense(&mut self.meshes, mesh))
    }

    /// Stores a bind group and returns the id of its fresh slot.
    pub fn insert_bind_group(&mut self, bind_group: BindGroup) -> (r: ResourceId)
        requires
            old(self).wf(),
            old(self).bind_group_count() < usize::MAX,
        ensures
            final(self).wf(),
            r == ResourceId::Slot(old(self).bind_group_count() as usize),
            !holds(old(self).bind_groups(), r),
            final(self).bind_groups() == old(self).bind_groups().insert(slot_of(r)->Some_0, bind_group),
            final(self).bind_group_count() == old(self).bind_group_count() + 1,
            final(self).same_buffers(*old(self)),
            final(self).same_textures(*old(self)),
            final(self).same_meshes(*old(self)),
            final(self).same_pipelines_and_layouts(*old(self)),
    {
        ResourceId::Slot(insert_dense(&mut self.bind_groups, bind_group))
    }

    /// Replaces the buffer under `buffer_id`; an id that names no buffer
    /// leaves the storage unchanged.
    pub fn replace_buffer(&mut self, buffer_id: ResourceId, buffer: Buffer)
        requires
            old(self).wf(),
        ensures
            final(self).wf(),
            final(self).buffers() == replaced(old(self).buffers(), buffer_id, buffer),
            final(self).buffer_count() == old(self).buffer_count(),
            final(self).same_textures(*old(self)),
            final(self).same_meshes(*old(self)),
            final(self).same_bind_groups(*old(self)),
            final(self).same_pipelines_and_layouts(*old(self)),
    {
        if let ResourceId::Slot(n) = buffer_id {
            replace_dense(&mut self.buffers, n, buffer);
        }
    }

    /// Replaces the texture under `texture_id`; an id that names no texture
    /// leaves the storage unchanged.
    pub fn replace_texture(&mut self, texture_id: ResourceId, texture: GpuTexture)
        requires
            old(self).wf(),
        ensures
            final(self).wf(),
            final(self).textures() == replaced(old(self).textures(), texture_id, texture),
            final(self).texture_count() == old(self).texture_count(),
            final(self).same_buffers(*old(self)),
            final(self).same_meshes(*old(self)),
            final(self).same_bind_groups(*old(self)),
            final(self).same_pipelines_and_layouts(*old(self)),
    {
        if let ResourceId::Slot(n) = texture_id {
            replace_dense(&mut self.textures, n, texture);
        }
    }

    /// Replaces the mesh under `mesh_id`; an id that names no mesh leaves the
    /// storage unchanged.
    pub fn replace_mesh(&mut self, mesh_id: ResourceId, mesh: GpuMesh)
        requires
            old(self).wf(),
        ensures
            final(self).wf(),
            final(self).meshes() == replaced(old(self).meshes(), mesh_id, mesh),
            final(self).mesh_count() == old(self).mesh_count(),
            final(self).same_buffers(*old(self)),
            final(self).same_textures(*old(self)),
            final(self).same_bind_groups(*old(self)),
            final(self).same_pipelines_and_layouts(*old(self)),
    {
        if let ResourceId::Slot(n) = mesh_id {
            replace_dense(&mut self.meshes, n, mesh);
        }
    }

    /// Replaces the bind group under `bind_group_id`; an id that names no bind
    /// group leaves the storage unchanged.
    pub fn replace_bind_group(&mut self, bind_group_id: ResourceId, bind_group: BindGroup)
        requires
            old(self).wf(),
        ensures
            final(self).wf(),
            final(self).bind_groups() == replaced(old(self).bind_groups(), bind_group_id, bind_group),
            final(self).bind_group_count() == old(self).bind_group_count(),
            final(self).same_buffers(*old(self)),
            final(self).same_textures(*old(self)),
            final(self).same_meshes(*old(self)),
            final(self).same_pipelines_and_layouts(*old(self)),
    {
        if let ResourceId::Slot(n) = bind_group_id {
            replace_dense(&mut self.bind_groups, n, bind_group);
        }
    }

    /// Registers the layout that `build` makes under `name`, unless a layout is
    /// registered under that name already; `build` is only called when it is
    /// needed.
    pub fn register_bind_group_layout<F: FnOnce() -> BindGroupLayout>(
        &mut self,
        name: &'static str,
        build: F,
    )
        requires
            old(self).wf(),
            build.requires(()),
        ensures
            final(self).wf(),
            old(self).layouts().dom().contains(name@) ==> final(self).layouts() == old(self).layouts(),
            !old(self).layouts().dom().contains(name@) ==> exists|layout: BindGroupLayout|
                build.ensures((), layout) && final(self).layouts() == old(self).layouts().insert(
                    name@,
                    layout,
                ),
            final(self).same_buffers(*old(self)),
            final(self).same_textures(*old(self)),
            final(self).same_meshes(*old(self)),
            final(self).same_bind_groups(*old(self)),
            final(self).pipelines() == old(self).pipelines(),
            registers_layout(*old(self), *final(self), name@),
    {
        if !self.contains_bind_group_layout(name) {
            let layout = build();
            let ghost pre = *self;
            self.layouts.push((name, layout));
            proof {
                assert(pre.layouts@.len() + 1 == self.layouts@.len());
                assert forall|i: int| 0 <= i < pre.layouts@.len() implies self.layouts@[i] == pre.layouts@[i] by {}
                assert forall|n: Seq<char>| entries_name(self.layouts@, n) <==> entries_name(pre.layouts@, n) || n == name@ by {
                    if entries_name(self.layouts@, n) && n != name@ {
                        let i = choose|i: int| 0 <= i < self.layouts@.len() && #[trigger] self.layouts@[i].0@ == n;
                        assert(i < pre.layouts@.len());
                        assert(pre.layouts@[i].0@ == n);
                    }
                    if entries_name(pre.layouts@, n) {
                        let i = choose|i: int| 0 <= i < pre.layouts@.len() && #[trigger] pre.layouts@[i].0@ == n;
                        assert(self.layouts@[i].0@ == n);
                    }
                    if n == name@ {
                        let last = self.layouts@.len() - 1;
                        assert(self.layouts@[last].0@ == n);
                    }
                }
                assert forall|n: Seq<char>| #[trigger] entries_name(self.layouts@, n) implies entry_for(self.layouts@, n) == (
                    if n == name@ { layout } else { entry_for(pre.layouts@, n) }) by {
                    let i = choose|i: int| 0 <= i < self.layouts@.len() && #[trigger] self.layouts@[i].0@ == n;
                    if n == name@ {
                        if i < pre.layouts@.len() {
                            assert(pre.layouts@[i].0@ == name@);
                            assert(entries_name(pre.layouts@, name@));
                        }
                    } else {
                        let j = choose|j: int| 0 <= j < pre.layouts@.len() && #[trigger] pre.layouts@[j].0@ == n;
                        assert(i < pre.layouts@.len());
                        assert(self.layouts@[j].0@ == n);
                    }
                }
                assert(self.layouts() =~= pre.layouts().insert(name@, layout));
            }
        }
    }

    /// Whether a layout is registered under `name`.
    pub fn contains_bind_group_layout(&self, name: &str) -> (r: bool)
        requires
            self.wf(),
        ensures
            r == self.layouts().dom().contains(name@),
    {
        let mut i: usize = 0;
        while i < self.layouts.len()
            invariant
                i <= self.layouts@.len(),
                forall|j: int| 0 <= j < i ==> #[trigger] self.layouts@[j].0@ != name@,
            decreases self.layouts@.len() - i,
        {
            if str_equal(self.layouts[i].0, name) {
                return true;
            }
            i = i + 1;
        }
        false
    }

    /// The layout registered under `name`; one must be registered.
    pub fn get_bind_group_layout(&self, name: &str) -> (r: &BindGroupLayout)
        requires
            self.wf(),
            self.layouts().dom().contains(name@),
        ensures
            *r == self.layouts()[name@],
    {
        let mut i: usize = 0;
        while i < self.layouts.len()
            invariant
                i <= self.layouts@.len(),
                self.wf(),
                entries_name(self.layouts@, name@),
                forall|j: int| 0 <= j < i ==> #[trigger] self.layouts@[j].0@ != name@,
            decreases self.layouts@.len() - i,
        {
            if str_equal(self.layouts[i].0, name) {
                let ghost k = choose|k: int| 0 <= k < self.layouts@.len() && #[trigger] self.layouts@[k].0@ == name@;
                assert(k == i as int);
                return &self.layouts[i].1;
            }
            i = i + 1;
        }
        let ghost k = choose|k: int| 0 <= k < self.layouts@.len() && #[trigger] self.layouts@[k].0@ == name@;
        assert(false);
        &self.layouts[i].1
    }

    /// Whether `id` names a stored buffer.
    pub fn contains_buffer(&self, id: ResourceId) -> (r: bool)
        requires
            self.wf(),
        ensures
            r == holds(self.buffers(), id),
    {
        match id {
            ResourceId::Slot(n) => self.buffers.get(n).is_some(),
            ResourceId::WINDOW_VIEW_ID => false,
        }
    }

    /// Whether `id` names a stored texture.
    pub fn contains_texture(&self, id: ResourceId) -> (r: bool)
        requires
            self.wf(),
        ensures
            r == holds(self.textures(), id),
    {
        match id {
            ResourceId::Slot(n) => self.textures.get(n).is_some(),
            ResourceId::WINDOW_VIEW_ID => false,
        }
    }

    /// Whether `id` names a stored mesh.
    pub fn contains_mesh(&self, id: ResourceId) -> (r: bool)
        requires
            self.wf(),
        ensures
            r == holds(self.meshes(), id),
    {
        match id {
            ResourceId::Slot(n) => self.meshes.get(n).is_some(),
            ResourceId::WINDOW_VIEW_ID => false,
        }
    }

    /// Whether `id` names a stored bind group.
    pub fn contains_bind_group(&self, id: ResourceId) -> (r: bool)
        requires
            self.wf(),
        ensures
            r == holds(self.bind_groups(), id),
    {
        match id {
            ResourceId::Slot(n) => self.bind_groups.get(n).is_some(),
            ResourceId::WINDOW_VIEW_ID => false,
        }
    }

    /// Whether `id` names a stored pipeline.
    pub fn contains_pipeline(&self, id: ResourceId) -> (r: bool)
        ensures
            r == (match id {
                ResourceId::Slot(n) => n < self.pipelines().len(),
                ResourceId::WINDOW_VIEW_ID => false,
            }),
    {
        match id {
            ResourceId::Slot(n) => n < self.pipelines.len(),
            ResourceId::WINDOW_VIEW_ID => false,
        }
    }

    pub fn get_buffer(&self, id: ResourceId) -> (r: &Buffer)
        requires
            self.wf(),
            holds(self.buffers(), id),
        ensures
            *r == held(self.buffers(), id),
    {
        self.buffers.get(slot_index(id)).unwrap()
    }

    pub fn get_texture(&self, id: ResourceId) -> (r: &GpuTexture)
        requires
            self.wf(),
            holds(self.textures(), id),
        ensures
            *r == held(self.textures(), id),
    {
        self.textures.get(slot_index(id)).unwrap()
    }

    pub fn get_mesh(&self, id: ResourceId) -> (r: &GpuMesh)
        requires
            self.wf(),
            holds(self.meshes(), id),
        ensures
            *r == held(self.meshes(), id),
    {
        self.meshes.get(slot_index(id)).unwrap()
    }

    /// A mutable reference to the mesh under `id`; what is written through it
    /// becomes the mesh under `id`.
    pub fn get_mesh_mut(&mut self, id: ResourceId) -> (r: &mut GpuMesh)
        requires
            old(self).wf(),
            holds(old(self).meshes(), id),
        ensures
            final(self).wf(),
            *r == held(old(self).meshes(), id),
            final(self).meshes() == old(self).meshes().insert(slot_of(id)->Some_0, *final(r)),
            final(self).mesh_count() == old(self).mesh_count(),
            final(self).same_buffers(*old(self)),
            final(self).same_textures(*old(self)),
            final(self).same_bind_groups(*old(self)),
            final(self).same_pipelines_and_layouts(*old(self)),
    {
        self.meshes.get_mut(slot_index(id)).unwrap()
    }

    pub fn get_bind_group(&self, id: ResourceId) -> (r: &BindGroup)
        requires
            self.wf(),
            holds(self.bind_groups(), id),
        ensures
            *r == held(self.bind_groups(), id),
    {
        self.bind_groups.get(slot_index(id)).unwrap()
    }

    pub fn get_pipeline(&self, id: ResourceId) -> (r: &RenderPipeline)
        requires
            match id {
                ResourceId::Slot(n) => n < self.pipelines().len(),
                ResourceId::WINDOW_VIEW_ID => false,
            },
        ensures
            *r == self.pipelines()[slot_of(id)->Some_0 as int],
    {
        &self.pipelines[slot_index(id)]
    }
}

/// The step from `before` to `after` is an `insert_texture` of `texture`
/// that returned `id`, as that method's contract describes it.
pub open spec fn inserts_texture(
    before: RenderStorage,
    after: RenderStorage,
    texture: GpuTexture,
    id: ResourceId,
) -> bool {
    &&& before.texture_count() < usize::MAX
    &&& id == ResourceId::Slot(before.texture_count() as usize)
    &&& !holds(before.textures(), id)
    &&& after.textures() == before.textures().insert(before.texture_count() as usize, texture)
    &&& after.texture_count() == before.texture_count() + 1
}

/// Textures inserted one after another get the ids `Slot(c)`, `Slot(c + 1)`,
/// ..., where `c` is the number of texture slots handed out before the first
/// (so `0, 1, ...` on a new storage); afterwards every one of those ids still
/// reads back its own texture, and every texture stored before is unchanged.
pub proof fn lemma_texture_inserts_read_back(
    states: Seq<RenderStorage>,
    textures: Seq<GpuTexture>,
    ids: Seq<ResourceId>,
)
    requires
        states.len() == textures.len() + 1,
        ids.len() == textures.len(),
        forall|i: int|
            0 <= i < textures.len() ==> #[trigger] inserts_texture(
                states[i],
                states[i + 1],
                textures[i],
                ids[i],
            ),
    ensures
        states.last().texture_count() == states[0].texture_count() + textures.len(),
        forall|i: int|
            0 <= i < ids.len() ==> #[trigger] ids[i] == ResourceId::Slot(
                (states[0].texture_count() + i) as usize,
            ),
        forall|i: int|
            0 <= i < ids.len() ==> holds(states.last().textures(), #[trigger] ids[i]) && held(
                states.last().textures(),
                ids[i],
            ) == textures[i],
        forall|id: ResourceId|
            #[trigger] holds(states[0].textures(), id) ==> holds(states.last().textures(), id)
                && held(states.last().textures(), id) == held(states[0].textures(), id),
    decreases textures.len(),
{
    let n = textures.len();
    if n > 0 {
        let prev = states.drop_last();
        let ts = textures.drop_last();
        let is = ids.drop_last();
        assert forall|i: int| 0 <= i < ts.len() implies #[trigger] inserts_texture(
            prev[i],
            prev[i + 1],
            ts[i],
            is[i],
        ) by {
            assert(inserts_texture(states[i], states[i + 1], textures[i], ids[i]));
        }
        lemma_texture_inserts_read_back(prev, ts, is);
        let before = states[n - 1];
        let after = states[n as int];
        assert(prev.last() == before);
        assert(inserts_texture(states[n - 1], states[(n - 1) + 1], textures[n - 1], ids[n - 1]));
        let c = before.texture_count() as usize;
        assert forall|i: int| 0 <= i < ids.len() implies #[trigger] ids[i] == ResourceId::Slot(
            (states[0].texture_count() + i) as usize,
        ) by {
            if i < n - 1 {
                assert(is[i] == ids[i]);
            }
        }
        assert forall|i: int| 0 <= i < ids.len() implies holds(after.textures(), #[trigger] ids[i])
            && held(after.textures(), ids[i]) == textures[i] by {
            if i < n - 1 {
                assert(is[i] == ids[i]);
                assert(ts[i] == textures[i]);
                assert(holds(before.textures(), is[i]));
                assert(slot_of(ids[i])->Some_0 != c);
            }
        }
        assert forall|id: ResourceId| #[trigger] holds(states[0].textures(), id) implies holds(
            after.textures(),
            id,
        ) && held(after.textures(), id) == held(states[0].textures(), id) by {
            assert(holds(before.textures(), id));
            assert(before.textures().dom().contains(slot_of(id)->Some_0));
            assert(slot_of(id)->Some_0 != c);
        }
    }
}

/// One call on a storage, as far as its textures are concerned.
pub enum TextureStep {
    /// `insert_texture(texture)`, which returned `id`.
    Insert { texture: GpuTexture, id: ResourceId },
    /// `replace_texture(id, texture)`.
    Replace { id: ResourceId, texture: GpuTexture },
    /// Any other operation: each leaves the textures and their count alone.
    Keep,
}

/// The step from `before` to `after` is `step`, as the contract of the
/// operation it stands for describes it.
pub open spec fn texture_step(before: RenderStorage, after: RenderStorage, step: TextureStep) -> bool {
    match step {
        TextureStep::Insert { texture, id } => inserts_texture(before, after, texture, id),
        TextureStep::Replace { id, texture } => {
            &&& after.textures() == replaced(before.textures(), id, texture)
            &&& after.texture_count() == before.texture_count()
        },
        TextureStep::Keep => after.same_textures(before),
    }
}

/// Whether `step` replaces the texture under `id`.
pub open spec fn replaces(step: TextureStep, id: ResourceId) -> bool {
    match step {
        TextureStep::Replace { id: target, .. } => target == id,
        _ => false,
    }
}

/// Over any history of calls on a storage, the id an `insert_texture` hands
/// out names a texture from then on, and it reads back the texture inserted
/// as long as no `replace_texture` under that id has come since, whatever
/// else happened in between. The id is `Slot(n)`, `n` being the number of
/// texture slots handed out before that call.
pub proof fn lemma_texture_history_read_back(states: Seq<RenderStorage>, steps: Seq<TextureStep>, s: int)
    requires
        states.len() == steps.len() + 1,
        forall|i: int| 0 <= i < steps.len() ==> #[trigger] texture_step(states[i], states[i + 1], steps[i]),
        0 <= s < steps.len(),
        steps[s] is Insert,
    ensures
        steps[s]->Insert_id == ResourceId::Slot(states[s].texture_count() as usize),
        holds(states.last().textures(), steps[s]->Insert_id),
        (forall|j: int| s < j < steps.len() ==> !replaces(#[trigger] steps[j], steps[s]->Insert_id))
            ==> held(states.last().textures(), steps[s]->Insert_id) == steps[s]->Insert_texture,
{
    assert(texture_step(states[s], states[s + 1], steps[s]));
    lemma_texture_history_from(states, steps, s, steps.len() as int);
}

proof fn lemma_texture_history_from(states: Seq<RenderStorage>, steps: Seq<TextureStep>, s: int, n: int)
    requires
        states.len() == steps.len() + 1,
        forall|i: int| 0 <= i < steps.len() ==> #[trigger] texture_step(states[i], states[i + 1], steps[i]),
        0 <= s < n <= steps.len(),
        steps[s] is Insert,
    ensures
        holds(states[n].textures(), steps[s]->Insert_id),
        (forall|j: int| s < j < n ==> !replaces(#[trigger] steps[j], steps[s]->Insert_id))
            ==> held(states[n].textures(), steps[s]->Insert_id) == steps[s]->Insert_texture,
    decreases n,
{
    let id = steps[s]->Insert_id;
    let t = steps[s]->Insert_texture;
    if n == s + 1 {
        assert(texture_step(states[s], states[s + 1], steps[s]));
    } else {
        lemma_texture_history_from(states, steps, s, n - 1);
        let before = states[n - 1];
        let after = states[n];
        assert(texture_step(states[n - 1], states[(n - 1) + 1], steps[n - 1]));
        match steps[n - 1] {
            TextureStep::Insert { texture, id: new_id } => {
                assert(!holds(before.textures(), new_id));
                assert(slot_of(id)->Some_0 != slot_of(new_id)->Some_0);
            },
            TextureStep::Replace { id: target, texture } => {
                if (forall|j: int| s < j < n ==> !replaces(#[trigger] steps[j], id)) {
                    assert(!replaces(steps[n - 1], id));
                    assert(target != id);
                }
            },
            TextureStep::Keep => {},
        }
    }
}

/// The step from `before` to `after` is a `register_bind_group_layout` under
/// `name`, as that method's contract describes it: a name registered already
/// keeps its layout, a new one gets the layout that was built for it.
pub open spec fn registers_layout(before: RenderStorage, after: RenderStorage, name: Seq<char>) -> bool {
    &&& before.layouts().dom().contains(name) ==> after.layouts() == before.layouts()
    &&& !before.layouts().dom().contains(name) ==> exists|layout: BindGroupLayout|
        after.layouts() == before.layouts().insert(name, layout)
}

/// A layout, once registered under a name, stays registered under it: later
/// registrations, under that name or another, and the storage's other
/// operations (which leave the layouts as they are) never change it, so
/// `get_bind_group_layout(name)` keeps giving back the first layout registered.
pub proof fn lemma_registered_layout_persists(
    states: Seq<RenderStorage>,
    names: Seq<Seq<char>>,
    name: Seq<char>,
)
    requires
        states.len() == names.len() + 1,
        states[0].layouts().dom().contains(name),
        forall|i: int|
            0 <= i < names.len() ==> #[trigger] registers_layout(states[i], states[i + 1], names[i])
                || states[i + 1].layouts() == states[i].layouts(),
    ensures
        states.last().layouts().dom().contains(name),
        states.last().layouts()[name] == states[0].layouts()[name],
    decreases names.len(),
{
    let n = names.len();
    if n > 0 {
        let prev = states.drop_last();
        let ns = names.drop_last();
        assert forall|i: int| 0 <= i < ns.len() implies #[trigger] registers_layout(
            prev[i],
            prev[i + 1],
            ns[i],
        ) || prev[i + 1].layouts() == prev[i].layouts() by {
            assert(registers_layout(states[i], states[i + 1], names[i]) || states[i + 1].layouts()
                == states[i].layouts());
        }
        lemma_registered_layout_persists(prev, ns, name);
        let before = states[n - 1];
        let after = states[n as int];
        assert(prev.last() == before);
        assert(registers_layout(before, after, names[n - 1]) || after.layouts() == before.layouts());
        if after.layouts() != before.layouts() {
            if !before.layouts().dom().contains(names[n - 1]) {
                assert(names[n - 1] != name);
            }
        }
    }
}

impl Default for RenderStorage {
    fn default() -> (r: Self)
        ensures
            r.wf(),
            r.buffers() == Map::<usize, Buffer>::empty(),
            r.textures() == Map::<usize, GpuTexture>::empty(),
            r.meshes() == Map::<usize, GpuMesh>::empty(),
            r.bind_groups() == Map::<usize, BindGroup>::empty(),
            r.pipelines() == Seq::<RenderPipeline>::empty(),
            r.layouts() == Map::<Seq<char>, BindGroupLayout>::empty(),
            r.buffer_count() == 0 && r.texture_count() == 0,
            r.mesh_count() == 0 && r.bind_group_count() == 0,
    {
        Self::new()
    }
}

} // verus!
