use vstd::prelude::*;
use std::marker::PhantomData;
use crate::render::storage::ResourceId;
use crate::render::system::BindGroupMeta;

verus! {

/// A bind group kind that can be bound at a fixed slot of a pipeline.
pub trait Binding: Default {
    type BindGroup: AssetBindGroup;

    fn bind_group_meta(bind_group: &Self::BindGroup) -> BindGroupMeta;
}

/// The material colour bind group, bound at slot `I`.
#[derive(Default)]
pub struct ColorMaterialBinding<const I: usize>;

impl<const I: usize> Binding for ColorMaterialBinding<I> {
    type BindGroup = ColorMaterialBindGroup;

    fn bind_group_meta(bind_group: &Self::BindGroup) -> (r: BindGroupMeta)
        ensures
            r.index == I as u32,
            r.bind_group_id == ResourceId::WINDOW_VIEW_ID,
    {
        BindGroupMeta { index: I as u32, bind_group_id: bind_group.bind_group() }
    }
}

/// A bind group stored in a render storage.
pub trait AssetBindGroup {
    type ResourceHandle;
    type BindingType;

    fn bind_group(&self) -> ResourceId;
}

/// The bind group of a colour material.
pub struct ColorMaterialBindGroup;

impl AssetBindGroup for ColorMaterialBindGroup {
    type ResourceHandle = ();
    type BindingType = ();

    fn bind_group(&self) -> (r: ResourceId)
        ensures
            r == ResourceId::WINDOW_VIEW_ID,
    {
        ResourceId::WINDOW_VIEW_ID
    }
}

/// A pipeline typed by the bindings added to it so far.
pub struct Pipeline<BindingTypes> {
    _phantom: PhantomData<BindingTypes>,
}

impl<BindingTypes> Pipeline<BindingTypes> {
    pub fn new() -> Self {
        Self { _phantom: PhantomData }
    }

    /// The same pipeline with binding `B` added in front of its bindings.
    pub fn add_bind_group<B: Binding>(self) -> Pipeline<(B, BindingTypes)> {
        Pipeline { _phantom: PhantomData }
    }
}

/// Slot `I` of a pipeline.
pub struct Index<const I: usize>;

/// The bind group meta of a bind group paired with its slot.
pub trait Foo<BG: AssetBindGroup> {
    fn bind_group_meta(bind_group: &BG) -> BindGroupMeta;
}

impl<BG: AssetBindGroup, const I: usize> Foo<BG> for (BG, Index<I>) {
    fn bind_group_meta(bind_group: &BG) -> (r: BindGroupMeta)
        ensures
            r.index == I as u32,
    {
        BindGroupMeta { index: I as u32, bind_group_id: bind_group.bind_group() }
    }
}

/// Builds the meta of the colour material bind group at slot 1 both ways,
/// and a pipeline with colour material bindings at slots 1 and 2.
pub fn foo() {
    let bg = ColorMaterialBindGroup;
    let meta = <(ColorMaterialBindGroup, Index<1>)>::bind_group_meta(&bg);
    let meta2 = ColorMaterialBinding::<1>::bind_group_meta(&bg);
    assert(meta.index == meta2.index);
    let pipeline = Pipeline::<()>::new().add_bind_group::<ColorMaterialBinding<1>>().add_bind_group::<
        ColorMaterialBinding<2>,
    >();
}

} // verus!
