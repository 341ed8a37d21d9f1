use vstd::prelude::*;
use std::ops::Deref;
use wgpu::TextureView;
use crate::render::storage::{RenderStorage, ResourceId, held, holds, str_equal};

verus! {

/// A bind group and the slot it is bound at.
#[derive(Debug)]
pub struct BindGroupMeta {
    pub index: u32,
    pub bind_group_id: ResourceId,
}

/// The storage as seen while rendering one frame: the window view id stands
/// for the view of that frame.
pub struct CurrentFrameStorage<'a> {
    pub storage: &'a RenderStorage,
    pub current_frame_view: &'a TextureView,
}

impl<'a> CurrentFrameStorage<'a> {
    /// The view that `id` names: the current frame's view for the window view
    /// id, the view of the stored texture otherwise.
    pub fn get_view(&self, id: ResourceId) -> (r: &TextureView)
        requires
            self.storage.wf(),
            id == ResourceId::WINDOW_VIEW_ID || holds(self.storage.textures(), id),
        ensures
            id == ResourceId::WINDOW_VIEW_ID ==> *r == *self.current_frame_view,
            id != ResourceId::WINDOW_VIEW_ID ==> *r == held(self.storage.textures(), id).view,
    {
        if id == ResourceId::WINDOW_VIEW_ID {
            self.current_frame_view
        } else {
            &self.storage.get_texture(id).view
        }
    }
}

impl<'a> Deref for CurrentFrameStorage<'a> {
    type Target = RenderStorage;

    fn deref(&self) -> (r: &RenderStorage)
        ensures
            *r == *self.storage,
    {
        self.storage
    }
}

/// Render phases under their names, the draw commands queued for each, and
/// the order in which the phases run. `P` is what a phase renders into and
/// `C` a draw command.
pub struct RenderSystem<P, C> {
    names: Vec<String>,
    phases: Vec<P>,
    commands: Vec<Vec<C>>,
    order: Vec<usize>,
}

/// Whether the phase at position `k` has a place in `order`.
pub open spec fn in_order(order: Seq<usize>, k: int) -> bool {
    exists|i: int| 0 <= i < order.len() && #[trigger] order[i] == k
}

/// `queued` after the phases at the first `n` positions of `order` have run,
/// each one's commands cleared once it has run.
pub open spec fn cleared_along<C>(queued: Seq<Seq<C>>, order: Seq<usize>, n: int) -> Seq<Seq<C>>
    decreases n,
{
    if n <= 0 {
        queued
    } else {
        cleared_along(queued, order, n - 1).update(order[n - 1] as int, Seq::empty())
    }
}

proof fn lemma_frame_clears_all_commands<C>(queued: Seq<Seq<C>>, order: Seq<usize>)
    requires
        forall|i: int| 0 <= i < order.len() ==> (#[trigger] order[i] as int) < queued.len(),
        forall|k: int| 0 <= k < queued.len() ==> #[trigger] in_order(order, k),
    ensures
        cleared_along(queued, order, order.len() as int).len() == queued.len(),
        forall|k: int| 0 <= k < queued.len() ==> #[trigger] cleared_along(queued, order, order.len() as int)[k]
            == Seq::<C>::empty(),
{
    lemma_cleared_along(queued, order, order.len() as int);
    assert forall|k: int| 0 <= k < queued.len() implies #[trigger] cleared_along(queued, order, order.len() as int)[k]
        == Seq::<C>::empty() by {
        assert(in_order(order, k));
        let i = choose|i: int| 0 <= i < order.len() && #[trigger] order[i] == k;
        assert(order[i] == k);
    }
}

proof fn lemma_cleared_along<C>(queued: Seq<Seq<C>>, order: Seq<usize>, n: int)
    requires
        0 <= n <= order.len(),
        forall|i: int| 0 <= i < order.len() ==> (#[trigger] order[i] as int) < queued.len(),
    ensures
        cleared_along(queued, order, n).len() == queued.len(),
        forall|i: int| 0 <= i < n ==> #[trigger] cleared_along(queued, order, n)[order[i] as int] == Seq::<C>::empty(),
        forall|k: int|
            0 <= k < queued.len() && (forall|i: int| 0 <= i < n ==> order[i] != k) ==> #[trigger] cleared_along(
                queued,
                order,
                n,
            )[k] == queued[k],
    decreases n,
{
    if n > 0 {
        lemma_cleared_along(queued, order, n - 1);
        let prev = cleared_along(queued, order, n - 1);
        assert forall|i: int| 0 <= i < n implies #[trigger] cleared_along(queued, order, n)[order[i] as int]
            == Seq::<C>::empty() by {
            if i < n - 1 && order[i] != order[n - 1] {
                assert(prev[order[i] as int] == Seq::<C>::empty());
            }
        }
        assert forall|k: int|
            0 <= k < queued.len() && (forall|i: int| 0 <= i < n ==> order[i] != k) implies #[trigger] cleared_along(
            queued,
            order,
            n,
        )[k] == queued[k] by {
            assert(order[n - 1] != k);
            assert(forall|i: int| 0 <= i < n - 1 ==> order[i] != k);
        }
    }
}

impl<P, C> RenderSystem<P, C> {
    /// The names of the phases, one per phase.
    pub closed spec fn names(&self) -> Seq<Seq<char>> {
        self.names@.map_values(|name: String| name@)
    }

    /// The phases, in the order their names were first added.
    pub closed spec fn phases(&self) -> Seq<P> {
        self.phases@
    }

    /// The commands queued for each phase.
    pub closed spec fn queued(&self) -> Seq<Seq<C>> {
        self.commands@.map_values(|commands: Vec<C>| commands@)
    }

    /// The phases to run, by position, one entry per `add_phase`.
    pub closed spec fn order(&self) -> Seq<usize> {
        self.order@
    }

    /// One phase and one queue of commands per name, no name twice, every
    /// entry of the order a phase's position, and every phase in the order.
    pub open spec fn wf(&self) -> bool {
        &&& self.phases().len() == self.names().len()
        &&& self.queued().len() == self.names().len()
        &&& forall|i: int, j: int|
            0 <= i < self.names().len() && 0 <= j < self.names().len() && i != j
                ==> #[trigger] self.names()[i] != #[trigger] self.names()[j]
        &&& forall|i: int| 0 <= i < self.order().len() ==> (#[trigger] self.order()[i] as int) < self.names().len()
        &&& forall|k: int| 0 <= k < self.names().len() ==> #[trigger] in_order(self.order(), k)
    }

    /// A frame runs the phases in order and clears each one's commands after
    /// it has run: afterwards no phase has a command queued.
    pub proof fn lemma_frame_clears_queues(&self)
        requires
            self.wf(),
        ensures
            cleared_along(self.queued(), self.order(), self.order().len() as int).len()
                == self.phases().len(),
            forall|k: int|
                0 <= k < self.phases().len() ==> #[trigger] cleared_along(
                    self.queued(),
                    self.order(),
                    self.order().len() as int,
                )[k] == Seq::<C>::empty(),
    {
        lemma_frame_clears_all_commands(self.queued(), self.order());
    }

    /// The position of the phase named `name`.
    pub open spec fn position_of(&self, name: Seq<char>) -> int {
        choose|k: int| 0 <= k < self.names().len() && self.names()[k] == name
    }

    pub fn new() -> (r: Self)
        ensures
            r.wf(),
            r.names() == Seq::<Seq<char>>::empty(),
            r.phases() == Seq::<P>::empty(),
            r.queued() == Seq::<Seq<C>>::empty(),
            r.order() == Seq::<usize>::empty(),
    {
        let r = RenderSystem { names: Vec::new(), phases: Vec::new(), commands: Vec::new(), order: Vec::new() };
        assert(r.names() =~= Seq::<Seq<char>>::empty());
        assert(r.queued() =~= Seq::<Seq<C>>::empty());
        r
    }

    /// The position of the phase named `name`, if there is one.
    fn find(&self, name: &str) -> (r: Option<usize>)
        requires
            self.wf(),
        ensures
            match r {
                Some(k) => k < self.names().len() && self.names()[k as int] == name@,
                None => !self.names().contains(name@),
            },
    {
        let mut i: usize = 0;
        while i < self.names.len()
            invariant
                i <= self.names@.len(),
                forall|j: int| 0 <= j < i ==> #[trigger] self.names@[j]@ != name@,
            decreases self.names@.len() - i,
        {
            if str_equal(self.names[i].as_str(), name) {
                return Some(i);
            }
            i = i + 1;
        }
        proof {
            if self.names().contains(name@) {
                let j = choose|j: int| 0 <= j < self.names().len() && self.names()[j] == name@;
                assert(self.names@[j]@ == name@);
            }
        }
        None
    }

    /// Whether a phase is named `name`.
    pub fn contains_phase(&self, name: &str) -> (r: bool)
        requires
            self.wf(),
        ensures
            r == self.names().contains(name@),
    {
        self.find(name).is_some()
    }

    /// Adds `phase`, with `commands` queued, to run after the phases added
    /// before. A phase of the same name is replaced, queued commands and all,
    /// and then runs at both places in the order.
    pub fn add_phase(&mut self, name: String, phase: P, commands: Vec<C>)
        requires
            old(self).wf(),
            old(self).order().len() < usize::MAX,
            old(self).names().len() < usize::MAX,
        ensures
            final(self).wf(),
            old(self).names().contains(name@) ==> {
                let k = old(self).position_of(name@);
                &&& final(self).names() == old(self).names()
                &&& final(self).phases() == old(self).phases().update(k, phase)
                &&& final(self).queued() == old(self).queued().update(k, commands@)
                &&& final(self).order() == old(self).order().push(k as usize)
            },
            !old(self).names().contains(name@) ==> {
                &&& final(self).names() == old(self).names().push(name@)
                &&& final(self).phases() == old(self).phases().push(phase)
                &&& final(self).queued() == old(self).queued().push(commands@)
                &&& final(self).order() == old(self).order().push(old(self).names().len() as usize)
            },
    {
        let ghost pre = *self;
        match self.find(name.as_str()) {
            Some(k) => {
                proof {
                    let j = pre.position_of(name@);
                    assert(pre.names@[j]@ == name@);
                    assert(pre.names@[k as int]@ == name@);
                }
                self.phases.set(k, phase);
                self.commands.set(k, commands);
                self.order.push(k);
                proof {
                    assert(self.names() =~= pre.names());
                    assert(self.queued() =~= pre.queued().update(k as int, commands@));
                    assert forall|m: int| 0 <= m < self.names@.len() implies #[trigger] in_order(self.order@, m) by {
                        assert(in_order(pre.order@, m));
                        let i = choose|i: int| 0 <= i < pre.order@.len() && #[trigger] pre.order@[i] == m;
                        assert(self.order@[i] == m);
                    }
                }
            },
            None => {
                let k = self.names.len();
                self.names.push(name);
                self.phases.push(phase);
                self.commands.push(commands);
                self.order.push(k);
                proof {
                    assert(self.names() =~= pre.names().push(name@));
                    assert(self.queued() =~= pre.queued().push(commands@));
                    assert forall|i: int, j: int|
                        0 <= i < self.names().len() && 0 <= j < self.names().len() && i != j
                            implies #[trigger] self.names()[i] != #[trigger] self.names()[j] by {
                        if i == k as int {
                            assert(pre.names().contains(pre.names()[j]));
                        } else if j == k as int {
                            assert(pre.names().contains(pre.names()[i]));
                        }
                    }
                    assert forall|m: int| 0 <= m < self.names@.len() implies #[trigger] in_order(self.order@, m) by {
                        if m == k as int {
                            assert(self.order@[self.order@.len() - 1] == m);
                        } else {
                            assert(in_order(pre.order@, m));
                            let i = choose|i: int| 0 <= i < pre.order@.len() && #[trigger] pre.order@[i] == m;
                            assert(self.order@[i] == m);
                        }
                    }
                }
            },
        }
    }

    /// Queues `commands` after those already queued for the phase named
    /// `name`; such a phase must exist.
    pub fn add_phase_commands(&mut self, name: &str, commands: Vec<C>)
        requires
            old(self).wf(),
            old(self).names().contains(name@),
        ensures
            final(self).wf(),
            final(self).names() == old(self).names(),
            final(self).phases() == old(self).phases(),
            final(self).order() == old(self).order(),
            final(self).queued() == old(self).queued().update(
                old(self).position_of(name@),
                old(self).queued()[old(self).position_of(name@)] + commands@,
            ),
    {
        let ghost pre = *self;
        let k = self.find(name).unwrap();
        proof {
            let j = pre.position_of(name@);
            assert(pre.names@[j]@ == name@);
            assert(pre.names@[k as int]@ == name@);
        }
        let mut commands = commands;
        let ghost added = commands@;
        self.commands[k].append(&mut commands);
        proof {
            assert(self.queued() =~= pre.queued().update(k as int, pre.queued()[k as int] + added));
            assert(self.names() =~= pre.names());
            assert(self.order() =~= pre.order());
        }
    }

    /// The positions of the phases to run, in order.
    pub fn run_order(&self) -> (r: &[usize])
        ensures
            r@ == self.order(),
    {
        self.order.as_slice()
    }

    /// The phase at position `k`.
    pub fn phase(&self, k: usize) -> (r: &P)
        requires
            self.wf(),
            k < self.phases().len(),
        ensures
            *r == self.phases()[k as int],
    {
        &self.phases[k]
    }

    /// The name of the phase at position `k`.
    pub fn phase_name(&self, k: usize) -> (r: &str)
        requires
            self.wf(),
            k < self.names().len(),
        ensures
            r@ == self.names()[k as int],
    {
        self.names[k].as_str()
    }

    /// The commands queued for the phase at position `k`.
    pub fn phase_commands(&self, k: usize) -> (r: &[C])
        requires
            self.wf(),
            k < self.queued().len(),
        ensures
            r@ == self.queued()[k as int],
    {
        self.commands[k].as_slice()
    }

    /// Drops the commands queued for the phase at position `k`, once it has run.
    pub fn clear_commands(&mut self, k: usize)
        requires
            old(self).wf(),
            k < old(self).queued().len(),
        ensures
            final(self).wf(),
            final(self).names() == old(self).names(),
            final(self).phases() == old(self).phases(),
            final(self).order() == old(self).order(),
            final(self).queued() == old(self).queued().update(k as int, Seq::empty()),
    {
        let ghost pre = *self;
        self.commands.set(k, Vec::new());
        assert(self.queued() =~= pre.queued().update(k as int, Seq::empty()));
        assert(self.names() =~= pre.names());
        assert(self.order() =~= pre.order());
    }
}

} // verus!
