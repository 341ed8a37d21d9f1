use vstd::prelude::*;

verus! {

/// A vector that never holds more than `S` items.
#[derive(Debug, Clone)]
pub struct ConstVec<const S: usize, T> {
    data: Vec<T>,
}

impl<const S: usize, T> View for ConstVec<S, T> {
    type V = Seq<T>;

    closed spec fn view(&self) -> Seq<T> {
        self.data@
    }
}

impl<const S: usize, T> ConstVec<S, T> {
    /// The bound on the number of items.
    pub closed spec fn wf(&self) -> bool {
        self.data@.len() <= S
    }

    /// Appends `item`; the vector must not be full yet.
    pub fn push(&mut self, item: T)
        requires
            old(self).wf(),
            old(self)@.len() < S,
        ensures
            final(self).wf(),
            final(self)@ == old(self)@.push(item),
    {
        if self.data.len() >= S {
            // The size limit is exceeded: there is no slot at this index, and
            // indexing it stops the program.
            let _ = &self.data[self.data.len()];
        }
        self.data.push(item);
    }

    /// The items held, in insertion order.
    pub fn as_slice(&self) -> (r: &[T])
        ensures
            r@ == self@,
    {
        self.data.as_slice()
    }

    /// An iterator over the items held, in insertion order.
    pub fn iter(&self) -> (r: std::slice::Iter<'_, T>)
        ensures
            vstd::std_specs::iter::IteratorSpec::remaining(&r) == self@.as_ref(),
    {
        self.data.as_slice().iter()
    }

    /// Applies `f` to each item, in order, and collects the results.
    pub fn map<B, F: Fn(T) -> B>(self, f: F) -> (r: ConstVec<S, B>)
        requires
            self.wf(),
            forall|i: int| 0 <= i < self@.len() ==> #[trigger] f.requires((self@[i],)),
        ensures
            r.wf(),
            r@.len() == self@.len(),
            forall|i: int| 0 <= i < self@.len() ==> #[trigger] f.ensures((self@[i],), r@[i]),
    {
        let ghost items = self.data@;
        assert forall|i: int| 0 <= i < items.len() implies #[trigger] f.requires((items[i],)) by {
            assert(items[i] == self@[i]);
            assert(f.requires((self@[i],)));
        }
        let mut v: ConstVec<S, B> = ConstVec::default();
        for item in it: self.data.into_iter()
            invariant
                it.seq() == items,
                items.len() <= S,
                forall|i: int| 0 <= i < items.len() ==> #[trigger] f.requires((items[i],)),
                v.wf(),
                v@.len() == it.index(),
                forall|i: int| 0 <= i < it.index() ==> #[trigger] f.ensures((items[i],), v@[i]),
        {
            let out = f(item);
            v.push(out);
        }
        v
    }

    /// Collects `items` into a bounded vector; there must be at most `S` of them.
    pub fn from_iter(items: Vec<T>) -> (r: Self)
        requires
            items@.len() <= S,
        ensures
            r.wf(),
            r@ == items@,
    {
        let ghost src = items@;
        let mut v: ConstVec<S, T> = ConstVec::default();
        for item in it: items.into_iter()
            invariant
                it.seq() == src,
                src.len() <= S,
                v.wf(),
                v@ == src.take(it.index() as int),
        {
            v.push(item);
            assert(v@ =~= src.take(it.index() as int + 1));
        }
        assert(v@ =~= src);
        v
    }
}

impl<const S: usize, T> Default for ConstVec<S, T> {
    fn default() -> (r: Self)
        ensures
            r.wf(),
            r@ == Seq::<T>::empty(),
    {
        ConstVec { data: Vec::new() }
    }
}

} // verus!
