//! Identifier allocator that hands out fresh identifiers and reuses released
//! ones, last released first.
use vstd::prelude::*;

verus! {

/// Abstract state of a [`RecycleAllocator`]: the next fresh identifier and
/// the stack of released identifiers (top at the end).
pub struct RecycleView {
    pub next: nat,
    pub free: Seq<usize>,
}

impl RecycleView {
    /// Every released identifier was handed out before, and none is
    /// released twice.
    pub open spec fn wf(self) -> bool {
        &&& forall|i: int| 0 <= i < self.free.len() ==> (#[trigger] self.free[i]) < self.next
        &&& self.free.no_duplicates()
    }

    /// The identifiers that are currently handed out.
    pub open spec fn allocated(self) -> Set<usize> {
        Set::new(|id: usize| id < self.next && !self.free.contains(id))
    }

    /// State after an allocation, and the identifier it hands out.
    pub open spec fn alloc_step(self) -> (RecycleView, usize) {
        if self.free.len() > 0 {
            (RecycleView { next: self.next, free: self.free.drop_last() }, self.free.last())
        } else {
            (RecycleView { next: self.next + 1, free: self.free }, self.next as usize)
        }
    }

    /// State after `id` is released.
    pub open spec fn dealloc(self, id: usize) -> RecycleView {
        RecycleView { next: self.next, free: self.free.push(id) }
    }

    /// An allocation does not overflow the identifier space.
    pub open spec fn can_alloc(self) -> bool {
        self.free.len() > 0 || self.next < usize::MAX
    }
}

/// Hands out `usize` identifiers: a released one when there is any (the last
/// released first), else the next fresh one.
pub struct RecycleAllocator {
    current: usize,
    recycled: Vec<usize>,
}

impl View for RecycleAllocator {
    type V = RecycleView;

    closed spec fn view(&self) -> RecycleView {
        RecycleView { next: self.current as nat, free: self.recycled@ }
    }
}

impl RecycleAllocator {
    /// An allocator that has handed out nothing.
    pub fn new() -> (r: Self)
        ensures
            r@.wf(),
            r@.next == 0,
            r@.free == Seq::<usize>::empty(),
            r@.allocated() == Set::<usize>::empty(),
    {
        let r = RecycleAllocator { current: 0, recycled: Vec::new() };
        assert(r@.allocated() =~= Set::<usize>::empty());
        r
    }

    /// Hands out an identifier: the last released one if any, else the next
    /// fresh one.
    pub fn alloc_id(&mut self) -> (id: usize)
        requires
            old(self)@.wf(),
            old(self)@.can_alloc(),
        ensures
            (final(self)@, id) == old(self)@.alloc_step(),
            final(self)@.wf(),
            !old(self)@.allocated().contains(id),
            final(self)@.allocated() == old(self)@.allocated().insert(id),
    {
        proof {
            lemma_alloc(self@);
        }
        if let Some(id) = self.recycled.pop() {
            id
        } else {
            self.current += 1;
            self.current - 1
        }
    }

    /// Releases `id`, which must be handed out.
    pub fn dealloc(&mut self, id: usize)
        requires
            old(self)@.wf(),
            old(self)@.allocated().contains(id),
        ensures
            final(self)@ == old(self)@.dealloc(id),
            final(self)@.wf(),
            final(self)@.allocated() == old(self)@.allocated().remove(id),
    {
        proof {
            lemma_dealloc(self@, id);
        }
        self.recycled.push(id);
    }
}

/// An allocation keeps the allocator well formed, hands out an identifier
/// that was not handed out, and adds exactly that identifier.
pub proof fn lemma_alloc(v: RecycleView)
    requires
        v.wf(),
        v.can_alloc(),
    ensures
        v.alloc_step().0.wf(),
        !v.allocated().contains(v.alloc_step().1),
        v.alloc_step().0.allocated() == v.allocated().insert(v.alloc_step().1),
{
    let (w, id) = v.alloc_step();
    if v.free.len() > 0 {
        let last = v.free.last();
        assert(v.free[v.free.len() - 1] == last);
        assert(v.free.contains(last));
        assert forall|x: usize| w.free.contains(x) implies v.free.contains(x) && x != last by {
            let k = choose|k: int| 0 <= k < w.free.len() && w.free[k] == x;
            assert(v.free[k] == x);
        }
        assert forall|x: usize| v.free.contains(x) && x != last implies w.free.contains(x) by {
            let k = choose|k: int| 0 <= k < v.free.len() && v.free[k] == x;
            if k == v.free.len() - 1 {
            } else {
                assert(w.free[k] == x);
            }
        }
        assert(w.allocated() =~= v.allocated().insert(id));
    } else {
        assert(w.allocated() =~= v.allocated().insert(id));
    }
}

/// A release keeps the allocator well formed and removes exactly `id`.
pub proof fn lemma_dealloc(v: RecycleView, id: usize)
    requires
        v.wf(),
        v.allocated().contains(id),
    ensures
        v.dealloc(id).wf(),
        v.dealloc(id).allocated() == v.allocated().remove(id),
{
    let w = v.dealloc(id);
    assert forall|x: usize| w.free.contains(x) <==> (v.free.contains(x) || x == id) by {
        if w.free.contains(x) {
            let k = choose|k: int| 0 <= k < w.free.len() && w.free[k] == x;
            if k < v.free.len() {
                assert(v.free[k] == x);
            }
        }
        if v.free.contains(x) {
            let k = choose|k: int| 0 <= k < v.free.len() && v.free[k] == x;
            assert(w.free[k] == x);
        }
        if x == id {
            assert(w.free[v.free.len() as int] == id);
        }
    }
    assert(w.allocated() =~= v.allocated().remove(id));
}

/// Releasing an identifier and then allocating hands the same identifier
/// back and restores the allocator's state.
pub proof fn lemma_dealloc_then_alloc(v: RecycleView, id: usize)
    requires
        v.wf(),
        v.allocated().contains(id),
    ensures
        v.dealloc(id).alloc_step().1 == id,
        v.dealloc(id).alloc_step().0 == v,
{
    assert(v.dealloc(id).free.drop_last() =~= v.free);
}

} // verus!
