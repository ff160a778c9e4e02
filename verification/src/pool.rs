//! The table from process identifiers to processes.
use vstd::prelude::*;
use std::collections::BTreeMap;

verus! {

/// The processes alive, by process identifier.
pub struct Pid2Process<P> {
    map: BTreeMap<usize, P>,
}

impl<P> View for Pid2Process<P> {
    type V = Map<usize, P>;

    closed spec fn view(&self) -> Map<usize, P> {
        self.map@
    }
}

impl<P> Pid2Process<P> {
    /// No process.
    pub fn new() -> (r: Self)
        ensures
            r@ == Map::<usize, P>::empty(),
    {
        Pid2Process { map: BTreeMap::new() }
    }

    /// The process with identifier `pid`, if any.
    pub fn pid2process(&self, pid: usize) -> (r: Option<&P>)
        ensures
            r == (if self@.contains_key(pid) {
                Some(&self@[pid])
            } else {
                None
            }),
    {
        broadcast use vstd::laws_cmp::group_laws_cmp;
        broadcast use vstd::std_specs::btree::group_btree_axioms;

        self.map.get(&pid)
    }

    /// Records `process` under `pid`, in place of any process recorded
    /// under it before.
    pub fn insert_into_pid2process(&mut self, pid: usize, process: P)
        ensures
            final(self)@ == old(self)@.insert(pid, process),
    {
        broadcast use vstd::laws_cmp::group_laws_cmp;

        self.map.insert(pid, process);
    }

    /// Forgets the process with identifier `pid`, which must be recorded.
    pub fn remove_from_pid2process(&mut self, pid: usize)
        requires
            old(self)@.contains_key(pid),
        ensures
            final(self)@ == old(self)@.remove(pid),
    {
        broadcast use vstd::laws_cmp::group_laws_cmp;
        broadcast use vstd::std_specs::btree::group_btree_axioms;

        let _ = self.map.remove(&pid);
    }
}

/// A process recorded under an identifier is found under it until it is
/// removed, and no longer afterwards; other identifiers are unaffected.
pub proof fn lemma_pid2process_insert_remove<P>(t: Map<usize, P>, pid: usize, other: usize, p: P)
    requires
        other != pid,
    ensures
        t.insert(pid, p).contains_key(pid) && t.insert(pid, p)[pid] == p,
        !t.insert(pid, p).remove(pid).contains_key(pid),
        t.insert(pid, p).contains_key(other) == t.contains_key(other),
        t.contains_key(other) ==> t.insert(pid, p)[other] == t[other],
{
}

} // verus!
