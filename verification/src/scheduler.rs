//! The ready queue of the task scheduler: first in, first out, except that
//! a process waiting on a user interrupt is served first and, when no such
//! process waits, the task of the most urgent process is picked.
use vstd::prelude::*;

verus! {

/// A ready task: a key by which its owner finds the task again, and the
/// identifier of its process.
#[derive(Clone, Copy, PartialEq, Eq, Structural)]
pub struct QueuedTask {
    pub id: usize,
    pub pid: usize,
}

/// Priority of process `pid` in the table `prios`, indexed by process
/// identifier; a smaller number is more urgent, and `None` marks a process
/// that has not started running.
pub open spec fn prio_of(prios: Seq<Option<usize>>, pid: usize) -> Option<usize> {
    if pid < prios.len() {
        prios[pid as int]
    } else {
        None
    }
}

/// Index of the first task of process `pid` at or after index `i`, or the
/// queue's length when there is none.
pub open spec fn find_pid_from(q: Seq<QueuedTask>, pid: usize, i: int) -> int
    decreases q.len() - i,
{
    if i < 0 || i >= q.len() {
        q.len() as int
    } else if q[i].pid == pid {
        i
    } else {
        find_pid_from(q, pid, i + 1)
    }
}

/// `q` turned left by `k` places.
pub open spec fn rotate_left(q: Seq<QueuedTask>, k: int) -> Seq<QueuedTask> {
    q.subrange(k, q.len() as int) + q.subrange(0, k)
}

/// Index of the first task at or after index `i` whose process is `pid` or
/// `front`, or the queue's length when there is none.
pub open spec fn find_either_from(q: Seq<QueuedTask>, pid: usize, front: usize, i: int) -> int
    decreases q.len() - i,
{
    if i < 0 || i >= q.len() {
        q.len() as int
    } else if q[i].pid == pid || q[i].pid == front {
        i
    } else {
        find_either_from(q, pid, front, i + 1)
    }
}

/// The queue after `prioritize(pid)`: unchanged when it holds at most one
/// task or its front task belongs to `pid`; otherwise turned left until a
/// task of `pid`, or another task of the front task's process, is in
/// front.
pub open spec fn prioritized(q: Seq<QueuedTask>, pid: usize) -> Seq<QueuedTask> {
    if q.len() <= 1 || q[0].pid == pid {
        q
    } else {
        rotate_left(q, find_either_from(q, pid, q[0].pid, 1))
    }
}

/// Whether index `i` is the task that `fetch` picks by priority from `q`:
/// the first task whose process has no priority yet (it was created but
/// has not run) when there is one, else the first task of a most urgent
/// process. The rest of the queue keeps its order.
pub open spec fn is_prio_pick(q: Seq<QueuedTask>, prios: Seq<Option<usize>>, i: int) -> bool {
    &&& 0 <= i < q.len()
    &&& if exists|j: int| 0 <= j < q.len() && (#[trigger] prio_of(prios, q[j].pid)) is None {
        &&& prio_of(prios, q[i].pid) is None
        &&& forall|j: int| 0 <= j < i ==> (#[trigger] prio_of(prios, q[j].pid)) is Some
    } else {
        &&& forall|j: int|
            0 <= j < q.len() ==> prio_of(prios, q[i].pid)->Some_0 <= (#[trigger] prio_of(
                prios,
                q[j].pid,
            ))->Some_0
        &&& forall|j: int|
            0 <= j < i ==> prio_of(prios, q[i].pid)->Some_0 < (#[trigger] prio_of(
                prios,
                q[j].pid,
            ))->Some_0
    }
}

/// Task that `fetch` picks from the non-empty queue `q` and the queue that
/// it leaves, when process `target` is the first waiting on a user
/// interrupt: its first task, the tasks before it moved to the back; the
/// front task when the process has none.
pub open spec fn fetch_for_pid(q: Seq<QueuedTask>, target: usize) -> (
    QueuedTask,
    Seq<QueuedTask>,
) {
    let i = find_pid_from(q, target, 0);
    if i < q.len() {
        (q[i], q.subrange(i + 1, q.len() as int) + q.subrange(0, i))
    } else {
        (q[0], q.drop_first())
    }
}

/// Abstract state of the scheduler: the ready queue, front first, and the
/// processes waiting on a user interrupt.
pub struct TaskManagerView {
    pub queue: Seq<QueuedTask>,
    pub uintr: Set<usize>,
}

/// The ready queue and the set of processes waiting on a user interrupt.
pub struct TaskManager {
    ready_queue: std::collections::VecDeque<QueuedTask>,
    user_intr_process_set: std::collections::BTreeSet<usize>,
}

impl View for TaskManager {
    type V = TaskManagerView;

    closed spec fn view(&self) -> TaskManagerView {
        TaskManagerView { queue: self.ready_queue@, uintr: self.user_intr_process_set@ }
    }
}

proof fn lemma_find_either_from(q: Seq<QueuedTask>, pid: usize, front: usize, i: int)
    requires
        0 <= i <= q.len(),
    ensures
        i <= find_either_from(q, pid, front, i) <= q.len(),
        forall|k: int|
            i <= k < find_either_from(q, pid, front, i) ==> q[k].pid != pid && q[k].pid != front,
        find_either_from(q, pid, front, i) < q.len() ==> q[find_either_from(q, pid, front, i)].pid == pid
            || q[find_either_from(q, pid, front, i)].pid == front,
    decreases q.len() - i,
{
    if i < q.len() && q[i].pid != pid && q[i].pid != front {
        lemma_find_either_from(q, pid, front, i + 1);
    }
}

proof fn lemma_find_either_k(q: Seq<QueuedTask>, pid: usize, front: usize, i: int, k: int)
    requires
        0 <= i <= k <= q.len(),
        forall|j: int| i <= j < k ==> q[j].pid != pid && q[j].pid != front,
        k < q.len() ==> q[k].pid == pid || q[k].pid == front,
    ensures
        find_either_from(q, pid, front, i) == k,
    decreases k - i,
{
    if i < k {
        lemma_find_either_k(q, pid, front, i + 1, k);
    }
}

proof fn lemma_find_pid_from(q: Seq<QueuedTask>, pid: usize, i: int)
    requires
        0 <= i <= q.len(),
    ensures
        i <= find_pid_from(q, pid, i) <= q.len(),
        forall|k: int| i <= k < find_pid_from(q, pid, i) ==> q[k].pid != pid,
        find_pid_from(q, pid, i) < q.len() ==> q[find_pid_from(q, pid, i)].pid == pid,
    decreases q.len() - i,
{
    if i < q.len() && q[i].pid != pid {
        lemma_find_pid_from(q, pid, i + 1);
    }
}

impl TaskManager {
    /// The set of processes waiting on a user interrupt is finite.
    pub closed spec fn wf(&self) -> bool {
        self.user_intr_process_set@.finite()
    }

    /// An empty scheduler.
    pub fn new() -> (r: Self)
        ensures
            r.wf(),
            r@.queue == Seq::<QueuedTask>::empty(),
            r@.uintr == Set::<usize>::empty(),
    {
        let r = TaskManager {
            ready_queue: std::collections::VecDeque::new(),
            user_intr_process_set: std::collections::BTreeSet::new(),
        };
        assert(r@.uintr =~= Set::<usize>::empty());
        r
    }

    /// Puts `task` at the back of the ready queue.
    pub fn add(&mut self, task: QueuedTask)
        requires
            old(self).wf(),
        ensures
            final(self).wf(),
            final(self)@.queue == old(self)@.queue.push(task),
            final(self)@.uintr == old(self)@.uintr,
    {
        self.ready_queue.push_back(task);
    }

    /// Marks process `pid` as waiting on a user interrupt.
    pub fn add_user_intr_task(&mut self, pid: usize)
        requires
            old(self).wf(),
        ensures
            final(self).wf(),
            final(self)@.queue == old(self)@.queue,
            final(self)@.uintr == old(self)@.uintr.insert(pid),
    {
        broadcast use vstd::laws_cmp::group_laws_cmp;

        self.user_intr_process_set.insert(pid);
    }

    /// No longer marks process `pid` as waiting on a user interrupt.
    pub fn remove_uintr_task(&mut self, pid: usize)
        requires
            old(self).wf(),
        ensures
            final(self).wf(),
            final(self)@.queue == old(self)@.queue,
            final(self)@.uintr == old(self)@.uintr.remove(pid),
    {
        broadcast use vstd::laws_cmp::group_laws_cmp;
        broadcast use vstd::std_specs::btree::group_btree_axioms;

        self.user_intr_process_set.remove(&pid);
    }

    /// Takes out the first queued task of the same process as `task`, if
    /// any.
    #[verifier::loop_isolation(false)]
    pub fn remove(&mut self, task: &QueuedTask)
        requires
            old(self).wf(),
        ensures
            final(self).wf(),
            final(self)@.uintr == old(self)@.uintr,
            ({
                let q = old(self)@.queue;
                let i = find_pid_from(q, task.pid, 0);
                final(self)@.queue == if i < q.len() {
                    q.remove(i)
                } else {
                    q
                }
            }),
    {
        proof {
            lemma_find_pid_from(self.ready_queue@, task.pid, 0);
        }
        let mut idx: usize = 0;
        while idx < self.ready_queue.len()
            invariant
                idx <= self.ready_queue@.len(),
                self.ready_queue@ == old(self)@.queue,
                forall|k: int| 0 <= k < idx ==> self.ready_queue@[k].pid != task.pid,
                self.user_intr_process_set@ == old(self).user_intr_process_set@,
                self.wf(),
            decreases self.ready_queue@.len() - idx,
        {
            if self.ready_queue[idx].pid == task.pid {
                proof {
                    assert(find_pid_from(self.ready_queue@, task.pid, 0) == idx);
                }
                self.ready_queue.remove(idx);
                return;
            }
            idx = idx + 1;
        }
    }

    /// Brings a task of process `pid` to the front of the ready queue by
    /// turning the queue; see [`prioritized`].
    #[verifier::loop_isolation(false)]
    pub fn prioritize(&mut self, pid: usize)
        requires
            old(self).wf(),
        ensures
            final(self).wf(),
            final(self)@.uintr == old(self)@.uintr,
            final(self)@.queue == prioritized(old(self)@.queue, pid),
    {
        let n = self.ready_queue.len();
        if n <= 1 {
            return;
        }
        let front_pid = self.ready_queue[0].pid;
        if front_pid == pid {
            return;
        }
        let ghost q = self.ready_queue@;
        proof {
            lemma_find_either_from(q, pid, front_pid, 1);
        }
        let t = self.ready_queue.pop_front().unwrap();
        self.ready_queue.push_back(t);
        let mut k: usize = 1;
        assert(self.ready_queue@ =~= rotate_left(q, 1));
        while self.ready_queue[0].pid != pid && self.ready_queue[0].pid != front_pid
            invariant
                1 <= k <= n,
                n == q.len(),
                self.ready_queue@ == rotate_left(q, k as int),
                forall|j: int| 1 <= j < k ==> q[j].pid != pid && q[j].pid != front_pid,
                self.user_intr_process_set@ == old(self).user_intr_process_set@,
                self.wf(),
            decreases n - k,
        {
            if k == n {
                assert(self.ready_queue@[0] == q[0]);
                assert(false);
            }
            assert(self.ready_queue@[0] == q[k as int]);
            let t = self.ready_queue.pop_front().unwrap();
            self.ready_queue.push_back(t);
            assert(self.ready_queue@ =~= rotate_left(q, k + 1));
            k = k + 1;
        }
        proof {
            if k < n {
                assert(self.ready_queue@[0] == q[k as int]);
            } else {
                assert(self.ready_queue@[0] == q[0]);
            }
            assert(find_either_from(q, pid, front_pid, 1) == k as int) by {
                lemma_find_either_k(q, pid, front_pid, 1, k as int);
            }
        }
    }

    /// The smallest identifier among the processes waiting on a user
    /// interrupt.
    fn first_uintr(&self) -> (r: Option<usize>)
        requires
            self.wf(),
        ensures
            r.is_none() <==> self@.uintr.is_empty(),
            r matches Some(m) ==> self@.uintr.contains(m) && forall|x: usize|
                self@.uintr.contains(x) ==> m <= x,
    {
        broadcast use vstd::laws_cmp::group_laws_cmp;
        broadcast use vstd::std_specs::btree::group_btree_axioms;

        let iter = self.user_intr_process_set.iter();
        let ghost s0 = vstd::std_specs::iter::IteratorSpec::remaining(&iter).unref();
        proof {
            assert(s0.to_set() == self@.uintr);
        }
        let mut best: Option<usize> = None;
        for x in it: iter
            invariant
                it.seq().unref() == s0,
                s0.to_set() == self@.uintr,
                best is None <==> it.index() == 0,
                best matches Some(b) ==> exists|k: int| 0 <= k < it.index() && #[trigger] s0[k] == b,
                best matches Some(b) ==> forall|k: int|
                    0 <= k < it.index() ==> b <= #[trigger] s0[k],
        {
            let v = *x;
            let ghost i = it.index();
            proof {
                assert(s0[i] == v);
            }
            best = match best {
                Some(b) => if v < b {
                    Some(v)
                } else {
                    Some(b)
                },
                None => Some(v),
            };
        }
        proof {
            let s = s0;
            if best is None {
                assert(s.len() == 0);
                assert(self@.uintr =~= Set::<usize>::empty());
            } else {
                assert forall|y: usize| self@.uintr.contains(y) implies best->Some_0 <= y by {
                    assert(s.contains(y));
                }
            }
        }
        best
    }

    /// Picks the next task to run. Nothing while the kernel has coroutines
    /// of priority `kernel_prio` to run, or when the queue is empty.
    /// Otherwise the first task of the process with the smallest identifier
    /// among those waiting on a user interrupt, or, when none waits, the
    /// task that [`is_prio_pick`] describes, taken out of the queue with the
    /// others left in order.
    #[verifier::loop_isolation(false)]
    pub fn fetch(&mut self, kernel_prio: Option<usize>, prios: &Vec<Option<usize>>) -> (r: Option<
        QueuedTask,
    >)
        requires
            old(self).wf(),
        ensures
            final(self).wf(),
            final(self)@.uintr == old(self)@.uintr,
            (kernel_prio.is_some() || old(self)@.queue.len() == 0) ==> r.is_none()
                && final(self)@.queue == old(self)@.queue,
            (kernel_prio.is_none() && old(self)@.queue.len() > 0 && old(self)@.uintr.is_empty())
                ==> exists|i: int|
                #![trigger is_prio_pick(old(self)@.queue, prios@, i)]
                {
                    &&& is_prio_pick(old(self)@.queue, prios@, i)
                    &&& r == Some(old(self)@.queue[i])
                    &&& final(self)@.queue == old(self)@.queue.remove(i)
                },
            (kernel_prio.is_none() && old(self)@.queue.len() > 0 && !old(self)@.uintr.is_empty())
                ==> {
                let picked = fetch_for_pid(
                    old(self)@.queue,
                    choose|m: usize|
                        old(self)@.uintr.contains(m) && forall|x: usize|
                            old(self)@.uintr.contains(x) ==> m <= x,
                );
                &&& r == Some(picked.0)
                &&& final(self)@.queue == picked.1
            },
    {
        if kernel_prio.is_some() {
            return None;
        }
        let n = self.ready_queue.len();
        if n == 0 {
            return None;
        }
        let ghost q = self.ready_queue@;
        match self.first_uintr() {
            Some(target_pid) => {
                proof {
                    let m = choose|m: usize|
                        old(self)@.uintr.contains(m) && forall|x: usize|
                            old(self)@.uintr.contains(x) ==> m <= x;
                    assert(old(self)@.uintr.contains(target_pid));
                    assert(m == target_pid) by {
                        assert(m <= target_pid);
                        assert(target_pid <= m);
                    }
                    lemma_find_pid_from(q, target_pid, 0);
                }
                let mut cnt: usize = 0;
                loop
                    invariant
                        n == q.len(),
                        0 <= cnt < n,
                        self.ready_queue@ == rotate_left(q, cnt as int),
                        forall|k: int| 0 <= k < cnt ==> q[k].pid != target_pid,
                        self.wf(),
                        self@.uintr == old(self)@.uintr,
                        find_pid_from(q, target_pid, 0) >= 0,
                        forall|k: int| 0 <= k < find_pid_from(q, target_pid, 0) ==> q[k].pid != target_pid,
                        find_pid_from(q, target_pid, 0) < q.len() ==> q[find_pid_from(q, target_pid, 0)].pid == target_pid,
                        find_pid_from(q, target_pid, 0) <= q.len(),
                    decreases n - cnt,
                {
                    let cur = self.ready_queue.pop_front().unwrap();
                    proof {
                        assert(cur == q[cnt as int]);
                    }
                    if cur.pid == target_pid {
                        proof {
                            assert(find_pid_from(q, target_pid, 0) == cnt);
                            assert(self.ready_queue@ =~= q.subrange(cnt + 1, q.len() as int)
                                + q.subrange(0, cnt as int));
                        }
                        return Some(cur);
                    }
                    self.ready_queue.push_back(cur);
                    proof {
                        assert(self.ready_queue@ =~= rotate_left(q, cnt + 1));
                    }
                    cnt = cnt + 1;
                    if cnt >= n {
                        proof {
                            assert(find_pid_from(q, target_pid, 0) == q.len());
                            assert(self.ready_queue@ =~= q);
                        }
                        break;
                    }
                }
                let r = self.ready_queue.pop_front();
                proof {
                    assert(self.ready_queue@ =~= q.drop_first());
                }
                r
            },
            None => {
                let first_prio = prio_lookup(prios, self.ready_queue[0].pid);
                if first_prio.is_none() {
                    proof {
                        assert(is_prio_pick(q, prios@, 0));
                    }
                    return self.ready_queue.pop_front();
                }
                let mut best: usize = 0;
                let mut best_prio: usize = first_prio.unwrap();
                let mut i: usize = 1;
                while i < n
                    invariant
                        n == q.len(),
                        self.ready_queue@ == q,
                        self.wf(),
                        self@.uintr == old(self)@.uintr,
                        1 <= i <= n,
                        best < i,
                        prio_of(prios@, q[best as int].pid) == Some(best_prio),
                        forall|j: int| 0 <= j < i ==> (#[trigger] prio_of(prios@, q[j].pid)) is Some,
                        forall|j: int|
                            0 <= j < i ==> best_prio <= (#[trigger] prio_of(prios@, q[j].pid))->Some_0,
                        forall|j: int|
                            0 <= j < best ==> best_prio < (#[trigger] prio_of(prios@, q[j].pid))->Some_0,
                    decreases n - i,
                {
                    match prio_lookup(prios, self.ready_queue[i].pid) {
                        None => {
                            proof {
                                assert(is_prio_pick(q, prios@, i as int));
                            }
                            return self.ready_queue.remove(i);
                        },
                        Some(p) => {
                            if p < best_prio {
                                best = i;
                                best_prio = p;
                            }
                        },
                    }
                    i = i + 1;
                }
                proof {
                    assert(!exists|j: int| 0 <= j < q.len() && (#[trigger] prio_of(prios@, q[j].pid)) is None);
                    assert(is_prio_pick(q, prios@, best as int));
                }
                self.ready_queue.remove(best)
            },
        }
    }
}

/// The priority of process `pid` in `prios`.
fn prio_lookup(prios: &Vec<Option<usize>>, pid: usize) -> (r: Option<usize>)
    ensures
        r == prio_of(prios@, pid),
{
    if pid < prios.len() {
        prios[pid]
    } else {
        None
    }
}

/// Exactly one index is the task that `fetch` picks by priority from a
/// non-empty queue.
pub proof fn lemma_prio_pick_unique(q: Seq<QueuedTask>, prios: Seq<Option<usize>>, i: int, k: int)
    requires
        is_prio_pick(q, prios, i),
        is_prio_pick(q, prios, k),
    ensures
        i == k,
{
    if exists|j: int| 0 <= j < q.len() && (#[trigger] prio_of(prios, q[j].pid)) is None {
        if i < k {
            assert(prio_of(prios, q[i].pid) is Some);
        } else if k < i {
            assert(prio_of(prios, q[k].pid) is Some);
        }
    } else {
        assert(prio_of(prios, q[i].pid) is Some);
        assert(prio_of(prios, q[k].pid) is Some);
        if i < k {
            assert(prio_of(prios, q[i].pid)->Some_0 <= prio_of(prios, q[k].pid)->Some_0);
            assert(prio_of(prios, q[k].pid)->Some_0 < prio_of(prios, q[i].pid)->Some_0);
        } else if k < i {
            assert(prio_of(prios, q[k].pid)->Some_0 <= prio_of(prios, q[i].pid)->Some_0);
            assert(prio_of(prios, q[i].pid)->Some_0 < prio_of(prios, q[k].pid)->Some_0);
        }
    }
}

/// Fetching by priority loses no task and adds none: the picked task and
/// the queue left are, together, the queue that was.
pub proof fn lemma_fetch_by_prio_keeps_tasks(q: Seq<QueuedTask>, prios: Seq<Option<usize>>, i: int)
    requires
        is_prio_pick(q, prios, i),
    ensures
        q.remove(i).to_multiset().insert(q[i]) == q.to_multiset(),
{
    broadcast use vstd::seq_lib::group_to_multiset_ensures;

    let a = q.subrange(0, i);
    let b = q.subrange(i + 1, q.len() as int);
    assert(q.remove(i) =~= a + b);
    assert(q =~= a + (seq![q[i]] + b));
    vstd::seq_lib::lemma_multiset_commutative(a, b);
    vstd::seq_lib::lemma_multiset_commutative(a, seq![q[i]] + b);
    vstd::seq_lib::lemma_multiset_commutative(seq![q[i]], b);
    assert(seq![q[i]].to_multiset() =~= vstd::multiset::Multiset::empty().insert(q[i])) by {
        assert(seq![q[i]] =~= Seq::<QueuedTask>::empty().push(q[i]));
    }
}

/// Fetching for a process waiting on a user interrupt loses no task and
/// adds none.
pub proof fn lemma_fetch_for_pid_keeps_tasks(q: Seq<QueuedTask>, target: usize)
    requires
        q.len() > 0,
    ensures
        fetch_for_pid(q, target).1.to_multiset().insert(fetch_for_pid(q, target).0)
            == q.to_multiset(),
{
    broadcast use vstd::seq_lib::group_to_multiset_ensures;
    broadcast use vstd::multiset::group_multiset_axioms;
    broadcast use vstd::seq_lib::lemma_multiset_commutative;

    lemma_find_pid_from(q, target, 0);
    let i = find_pid_from(q, target, 0);
    if i < q.len() {
        let a = q.subrange(0, i);
        let b = q.subrange(i + 1, q.len() as int);
        assert(q =~= a + seq![q[i]] + b);
        assert((a + seq![q[i]]) =~= a.push(q[i]));
        assert((b + a).to_multiset() =~= b.to_multiset().add(a.to_multiset()));
        assert(q.to_multiset() =~= a.push(q[i]).to_multiset().add(b.to_multiset()));
        assert((b + a).to_multiset().insert(q[i]) =~= q.to_multiset());
    } else {
        assert(q.drop_first() =~= q.remove(0));
    }
}


/// Prioritizing a process only turns the ready queue: it loses no task and
/// adds none.
pub proof fn lemma_prioritize_keeps_tasks(q: Seq<QueuedTask>, pid: usize)
    ensures
        prioritized(q, pid).to_multiset() == q.to_multiset(),
{
    broadcast use vstd::seq_lib::group_to_multiset_ensures;
    broadcast use vstd::seq_lib::lemma_multiset_commutative;

    if q.len() > 1 && q[0].pid != pid {
        lemma_find_either_from(q, pid, q[0].pid, 1);
        let k = find_either_from(q, pid, q[0].pid, 1);
        let a = q.subrange(0, k);
        let b = q.subrange(k, q.len() as int);
        assert(q =~= a + b);
        vstd::seq_lib::lemma_multiset_commutative(a, b);
        vstd::seq_lib::lemma_multiset_commutative(b, a);
    }
}

/// After prioritizing a process that has a task in the queue, with no task
/// of the front task's process between the front and that task, a task of
/// the process is in front.
pub proof fn lemma_prioritize_brings_to_front(q: Seq<QueuedTask>, pid: usize, i: int)
    requires
        0 <= i < q.len(),
        q[i].pid == pid,
        forall|j: int| 0 < j < i ==> (#[trigger] q[j]).pid != q[0].pid,
    ensures
        prioritized(q, pid)[0].pid == pid,
{
    if q.len() > 1 && q[0].pid != pid {
        lemma_find_either_from(q, pid, q[0].pid, 1);
        let k = find_either_from(q, pid, q[0].pid, 1);
        assert(k <= i);
        assert(prioritized(q, pid)[0] == q[k]);
        if k < i {
            assert(q[k].pid != q[0].pid);
        }
    }
}


/// Every task of `q` belongs to a process with a priority in `prios`.
pub open spec fn all_prios_known(q: Seq<QueuedTask>, prios: Seq<Option<usize>>) -> bool {
    forall|i: int| 0 <= i < q.len() ==> (#[trigger] prio_of(prios, q[i].pid)) is Some
}

/// When every queued process has a priority, the task `fetch` picks by
/// priority belongs to a most urgent process: no queued task's process has
/// a smaller priority number.
pub proof fn lemma_fetch_picks_most_urgent(q: Seq<QueuedTask>, prios: Seq<Option<usize>>, i: int)
    requires
        is_prio_pick(q, prios, i),
        all_prios_known(q, prios),
    ensures
        prio_of(prios, q[i].pid) is Some,
        forall|j: int|
            0 <= j < q.len() ==> prio_of(prios, q[i].pid)->Some_0 <= prio_of(
                prios,
                #[trigger] q[j].pid,
            )->Some_0,
{
    assert(prio_of(prios, q[i].pid) is Some);
    assert forall|j: int| 0 <= j < q.len() implies prio_of(prios, q[i].pid)->Some_0 <= prio_of(
        prios,
        #[trigger] q[j].pid,
    )->Some_0 by {
        assert(prio_of(prios, q[j].pid) is Some);
    }
}

/// Among processes of one priority the queue is first in, first out: when
/// every queued task's process has priority `p`, `fetch` picks the front
/// task, and the rest keep their order.
pub proof fn lemma_equal_priorities_fifo(q: Seq<QueuedTask>, prios: Seq<Option<usize>>, p: usize)
    requires
        q.len() > 0,
        forall|j: int| 0 <= j < q.len() ==> #[trigger] prio_of(prios, q[j].pid) == Some(p),
    ensures
        is_prio_pick(q, prios, 0),
        q.remove(0) == q.drop_first(),
{
    assert(!exists|j: int| 0 <= j < q.len() && (#[trigger] prio_of(prios, q[j].pid)) is None);
    assert(prio_of(prios, q[0].pid) == Some(p));
    assert(q.remove(0) =~= q.drop_first());
}

} // verus!
