//! What creating, forking, blocking, suspending and exiting change in the
//! thread and process control blocks. The address spaces and the context
//! switches that go with them are the caller's.
use vstd::prelude::*;
use crate::context::TaskStatus;
use crate::layout::TaskUserRes;
use crate::pool::Pid2Process;
use crate::recycle::{lemma_alloc, RecycleAllocator, RecycleView};

verus! {

/// The parts of a thread's control block that the kernel's bookkeeping
/// reads and changes: its user resources, status, exit code and count of
/// timer interruptions.
pub struct TaskControlBlockInner {
    pub res: Option<TaskUserRes>,
    pub task_status: TaskStatus,
    pub exit_code: Option<i32>,
    pub time_intr_count: usize,
}

/// A process's control block, as far as the kernel's bookkeeping reads and
/// changes it: its identifier, its parent's identifier (none for the
/// initial process), whether it is a zombie and its exit code, its children
/// (by identifier), its descriptor table, its threads (by thread
/// identifier) and the allocator of thread identifiers. Its address space
/// is the caller's.
pub struct ProcessControlBlock<F> {
    pub pid: usize,
    pub parent: Option<usize>,
    pub is_zombie: bool,
    pub exit_code: i32,
    pub children: Vec<usize>,
    pub fd_table: Vec<Option<F>>,
    pub tasks: Vec<Option<TaskControlBlockInner>>,
    pub task_res_allocator: RecycleAllocator,
}

/// The thread in slot `s` still holds its user resources.
pub open spec fn has_res(s: Option<TaskControlBlockInner>) -> bool {
    s matches Some(t) && t.res is Some
}

/// The identifiers of the threads among the first `n` slots, other than
/// slot `skip`, that hold their user resources, in slot order.
pub open spec fn released_tids(tasks: Seq<Option<TaskControlBlockInner>>, skip: int, n: int) -> Seq<usize>
    decreases n,
{
    if n <= 0 {
        Seq::empty()
    } else {
        let prev = released_tids(tasks, skip, n - 1);
        if n - 1 != skip && has_res(tasks[n - 1]) {
            prev.push((n - 1) as usize)
        } else {
            prev
        }
    }
}

/// Slot `s` after its thread gave back its user resources.
pub open spec fn without_res(s: Option<TaskControlBlockInner>) -> Option<TaskControlBlockInner> {
    match s {
        Some(t) => Some(
            TaskControlBlockInner {
                res: None,
                task_status: t.task_status,
                exit_code: t.exit_code,
                time_intr_count: t.time_intr_count,
            },
        ),
        None => None,
    }
}

impl<F> ProcessControlBlock<F> {
    /// Each thread's user resources carry the thread's identifier, its slot,
    /// which the allocator has handed out.
    pub open spec fn wf(&self) -> bool {
        &&& self.task_res_allocator@.wf()
        &&& forall|k: int|
            0 <= k < self.tasks@.len() ==> (#[trigger] self.tasks@[k] matches Some(t) ==> (
            t.res matches Some(r) ==> r.tid == k && self.task_res_allocator@.allocated().contains(
                r.tid,
            )))
    }
}

/// `tasks` grown with free slots to at least `n` slots.
pub open spec fn grown(tasks: Seq<Option<TaskControlBlockInner>>, n: int) -> Seq<Option<TaskControlBlockInner>> {
    if tasks.len() >= n {
        tasks
    } else {
        tasks + Seq::new((n - tasks.len()) as nat, |j: int| None::<TaskControlBlockInner>)
    }
}

/// A new thread of `process`, whose user stack lies above `ustack_base`:
/// it gets a thread identifier from the process's allocator and is
/// recorded, ready and with its user resources, in the slot of that
/// identifier, the table of threads growing with free slots as needed.
/// Returns the identifier.
#[verifier::loop_isolation(false)]
pub fn add_thread<F>(process: &mut ProcessControlBlock<F>, ustack_base: usize) -> (tid: usize)
    requires
        old(process).wf(),
        old(process).task_res_allocator@.can_alloc(),
    ensures
        final(process).wf(),
        (final(process).task_res_allocator@, tid) == old(process).task_res_allocator@.alloc_step(),
        final(process).tasks@ == grown(old(process).tasks@, tid + 1).update(
            tid as int,
            Some(
                TaskControlBlockInner {
                    res: Some(TaskUserRes { tid, ustack_base }),
                    task_status: TaskStatus::Ready,
                    exit_code: None,
                    time_intr_count: 0,
                },
            ),
        ),
        final(process).pid == old(process).pid,
        final(process).parent == old(process).parent,
        final(process).is_zombie == old(process).is_zombie,
        final(process).exit_code == old(process).exit_code,
        final(process).children@ == old(process).children@,
        final(process).fd_table@ == old(process).fd_table@,
{
    let ghost old_tasks = process.tasks@;
    proof {
        lemma_alloc(process.task_res_allocator@);
    }
    let res = TaskUserRes::new(&mut process.task_res_allocator, ustack_base);
    let tid = res.tid;
    let ghost alloc_after = process.task_res_allocator@;
    while process.tasks.len() <= tid
        invariant
            process.task_res_allocator@ == alloc_after,
            process.pid == old(process).pid,
            process.parent == old(process).parent,
            process.is_zombie == old(process).is_zombie,
            process.exit_code == old(process).exit_code,
            process.children@ == old(process).children@,
            process.fd_table@ == old(process).fd_table@,
            old_tasks.len() <= process.tasks@.len(),
            process.tasks@.len() <= tid + 1 || process.tasks@.len() == old_tasks.len(),
            process.tasks@ == grown(old_tasks, process.tasks@.len() as int),
        decreases tid + 1 - process.tasks@.len(),
    {
        process.tasks.push(None);
        proof {
            assert(process.tasks@ =~= grown(old_tasks, process.tasks@.len() as int));
        }
    }
    proof {
        assert(process.tasks@ =~= grown(old_tasks, tid + 1));
    }
    process.tasks.set(
        tid,
        Some(TaskControlBlockInner { res: Some(res), task_status: TaskStatus::Ready, exit_code: None, time_intr_count: 0 }),
    );
    proof {
        let t = process.tasks@;
        assert forall|k: int| 0 <= k < t.len() implies (#[trigger] t[k] matches Some(th) ==> (
            th.res matches Some(r) ==> r.tid == k && process.task_res_allocator@.allocated().contains(r.tid))) by {
            if k != tid {
                assert(t[k] == grown(old_tasks, tid + 1)[k]);
                if k < old_tasks.len() {
                    assert(t[k] == old_tasks[k]);
                    assert(old_tasks[k] matches Some(th) ==> (th.res matches Some(r) ==> r.tid == k
                        && old(process).task_res_allocator@.allocated().contains(r.tid)));
                } else {
                    assert(t[k] is None);
                }
            }
        }
    }
    tid
}

/// The main thread of a new process, ready, with thread identifier 0 and
/// user stacks above `ustack_base`.
pub open spec fn main_thread(ustack_base: usize) -> TaskControlBlockInner {
    TaskControlBlockInner {
        res: Some(TaskUserRes { tid: 0, ustack_base }),
        task_status: TaskStatus::Ready,
        exit_code: None,
        time_intr_count: 0,
    }
}

impl<F> ProcessControlBlock<F> {
    /// A new process with the descriptor table `fd_table` (the standard
    /// streams), the process `parent` (the initial process) as its parent
    /// and one thread, whose user stacks lie above `ustack_base`: its
    /// identifier comes from `pid_allocator`, its main thread gets thread
    /// identifier 0, and it is recorded in `pid2process` under its
    /// identifier, as the handle that `register` makes of that identifier.
    pub fn new<P, R: FnOnce(usize) -> P>(
        pid_allocator: &mut RecycleAllocator,
        fd_table: Vec<Option<F>>,
        ustack_base: usize,
        parent: usize,
        pid2process: &mut Pid2Process<P>,
        register: R,
    ) -> (r: Self)
        requires
            old(pid_allocator)@.wf(),
            old(pid_allocator)@.can_alloc(),
            forall|p: usize| call_requires(register, (p,)),
        ensures
            r.wf(),
            (final(pid_allocator)@, r.pid) == old(pid_allocator)@.alloc_step(),
            final(pid_allocator)@.wf(),
            r.parent == Some(parent),
            !r.is_zombie,
            r.exit_code == 0,
            r.children@.len() == 0,
            r.fd_table@ == fd_table@,
            r.tasks@ == seq![Some(main_thread(ustack_base))],
            r.task_res_allocator@.next == 1,
            r.task_res_allocator@.free.len() == 0,
            final(pid2process)@.contains_key(r.pid),
            call_ensures(register, (r.pid,), final(pid2process)@[r.pid]),
            final(pid2process)@ == old(pid2process)@.insert(r.pid, final(pid2process)@[r.pid]),
    {
        let pid = pid_allocator.alloc_id();
        let mut tids = RecycleAllocator::new();
        proof {
            lemma_alloc(tids@);
        }
        let res = TaskUserRes::new(&mut tids, ustack_base);
        let mut tasks: Vec<Option<TaskControlBlockInner>> = Vec::new();
        tasks.push(Some(TaskControlBlockInner { res: Some(res), task_status: TaskStatus::Ready, exit_code: None, time_intr_count: 0 }));
        let handle = register(pid);
        pid2process.insert_into_pid2process(pid, handle);
        let r = ProcessControlBlock {
            pid,
            parent: Some(parent),
            is_zombie: false,
            exit_code: 0,
            children: Vec::new(),
            fd_table,
            tasks,
            task_res_allocator: tids,
        };
        proof {
            assert(r.tasks@ =~= seq![Some(main_thread(ustack_base))]);
        }
        r
    }
}

impl<F> ProcessControlBlock<F> {
    /// The bookkeeping of `exec` for this process, which has one thread:
    /// the main thread's user stacks now lie above `ustack_base`, in the
    /// new address space.
    pub fn exec(&mut self, ustack_base: usize)
        requires
            old(self).wf(),
            old(self).tasks@.len() == 1,
            has_res(old(self).tasks@[0]),
        ensures
            final(self).wf(),
            ({
                let t = old(self).tasks@[0]->Some_0;
                final(self).tasks@ == seq![
                    Some(
                        TaskControlBlockInner {
                            res: Some(TaskUserRes { tid: t.res->Some_0.tid, ustack_base }),
                            ..t
                        },
                    ),
                ]
            }),
            final(self).pid == old(self).pid,
            final(self).parent == old(self).parent,
            final(self).is_zombie == old(self).is_zombie,
            final(self).exit_code == old(self).exit_code,
            final(self).children@ == old(self).children@,
            final(self).fd_table@ == old(self).fd_table@,
            final(self).task_res_allocator@ == old(self).task_res_allocator@,
    {
        let (tid, st, ec, tc) = match &self.tasks[0] {
            Some(t) => match &t.res {
                Some(r) => (r.tid, t.task_status, t.exit_code, t.time_intr_count),
                None => (0, t.task_status, t.exit_code, t.time_intr_count),
            },
            None => (0, TaskStatus::Ready, None, 0),
        };
        self.tasks.set(
            0,
            Some(TaskControlBlockInner { res: Some(TaskUserRes { tid, ustack_base }), task_status: st, exit_code: ec, time_intr_count: tc }),
        );
        proof {
            assert(self.tasks@ =~= seq![self.tasks@[0]]);
        }
    }
}

impl<F: Clone> ProcessControlBlock<F> {
    /// The child that `fork` makes of this process, which has one thread: a
    /// new process identifier from `pid_allocator`, this process as its
    /// parent, a copy of every descriptor, and a main thread with thread
    /// identifier 0 whose user stacks lie where the parent's do; the child
    /// is recorded in `pid2process` under its identifier, as the handle that
    /// `register` makes of it, and added to this process's children.
    pub fn fork<P, R: FnOnce(usize) -> P>(
        &mut self,
        pid_allocator: &mut RecycleAllocator,
        pid2process: &mut Pid2Process<P>,
        register: R,
    ) -> (child: Self)
        requires
            old(self).wf(),
            old(self).tasks@.len() == 1,
            has_res(old(self).tasks@[0]),
            old(pid_allocator)@.wf(),
            old(pid_allocator)@.can_alloc(),
            forall|p: usize| call_requires(register, (p,)),
        ensures
            child.wf(),
            child.parent == Some(old(self).pid),
            final(pid2process)@.contains_key(child.pid),
            call_ensures(register, (child.pid,), final(pid2process)@[child.pid]),
            final(pid2process)@ == old(pid2process)@.insert(child.pid, final(pid2process)@[child.pid]),
            (final(pid_allocator)@, child.pid) == old(pid_allocator)@.alloc_step(),
            final(pid_allocator)@.wf(),
            !child.is_zombie,
            child.exit_code == 0,
            child.children@.len() == 0,
            child.fd_table@.len() == old(self).fd_table@.len(),
            forall|k: int|
                0 <= k < child.fd_table@.len() ==> match (old(self).fd_table@[k], #[trigger] child.fd_table@[k]) {
                    (Some(a), Some(b)) => cloned(a, b),
                    (None, None) => true,
                    _ => false,
                },
            child.tasks@ == seq![Some(main_thread(old(self).tasks@[0]->Some_0.res->Some_0.ustack_base))],
            child.task_res_allocator@.next == 1,
            child.task_res_allocator@.free.len() == 0,
            final(self).children@ == old(self).children@.push(child.pid),
            final(self).pid == old(self).pid,
            final(self).parent == old(self).parent,
            final(self).is_zombie == old(self).is_zombie,
            final(self).exit_code == old(self).exit_code,
            final(self).fd_table@ == old(self).fd_table@,
            final(self).tasks@ == old(self).tasks@,
            final(self).task_res_allocator@ == old(self).task_res_allocator@,
    {
        let ustack_base = match &self.tasks[0] {
            Some(t) => match &t.res {
                Some(r) => r.ustack_base,
                None => 0,
            },
            None => 0,
        };
        let mut fds: Vec<Option<F>> = Vec::new();
        let mut i: usize = 0;
        while i < self.fd_table.len()
            invariant
                i <= self.fd_table@.len(),
                self.fd_table@ == old(self).fd_table@,
                fds@.len() == i,
                forall|k: int|
                    0 <= k < i ==> match (self.fd_table@[k], #[trigger] fds@[k]) {
                        (Some(a), Some(b)) => cloned(a, b),
                        (None, None) => true,
                        _ => false,
                    },
            decreases self.fd_table@.len() - i,
        {
            match &self.fd_table[i] {
                Some(f) => {
                    fds.push(Some(f.clone()));
                },
                None => {
                    fds.push(None);
                },
            }
            i = i + 1;
        }
        let child = ProcessControlBlock::new(pid_allocator, fds, ustack_base, self.pid, pid2process, register);
        self.children.push(child.pid);
        child
    }
}

impl<F> ProcessControlBlock<F> {
    /// This process passes to the initial process `initproc` when its parent
    /// exits: its parent becomes `initproc`, and nothing else changes.
    pub fn reparent(&mut self, initproc: usize)
        ensures
            *final(self) == (ProcessControlBlock { parent: Some(initproc), ..*old(self) }),
    {
        self.parent = Some(initproc);
    }
}

/// The bookkeeping of blocking the current thread: it is marked blocked.
pub fn block_current_task(thread: &mut TaskControlBlockInner)
    ensures
        final(thread).task_status == TaskStatus::Blocking,
        final(thread).res == old(thread).res,
        final(thread).exit_code == old(thread).exit_code,
        final(thread).time_intr_count == old(thread).time_intr_count,
{
    thread.task_status = TaskStatus::Blocking;
}

/// The bookkeeping of suspending the current thread: one more timer
/// interruption is counted.
pub fn suspend_current_and_run_next(thread: &mut TaskControlBlockInner)
    requires
        old(thread).time_intr_count < usize::MAX,
    ensures
        final(thread).time_intr_count == old(thread).time_intr_count + 1,
        final(thread).res == old(thread).res,
        final(thread).task_status == old(thread).task_status,
        final(thread).exit_code == old(thread).exit_code,
{
    thread.time_intr_count = thread.time_intr_count + 1;
}

proof fn lemma_released_tids(tasks: Seq<Option<TaskControlBlockInner>>, skip: int, n: int)
    requires
        0 <= n <= tasks.len(),
        n <= usize::MAX,
    ensures
        forall|j: int| 0 <= j < released_tids(tasks, skip, n).len() ==> {
            let x = #[trigger] released_tids(tasks, skip, n)[j];
            &&& x < n
            &&& x != skip
            &&& has_res(tasks[x as int])
        },
        forall|k: int|
            0 <= k < n && k != skip && #[trigger] has_res(tasks[k]) ==> released_tids(
                tasks,
                skip,
                n,
            ).contains(k as usize),
    decreases n,
{
    if n > 0 {
        lemma_released_tids(tasks, skip, n - 1);
        let prev = released_tids(tasks, skip, n - 1);
        if n - 1 != skip && has_res(tasks[n - 1]) {
            let cur = prev.push((n - 1) as usize);
            assert forall|j: int| 0 <= j < cur.len() implies {
                let x = #[trigger] cur[j];
                &&& x < n
                &&& x != skip
                &&& has_res(tasks[x as int])
            } by {
                if j < prev.len() {
                    assert(cur[j] == prev[j]);
                }
            }
            assert forall|k: int|
                0 <= k < n && k != skip && #[trigger] has_res(tasks[k]) implies cur.contains(
                k as usize,
            ) by {
                if k < n - 1 {
                    let j = choose|j: int| 0 <= j < prev.len() && prev[j] == k as usize;
                    assert(cur[j] == k as usize);
                } else {
                    assert(cur[prev.len() as int] == k as usize);
                }
            }
        }
    }
}

/// `c` once the initial process `initproc` has adopted it.
pub open spec fn adopted<F>(c: ProcessControlBlock<F>, initproc: usize) -> ProcessControlBlock<F> {
    ProcessControlBlock { parent: Some(initproc), ..c }
}

/// Every process in `children` gets `initproc` as its parent; nothing
/// else changes, and the order is kept.
fn adopt_all<F>(children: &mut Vec<ProcessControlBlock<F>>, initproc: usize)
    ensures
        final(children)@.len() == old(children)@.len(),
        forall|i: int|
            0 <= i < old(children)@.len() ==> (#[trigger] final(children)@[i]) == adopted(
                old(children)@[i],
                initproc,
            ),
{
    let ghost orig = children@;
    let mut done: Vec<ProcessControlBlock<F>> = Vec::new();
    while children.len() > 0
        invariant
            done@.len() + children@.len() == orig.len(),
            children@ == orig.subrange(done@.len() as int, orig.len() as int),
            forall|i: int| 0 <= i < done@.len() ==> (#[trigger] done@[i]) == adopted(orig[i], initproc),
        decreases children@.len(),
    {
        let mut c = children.remove(0);
        c.reparent(initproc);
        let ghost before = done@;
        done.push(c);
        proof {
            assert(children@ =~= orig.subrange(done@.len() as int, orig.len() as int));
            assert forall|i: int| 0 <= i < done@.len() implies (#[trigger] done@[i]) == adopted(orig[i], initproc) by {
                if i < before.len() {
                    assert(done@[i] == before[i]);
                }
            }
        }
    }
    *children = done;
}

/// The thread in slot `tid` of `process` exits with `exit_code`: it
/// becomes a zombie with that exit code and gives back its user resources,
/// releasing its thread identifier. When it is the main thread (`tid` 0),
/// the whole process exits: it leaves the table of processes, becomes a
/// zombie with that exit code, hands its children to the initial process
/// `initproc` (they join `initproc_children`, and each child's control
/// block in `children`, given in the order of the process's children,
/// gets `initproc` as its parent), and its other threads give back their
/// user resources, in slot order, and its descriptors are closed.
#[verifier::loop_isolation(false)]
pub fn exit_current_and_run_next<F, P>(
    process: &mut ProcessControlBlock<F>,
    tid: usize,
    exit_code: i32,
    initproc_children: &mut Vec<usize>,
    initproc: usize,
    children: &mut Vec<ProcessControlBlock<F>>,
    pid2process: &mut Pid2Process<P>,
)
    requires
        old(process).wf(),
        tid < old(process).tasks@.len(),
        has_res(old(process).tasks@[tid as int]),
        tid == 0 ==> old(pid2process)@.contains_key(old(process).pid),
        tid == 0 ==> old(children)@.len() == old(process).children@.len(),
        tid == 0 ==> forall|i: int|
            0 <= i < old(children)@.len() ==> (#[trigger] old(children)@[i]).pid == old(
                process,
            ).children@[i],
    ensures
        final(process).wf(),
        final(process).pid == old(process).pid,
        final(process).parent == old(process).parent,
        final(process).tasks@.len() == old(process).tasks@.len(),
        ({
            let t = old(process).tasks@[tid as int]->Some_0;
            final(process).tasks@[tid as int] == Some(
                TaskControlBlockInner {
                    res: None,
                    task_status: TaskStatus::Zombie,
                    exit_code: Some(exit_code),
                    time_intr_count: t.time_intr_count,
                },
            )
        }),
        final(process).task_res_allocator@.next == old(process).task_res_allocator@.next,
        tid != 0 ==> {
            &&& forall|k: int|
                0 <= k < old(process).tasks@.len() && k != tid ==> final(process).tasks@[k]
                    == old(process).tasks@[k]
            &&& final(process).task_res_allocator@.free == old(process).task_res_allocator@.free.push(
                tid,
            )
            &&& final(process).is_zombie == old(process).is_zombie
            &&& final(process).exit_code == old(process).exit_code
            &&& final(process).children@ == old(process).children@
            &&& final(process).fd_table@ == old(process).fd_table@
            &&& final(initproc_children)@ == old(initproc_children)@
            &&& final(pid2process)@ == old(pid2process)@
            &&& final(children)@ == old(children)@
        },
        tid == 0 ==> {
            &&& forall|k: int|
                0 <= k < old(process).tasks@.len() && k != 0 ==> final(process).tasks@[k]
                    == without_res(old(process).tasks@[k])
            &&& final(process).task_res_allocator@.free == old(process).task_res_allocator@.free.push(
                0,
            ) + released_tids(old(process).tasks@, 0, old(process).tasks@.len() as int)
            &&& final(process).is_zombie
            &&& final(process).exit_code == exit_code
            &&& final(process).children@.len() == 0
            &&& final(process).fd_table@.len() == 0
            &&& final(initproc_children)@ == old(initproc_children)@ + old(process).children@
            &&& final(pid2process)@ == old(pid2process)@.remove(old(process).pid)
            &&& final(children)@.len() == old(children)@.len()
            &&& forall|i: int|
                0 <= i < old(children)@.len() ==> (#[trigger] final(children)@[i]) == adopted(
                    old(children)@[i],
                    initproc,
                )
            &&& forall|i: int|
                0 <= i < old(children)@.len() ==> (#[trigger] final(children)@[i]).pid == old(
                    process,
                ).children@[i]
        },
{
    let ghost old_tasks = process.tasks@;
    let ghost old_alloc = process.task_res_allocator@;
    let n = process.tasks.len();
    let (res_tid, ustack_base, time) = match &process.tasks[tid] {
        Some(t) => match &t.res {
            Some(r) => (r.tid, r.ustack_base, t.time_intr_count),
            None => {
                proof {
                    assert(false);
                }
                (0, 0, 0)
            },
        },
        None => {
            proof {
                assert(false);
            }
            (0, 0, 0)
        },
    };
    proof {
        assert(old_tasks[tid as int] matches Some(t) && t.res matches Some(r) && r.tid == tid);
    }
    let res = TaskUserRes { tid: res_tid, ustack_base };
    res.dealloc_tid(&mut process.task_res_allocator);
    process.tasks.set(
        tid,
        Some(TaskControlBlockInner { res: None, task_status: TaskStatus::Zombie, exit_code: Some(exit_code), time_intr_count: time }),
    );
    proof {
        assert forall|k: int| 0 <= k < process.tasks@.len() implies (#[trigger] process.tasks@[k] matches Some(t) ==> (
            t.res matches Some(r) ==> r.tid == k && process.task_res_allocator@.allocated().contains(r.tid))) by {
            if k != tid {
                assert(process.tasks@[k] == old_tasks[k]);
            }
        }
    }
    if tid != 0 {
        return;
    }
    pid2process.remove_from_pid2process(process.pid);
    process.is_zombie = true;
    process.exit_code = exit_code;
    adopt_all(children, initproc);
    initproc_children.append(&mut process.children);
    proof {
        lemma_released_tids(old_tasks, 0, n as int);
    }
    let mut k: usize = 0;
    while k < n
        invariant
            n == old_tasks.len(),
            k <= n,
            tid == 0,
            process.tasks@.len() == n,
            process.pid == old(process).pid,
            process.parent == old(process).parent,
            process.is_zombie,
            process.exit_code == exit_code,
            process.children@.len() == 0,
            process.task_res_allocator@.wf(),
            process.task_res_allocator@.next == old_alloc.next,
            process.task_res_allocator@.free == old_alloc.free.push(0) + released_tids(old_tasks, 0, k as int),
            process.tasks@[0] == Some(
                TaskControlBlockInner { res: None, task_status: TaskStatus::Zombie, exit_code: Some(exit_code), time_intr_count: time },
            ),
            forall|j: int| 0 < j < k ==> process.tasks@[j] == without_res(old_tasks[j]),
            forall|j: int| k <= j < n && j != 0 ==> process.tasks@[j] == old_tasks[j],
            forall|j: int|
                k <= j < n && j != 0 && #[trigger] has_res(old_tasks[j]) ==> process.task_res_allocator@.allocated().contains(j as usize),
            forall|j: int| 0 <= j < n ==> (#[trigger] old_tasks[j] matches Some(t) ==> (
                t.res matches Some(r) ==> r.tid == j && old_alloc.allocated().contains(r.tid))),
        decreases n - k,
    {
        let ghost before = process.task_res_allocator@;
        if k != 0 {
            let cur = match &process.tasks[k] {
                Some(t) => match &t.res {
                    Some(r) => Some((r.tid, r.ustack_base, t.task_status, t.exit_code, t.time_intr_count)),
                    None => None,
                },
                None => None,
            };
            match cur {
                Some((rt, ub, st, ec, tc)) => {
                    proof {
                        assert(has_res(old_tasks[k as int]));
                        assert(rt == k);
                    }
                    let r = TaskUserRes { tid: rt, ustack_base: ub };
                    r.dealloc_tid(&mut process.task_res_allocator);
                    process.tasks.set(
                        k,
                        Some(TaskControlBlockInner { res: None, task_status: st, exit_code: ec, time_intr_count: tc }),
                    );
                    proof {
                        assert(process.task_res_allocator@.free =~= old_alloc.free.push(0) + released_tids(
                            old_tasks,
                            0,
                            k + 1,
                        ));
                        assert forall|j: int|
                            k + 1 <= j < n && j != 0 && #[trigger] has_res(old_tasks[j]) implies process.task_res_allocator@.allocated().contains(
                            j as usize,
                        ) by {
                            assert(before.allocated().contains(j as usize));
                        }
                    }
                },
                None => {
                    proof {
                        assert(!has_res(old_tasks[k as int]));
                        assert(process.tasks@[k as int] == without_res(old_tasks[k as int]));
                    }
                },
            }
        }
        k = k + 1;
    }
    process.fd_table.clear();
    proof {
        assert forall|j: int| 0 <= j < process.tasks@.len() implies (#[trigger] process.tasks@[j] matches Some(t) ==> (
            t.res matches Some(r) ==> r.tid == j && process.task_res_allocator@.allocated().contains(r.tid))) by {
            if j != 0 {
                assert(process.tasks@[j] == without_res(old_tasks[j]));
            }
        }
    }
}


/// When a process's main thread exits, every thread identifier that one of
/// its threads held is released, and no other: a thread identifier stays
/// handed out exactly when it was handed out and no thread held it.
pub proof fn lemma_main_exit_releases_every_thread(v: RecycleView, tasks: Seq<Option<TaskControlBlockInner>>)
    requires
        v.wf(),
        0 < tasks.len() <= usize::MAX,
        has_res(tasks[0]),
        forall|k: int|
            0 <= k < tasks.len() ==> (#[trigger] tasks[k] matches Some(t) ==> (t.res matches Some(r)
                ==> r.tid == k && v.allocated().contains(r.tid))),
    ensures
        ({
            let w = RecycleView { next: v.next, free: v.free.push(0) + released_tids(tasks, 0, tasks.len() as int) };
            forall|id: usize|
                #[trigger] w.allocated().contains(id) <==> (v.allocated().contains(id) && !(id
                    < tasks.len() && has_res(tasks[id as int])))
        }),
{
    let rel = released_tids(tasks, 0, tasks.len() as int);
    let free = v.free.push(0) + rel;
    let w = RecycleView { next: v.next, free };
    lemma_released_tids(tasks, 0, tasks.len() as int);
    assert forall|id: usize| #[trigger] w.allocated().contains(id) <==> (v.allocated().contains(id) && !(id
        < tasks.len() && has_res(tasks[id as int]))) by {
        assert(free.contains(id) <==> (v.free.contains(id) || id == 0 || rel.contains(id))) by {
            if free.contains(id) {
                let j = choose|j: int| 0 <= j < free.len() && free[j] == id;
                if j < v.free.len() {
                    assert(v.free[j] == id);
                } else if j > v.free.len() {
                    assert(rel[j - v.free.len() - 1] == id);
                }
            }
            if v.free.contains(id) {
                let j = choose|j: int| 0 <= j < v.free.len() && v.free[j] == id;
                assert(free[j] == id);
            }
            if id == 0 {
                assert(free[v.free.len() as int] == id);
            }
            if rel.contains(id) {
                let j = choose|j: int| 0 <= j < rel.len() && rel[j] == id;
                assert(free[v.free.len() + 1 + j] == id);
            }
        }
        if id < tasks.len() && has_res(tasks[id as int]) {
            assert(tasks[id as int] matches Some(t) && t.res matches Some(r) && r.tid == id);
            assert(v.allocated().contains(id));
            if id != 0 {
                assert(rel.contains(id));
            }
        }
        if rel.contains(id) {
            let j = choose|j: int| 0 <= j < rel.len() && rel[j] == id;
            assert(has_res(tasks[rel[j] as int]));
        }
        if id == 0 {
            assert(has_res(tasks[0]));
        }
    }
}

} // verus!
