//! Placement of kernel stacks, user stacks and trap contexts in the address
//! spaces, and the handles that own an identifier.
use vstd::prelude::*;
use crate::config::{KERNEL_STACK_SIZE, PAGE_SIZE, TRAP_CONTEXT, USER_STACK_SIZE};
use crate::recycle::{RecycleAllocator, RecycleView};

verus! {

/// Distance between the tops of two consecutive kernel stacks: a stack and
/// the guard page below it.
pub open spec fn kstack_stride() -> int {
    KERNEL_STACK_SIZE + PAGE_SIZE
}

/// Top of the kernel stack with identifier `id`.
pub open spec fn kstack_top_spec(id: int) -> int {
    TRAP_CONTEXT - id * kstack_stride()
}

/// The kernel stack with identifier `id` lies inside the address space.
pub open spec fn kstack_fits(id: int) -> bool {
    0 <= id && kstack_top_spec(id) - KERNEL_STACK_SIZE >= 0
}

/// Returns `(bottom, top)` of the kernel stack with identifier `kstack_id`.
pub fn kernel_stack_position(kstack_id: usize) -> (r: (usize, usize))
    requires
        kstack_fits(kstack_id as int),
    ensures
        r.1 == kstack_top_spec(kstack_id as int),
        r.0 == r.1 - KERNEL_STACK_SIZE,
{
    let top = TRAP_CONTEXT - kstack_id * (KERNEL_STACK_SIZE + PAGE_SIZE);
    let bottom = top - KERNEL_STACK_SIZE;
    (bottom, top)
}

/// Owner of a process identifier.
pub struct PidHandle(pub usize);

/// Allocates a process identifier from `pid_allocator`.
pub fn pid_alloc(pid_allocator: &mut RecycleAllocator) -> (h: PidHandle)
    requires
        old(pid_allocator)@.wf(),
        old(pid_allocator)@.can_alloc(),
    ensures
        (final(pid_allocator)@, h.0) == old(pid_allocator)@.alloc_step(),
        final(pid_allocator)@.wf(),
        !old(pid_allocator)@.allocated().contains(h.0),
{
    PidHandle(pid_allocator.alloc_id())
}

impl PidHandle {
    /// Gives the identifier back to `pid_allocator`, as dropping the handle does.
    pub fn release(self, pid_allocator: &mut RecycleAllocator)
        requires
            old(pid_allocator)@.wf(),
            old(pid_allocator)@.allocated().contains(self.0),
        ensures
            final(pid_allocator)@ == old(pid_allocator)@.dealloc(self.0),
            final(pid_allocator)@.wf(),
    {
        pid_allocator.dealloc(self.0);
    }
}

/// Owner of a kernel stack, by its identifier.
pub struct KernelStack(pub usize);

/// Every identifier the allocator can hand out next names a kernel stack
/// that fits in the address space.
pub open spec fn kstack_allocator_fits(v: RecycleView) -> bool {
    kstack_fits(v.next as int)
}

/// Allocates a kernel stack identifier; the caller maps
/// `kernel_stack_position` of it.
pub fn kstack_alloc(kstack_allocator: &mut RecycleAllocator) -> (k: KernelStack)
    requires
        old(kstack_allocator)@.wf(),
        old(kstack_allocator)@.can_alloc(),
        kstack_allocator_fits(old(kstack_allocator)@),
    ensures
        (final(kstack_allocator)@, k.0) == old(kstack_allocator)@.alloc_step(),
        final(kstack_allocator)@.wf(),
        kstack_fits(k.0 as int),
{
    let id = kstack_allocator.alloc_id();
    proof {
        let v = old(kstack_allocator)@;
        if v.free.len() > 0 {
            assert(v.free[v.free.len() - 1] < v.next);
        }
    }
    KernelStack(id)
}

impl KernelStack {
    /// Top of this kernel stack.
    pub fn get_top(&self) -> (top: usize)
        requires
            kstack_fits(self.0 as int),
        ensures
            top == kstack_top_spec(self.0 as int),
    {
        let (_, kernel_stack_top) = kernel_stack_position(self.0);
        kernel_stack_top
    }
}

/// Bottom of the trap-context page of thread `tid`.
pub open spec fn trap_cx_bottom_spec(tid: int) -> int {
    TRAP_CONTEXT - tid * PAGE_SIZE
}

/// Bottom of the user stack of thread `tid` above `ustack_base`.
pub open spec fn ustack_bottom_spec(ustack_base: int, tid: int) -> int {
    ustack_base + tid * (PAGE_SIZE + USER_STACK_SIZE)
}

/// Bottom of the trap-context page of thread `tid`.
pub fn trap_cx_bottom_from_tid(tid: usize) -> (r: usize)
    requires
        trap_cx_bottom_spec(tid as int) >= 0,
    ensures
        r == trap_cx_bottom_spec(tid as int),
{
    TRAP_CONTEXT - tid * PAGE_SIZE
}

/// Bottom of the user stack of thread `tid` above `ustack_base`.
pub fn ustack_bottom_from_tid(ustack_base: usize, tid: usize) -> (r: usize)
    requires
        ustack_bottom_spec(ustack_base as int, tid as int) <= usize::MAX,
    ensures
        r == ustack_bottom_spec(ustack_base as int, tid as int),
{
    proof {
        assert(tid * (PAGE_SIZE + USER_STACK_SIZE) <= usize::MAX) by (nonlinear_arith)
            requires
                ustack_base + tid * (PAGE_SIZE + USER_STACK_SIZE) <= usize::MAX,
                ustack_base >= 0,
        ;
    }
    ustack_base + tid * (PAGE_SIZE + USER_STACK_SIZE)
}

/// The user resources of a thread: its identifier within the process and the
/// base above which the process's user stacks lie.
pub struct TaskUserRes {
    pub tid: usize,
    pub ustack_base: usize,
}

impl TaskUserRes {
    /// The thread's user stack and trap-context page lie inside the address
    /// space.
    pub open spec fn fits(&self) -> bool {
        &&& trap_cx_bottom_spec(self.tid as int) >= 0
        &&& ustack_bottom_spec(self.ustack_base as int, self.tid as int) + USER_STACK_SIZE
            <= usize::MAX
    }

    /// Resources for a new thread, whose identifier comes from the process's
    /// `tid_allocator`.
    pub fn new(tid_allocator: &mut RecycleAllocator, ustack_base: usize) -> (r: Self)
        requires
            old(tid_allocator)@.wf(),
            old(tid_allocator)@.can_alloc(),
        ensures
            (final(tid_allocator)@, r.tid) == old(tid_allocator)@.alloc_step(),
            final(tid_allocator)@.wf(),
            r.ustack_base == ustack_base,
    {
        let tid = tid_allocator.alloc_id();
        TaskUserRes { tid, ustack_base }
    }

    /// Gives the thread identifier back to the process's `tid_allocator`.
    pub fn dealloc_tid(&self, tid_allocator: &mut RecycleAllocator)
        requires
            old(tid_allocator)@.wf(),
            old(tid_allocator)@.allocated().contains(self.tid),
        ensures
            final(tid_allocator)@ == old(tid_allocator)@.dealloc(self.tid),
            final(tid_allocator)@.wf(),
    {
        tid_allocator.dealloc(self.tid);
    }

    /// User virtual address of the thread's trap context.
    pub fn trap_cx_user_va(&self) -> (r: usize)
        requires
            trap_cx_bottom_spec(self.tid as int) >= 0,
        ensures
            r == trap_cx_bottom_spec(self.tid as int),
    {
        trap_cx_bottom_from_tid(self.tid)
    }

    /// Base above which the process's user stacks lie.
    pub fn ustack_base(&self) -> (r: usize)
        ensures
            r == self.ustack_base,
    {
        self.ustack_base
    }

    /// Top of the thread's user stack.
    pub fn ustack_top(&self) -> (r: usize)
        requires
            ustack_bottom_spec(self.ustack_base as int, self.tid as int) + USER_STACK_SIZE
                <= usize::MAX,
        ensures
            r == ustack_bottom_spec(self.ustack_base as int, self.tid as int) + USER_STACK_SIZE,
    {
        ustack_bottom_from_tid(self.ustack_base, self.tid) + USER_STACK_SIZE
    }
}


/// Kernel stacks of two different identifiers do not overlap, and a guard
/// page separates them.
pub proof fn lemma_kernel_stacks_disjoint(a: int, b: int)
    requires
        0 <= a < b,
    ensures
        kstack_top_spec(b) + PAGE_SIZE <= kstack_top_spec(a) - KERNEL_STACK_SIZE,
{
    assert(b * kstack_stride() >= (a + 1) * kstack_stride()) by (nonlinear_arith)
        requires
            b >= a + 1,
            kstack_stride() > 0,
    ;
    assert((a + 1) * kstack_stride() == a * kstack_stride() + kstack_stride()) by (nonlinear_arith);
}

/// The user stacks of two different threads of a process do not overlap,
/// and a guard page separates them.
pub proof fn lemma_user_stacks_disjoint(ustack_base: int, a: int, b: int)
    requires
        0 <= a < b,
    ensures
        ustack_bottom_spec(ustack_base, a) + USER_STACK_SIZE + PAGE_SIZE <= ustack_bottom_spec(ustack_base, b),
{
    assert(b * (PAGE_SIZE + USER_STACK_SIZE) >= (a + 1) * (PAGE_SIZE + USER_STACK_SIZE)) by (nonlinear_arith)
        requires
            b >= a + 1,
    ;
    assert((a + 1) * (PAGE_SIZE + USER_STACK_SIZE) == a * (PAGE_SIZE + USER_STACK_SIZE) + (PAGE_SIZE
        + USER_STACK_SIZE)) by (nonlinear_arith);
}

/// The trap-context pages of two different threads are different pages.
pub proof fn lemma_trap_contexts_disjoint(a: int, b: int)
    requires
        0 <= a < b,
    ensures
        trap_cx_bottom_spec(b) + PAGE_SIZE <= trap_cx_bottom_spec(a),
{
    assert(b * PAGE_SIZE >= (a + 1) * PAGE_SIZE) by (nonlinear_arith)
        requires
            b >= a + 1,
    ;
}

} // verus!
