//! Saved task contexts, task states and time values.
use vstd::prelude::*;

verus! {

/// Registers saved when switching away from a task: return address, the
/// twelve callee-saved registers, the thread identifier and the stack
/// pointer.
pub struct TaskContext {
    pub ra: usize,
    pub s: [usize; 12],
    pub tid: usize,
    pub sp: usize,
}

impl TaskContext {
    /// A context that, once switched to, jumps to `target` on the kernel
    /// stack whose top is `kstack_top`, for thread `tid`.
    pub fn goto_target(target: usize, kstack_top: usize, tid: usize) -> (r: Self)
        ensures
            r.ra == target,
            forall|i: int| 0 <= i < 12 ==> r.s@[i] == 0,
            r.tid == tid,
            r.sp == kstack_top,
    {
        TaskContext { ra: target, s: [0usize; 12], tid, sp: kstack_top }
    }
}

impl Default for TaskContext {
    /// A context filled with recognisable poison values.
    fn default() -> (r: Self)
        ensures
            r.ra == 0xDEDEDEDE,
            forall|i: int| 0 <= i < 12 ==> r.s@[i] == 0x23232323,
            r.tid == 0xDADADADA,
            r.sp == 0xABABABAB,
    {
        TaskContext { ra: 0xDEDEDEDE, s: [0x23232323usize; 12], tid: 0xDADADADA, sp: 0xABABABAB }
    }
}

/// State of a task.
#[derive(Clone, Copy, PartialEq, Eq, Structural)]
pub enum TaskStatus {
    Ready,
    Running(usize),
    Zombie,
    Blocking,
}

/// A time in seconds and microseconds.
pub struct TimeVal {
    pub sec: usize,
    pub usec: usize,
}

impl TimeVal {
    /// Time zero.
    pub fn new() -> (r: Self)
        ensures
            r.sec == 0,
            r.usec == 0,
    {
        TimeVal { sec: 0, usec: 0 }
    }
}

/// Registers a user-interrupt handler finds saved on entry: the general
/// registers and the interrupted program counter.
pub struct UintrFrame {
    pub ra: usize,
    pub sp: usize,
    pub gp: usize,
    pub tp: usize,
    pub t0: usize,
    pub t1: usize,
    pub t2: usize,
    pub s0: usize,
    pub s1: usize,
    pub a0: usize,
    pub a1: usize,
    pub a2: usize,
    pub a3: usize,
    pub a4: usize,
    pub a5: usize,
    pub a6: usize,
    pub a7: usize,
    pub s2: usize,
    pub s3: usize,
    pub s4: usize,
    pub s5: usize,
    pub s6: usize,
    pub s7: usize,
    pub s8: usize,
    pub s9: usize,
    pub s10: usize,
    pub s11: usize,
    pub t3: usize,
    pub t4: usize,
    pub t5: usize,
    pub t6: usize,
    pub uepc: usize,
}

} // verus!
