//! Moving data between a TCP socket and a user buffer made of several
//! pieces, one piece per pass: the decisions of the blocking and the
//! asynchronous socket reads and writes and of a process's socket-polling
//! thread. The driver polls the interface, looks at the socket, and copies.
use vstd::prelude::*;
use crate::scheduler::TaskManager;

verus! {

/// Sum of `lens`.
pub open spec fn sum_lens(lens: Seq<usize>) -> nat
    decreases lens.len(),
{
    if lens.len() == 0 {
        0
    } else {
        sum_lens(lens.drop_last()) + lens.last() as nat
    }
}

/// A transfer in progress: the lengths of the pieces of the user buffer,
/// the piece to fill or empty next, and the bytes moved so far.
pub struct SocketTransfer {
    pub lens: Vec<usize>,
    pub next: usize,
    pub count: usize,
}

/// What the driver does next.
#[derive(Clone, Copy, PartialEq, Eq, Structural)]
pub enum TransferStep {
    /// Copy between the socket and the piece of the user buffer at this
    /// index.
    Move(usize),
    /// The socket can take or give nothing now: wait for it.
    Wait,
    /// The transfer is over; the count is final.
    Done,
}

proof fn lemma_sum_lens_prefix(lens: Seq<usize>, k: int)
    requires
        0 <= k < lens.len(),
    ensures
        sum_lens(lens.take(k + 1)) == sum_lens(lens.take(k)) + lens[k],
        sum_lens(lens.take(k + 1)) <= sum_lens(lens),
    decreases lens.len(),
{
    assert(lens.take(k + 1).drop_last() =~= lens.take(k));
    if k + 1 < lens.len() {
        assert(lens.drop_last().take(k + 1) =~= lens.take(k + 1));
        assert(lens.drop_last().take(k) =~= lens.take(k));
        lemma_sum_lens_prefix(lens.drop_last(), k);
    } else {
        assert(lens.take(k + 1) =~= lens);
    }
}

impl SocketTransfer {
    /// Nothing was moved beyond the pieces already passed.
    pub open spec fn wf(&self) -> bool {
        &&& self.next <= self.lens@.len()
        &&& sum_lens(self.lens@) <= usize::MAX
        &&& self.count <= sum_lens(self.lens@.take(self.next as int))
    }

    /// A transfer over a user buffer whose pieces have the lengths `lens`.
    pub fn new(lens: Vec<usize>) -> (r: Self)
        requires
            sum_lens(lens@) <= usize::MAX,
        ensures
            r.wf(),
            r.lens@ == lens@,
            r.next == 0,
            r.count == 0,
    {
        SocketTransfer { lens, next: 0, count: 0 }
    }

    /// The next step, given whether the socket is still active and whether
    /// it can receive (for a read) or send (for a write) now. The transfer
    /// is over when the socket is no longer active or every piece was
    /// passed.
    pub fn next_step(&self, active: bool, ready: bool) -> (r: TransferStep)
        ensures
            r == (if !active || self.next >= self.lens@.len() {
                TransferStep::Done
            } else if !ready {
                TransferStep::Wait
            } else {
                TransferStep::Move(self.next)
            }),
    {
        if !active || self.next >= self.lens.len() {
            TransferStep::Done
        } else if !ready {
            TransferStep::Wait
        } else {
            TransferStep::Move(self.next)
        }
    }

    /// Takes in the outcome of a copy for the next piece: `Some(n)` when `n`
    /// bytes were moved, and the transfer goes on with the following piece;
    /// `None` when the copy failed, and the piece is tried again.
    pub fn moved(&mut self, copied: Option<usize>)
        requires
            old(self).wf(),
            old(self).next < old(self).lens@.len(),
            copied matches Some(n) ==> n <= old(self).lens@[old(self).next as int],
        ensures
            final(self).wf(),
            final(self).lens@ == old(self).lens@,
            copied is None ==> *final(self) == *old(self),
            copied matches Some(n) ==> final(self).next == old(self).next + 1 && final(self).count
                == old(self).count + n,
    {
        let pieces = self.lens.len();
        match copied {
            Some(n) => {
                assert(self.next < pieces);
                proof {
                    lemma_sum_lens_prefix(self.lens@, self.next as int);
                }
                self.count = self.count + n;
                self.next = self.next + 1;
            },
            None => {},
        }
    }
}

/// A record of a user interrupt for a process: its cause and a message
/// (for a finished asynchronous read, the reading coroutine).
#[derive(Clone, Copy, PartialEq, Eq, Structural)]
pub struct UserTrapRecord {
    pub cause: usize,
    pub message: usize,
}

/// After the polling thread's pass over one pending asynchronous read of
/// coroutine `cid` that moved `count` bytes: when it moved any, the reading
/// process `pid` is marked as waiting on a user interrupt, to be served
/// first, a record of cause 1 with the coroutine as message is queued in
/// `trap_records`, and the read is over (`true`); otherwise nothing changes
/// and it stays pending (`false`).
pub fn finish_polled_read(
    manager: &mut TaskManager,
    trap_records: &mut Vec<UserTrapRecord>,
    count: usize,
    pid: usize,
    cid: usize,
) -> (done: bool)
    requires
        old(manager).wf(),
    ensures
        final(manager).wf(),
        done == (count > 0),
        final(manager)@.queue == old(manager)@.queue,
        final(manager)@.uintr == if count > 0 {
            old(manager)@.uintr.insert(pid)
        } else {
            old(manager)@.uintr
        },
        final(trap_records)@ == if count > 0 {
            old(trap_records)@.push(UserTrapRecord { cause: 1, message: cid })
        } else {
            old(trap_records)@
        },
{
    if count > 0 {
        manager.add_user_intr_task(pid);
        trap_records.push(UserTrapRecord { cause: 1, message: cid });
        true
    } else {
        false
    }
}

/// Whatever the socket does, a transfer never counts more bytes than its
/// user buffer holds.
pub proof fn lemma_transfer_bounded(t: SocketTransfer)
    requires
        t.wf(),
    ensures
        t.count <= sum_lens(t.lens@),
{
    lemma_sum_take_mono(t.lens@, t.next as int);
}

proof fn lemma_sum_take_mono(lens: Seq<usize>, k: int)
    requires
        0 <= k <= lens.len(),
    ensures
        sum_lens(lens.take(k)) <= sum_lens(lens),
    decreases lens.len() - k,
{
    if k < lens.len() {
        lemma_sum_lens_prefix(lens, k);
        lemma_sum_take_mono(lens, k + 1);
    } else {
        assert(lens.take(k) =~= lens);
    }
}

} // verus!
