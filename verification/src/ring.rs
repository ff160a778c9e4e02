//! The byte ring buffer shared by the two ends of a pipe, and the transfer
//! steps that the pipe's blocking read and write repeat.
use vstd::prelude::*;

verus! {

/// Capacity of a pipe's ring buffer, in bytes.
pub const RING_BUFFER_SIZE: usize = 4096;

#[derive(Clone, Copy, PartialEq, Eq, Structural)]
enum RingBufferStatus {
    FULL,
    EMPTY,
    NORMAL,
}

/// A ring buffer of `RING_BUFFER_SIZE` bytes, read at `head` and written at
/// `tail`; when `head == tail` the status tells a full buffer from an empty
/// one. It also keeps the pipe's write end and read end, each a handle of
/// type `E` once it is set.
pub struct PipeRingBuffer<E> {
    arr: Vec<u8>,
    head: usize,
    tail: usize,
    status: RingBufferStatus,
    write_end: Option<E>,
    read_end: Option<E>,
}

/// Physical slot of the `i`-th byte after `head`.
pub open spec fn ring_slot(head: int, i: int) -> int {
    if head + i < RING_BUFFER_SIZE {
        head + i
    } else {
        head + i - RING_BUFFER_SIZE
    }
}

impl<E> PipeRingBuffer<E> {
    /// Number of bytes held.
    closed spec fn count(&self) -> nat {
        if self.status == RingBufferStatus::EMPTY {
            0
        } else if self.tail > self.head {
            (self.tail - self.head) as nat
        } else {
            (self.tail + RING_BUFFER_SIZE - self.head) as nat
        }
    }

    /// The write end and the read end, when set.
    pub closed spec fn ends(&self) -> (Option<E>, Option<E>) {
        (self.write_end, self.read_end)
    }

    /// The internal invariant of the ring.
    pub closed spec fn wf(&self) -> bool {
        &&& self.arr@.len() == RING_BUFFER_SIZE
        &&& self.head < RING_BUFFER_SIZE
        &&& self.tail < RING_BUFFER_SIZE
        &&& (self.status == RingBufferStatus::NORMAL <==> self.head != self.tail)
    }
}

impl<E> View for PipeRingBuffer<E> {
    type V = Seq<u8>;

    /// The bytes held, oldest first.
    closed spec fn view(&self) -> Seq<u8> {
        Seq::new(self.count(), |i: int| self.arr@[ring_slot(self.head as int, i)])
    }
}

impl<E> PipeRingBuffer<E> {
    proof fn lemma_count(&self)
        requires
            self.wf(),
        ensures
            self.count() <= RING_BUFFER_SIZE,
            self@.len() == self.count(),
            self.tail as int == ring_slot(self.head as int, self.count() as int)
                || self.count() == RING_BUFFER_SIZE,
            self.count() == RING_BUFFER_SIZE ==> self.tail == self.head,
            self.count() == 0 <==> self.status == RingBufferStatus::EMPTY,
            self.count() == RING_BUFFER_SIZE <==> self.status == RingBufferStatus::FULL,
    {
    }

    /// An empty buffer, with no end set.
    pub fn new() -> (r: Self)
        ensures
            r.wf(),
            r@ == Seq::<u8>::empty(),
            r.ends() == (None::<E>, None::<E>),
    {
        let r = PipeRingBuffer {
            arr: vec![0u8; RING_BUFFER_SIZE],
            head: 0,
            tail: 0,
            status: RingBufferStatus::EMPTY,
            write_end: None,
            read_end: None,
        };
        assert(r@ =~= Seq::<u8>::empty());
        r
    }

    /// Appends `byte`; the buffer must not be full.
    pub fn write_byte(&mut self, byte: u8)
        requires
            old(self).wf(),
            old(self)@.len() < RING_BUFFER_SIZE,
        ensures
            final(self).wf(),
        final(self).ends() == old(self).ends(),
            final(self)@ == old(self)@.push(byte),
    {
        proof {
            self.lemma_count();
        }
        let ghost old_view = self@;
        let ghost n = self.count();
        self.status = RingBufferStatus::NORMAL;
        self.arr.set(self.tail, byte);
        self.tail = if self.tail + 1 == RING_BUFFER_SIZE {
            0
        } else {
            self.tail + 1
        };
        if self.tail == self.head {
            self.status = RingBufferStatus::FULL;
        }
        proof {
            assert(self.count() == n + 1);
            assert forall|i: int| 0 <= i < n + 1 implies #[trigger] self@[i] == old_view.push(
                byte,
            )[i] by {
                if i < n {
                    assert(ring_slot(self.head as int, i) != ring_slot(self.head as int, n as int));
                }
            }
            assert(self@ =~= old_view.push(byte));
        }
    }

    /// Removes and returns the oldest byte; the buffer must not be empty.
    pub fn read_byte(&mut self) -> (c: u8)
        requires
            old(self).wf(),
            old(self)@.len() > 0,
        ensures
            final(self).wf(),
        final(self).ends() == old(self).ends(),
            c == old(self)@[0],
            final(self)@ == old(self)@.drop_first(),
    {
        proof {
            self.lemma_count();
        }
        let ghost old_view = self@;
        let ghost n = self.count();
        let ghost old_head = self.head;
        self.status = RingBufferStatus::NORMAL;
        let c = self.arr[self.head];
        self.head = if self.head + 1 == RING_BUFFER_SIZE {
            0
        } else {
            self.head + 1
        };
        if self.head == self.tail {
            self.status = RingBufferStatus::EMPTY;
        }
        proof {
            assert(self.count() == n - 1);
            assert forall|i: int| 0 <= i < n - 1 implies #[trigger] self@[i] == old_view.drop_first()[i] by {
                assert(ring_slot(self.head as int, i) == ring_slot(old_head as int, i + 1));
            }
            assert(self@ =~= old_view.drop_first());
        }
        c
    }

    /// Number of bytes that can be read.
    pub fn available_read(&self) -> (r: usize)
        requires
            self.wf(),
        ensures
            r == self@.len(),
    {
        proof {
            self.lemma_count();
        }
        if self.status == RingBufferStatus::EMPTY {
            0
        } else if self.tail > self.head {
            self.tail - self.head
        } else {
            self.tail + RING_BUFFER_SIZE - self.head
        }
    }

    /// Number of bytes that can be written: what the buffer can hold
    /// besides the bytes it holds.
    pub fn available_write(&self) -> (r: usize)
        requires
            self.wf(),
        ensures
            r == RING_BUFFER_SIZE - self@.len(),
            r + self@.len() == RING_BUFFER_SIZE,
    {
        proof {
            self.lemma_count();
        }
        if self.status == RingBufferStatus::FULL {
            0
        } else {
            RING_BUFFER_SIZE - self.available_read()
        }
    }
}


/// What a pipe transfer asks of its caller after one step.
#[derive(Clone, Copy, PartialEq, Eq, Structural)]
pub enum PipeIo {
    /// The transfer is over: return the count transferred so far.
    Finished,
    /// Step again at once.
    Again,
    /// Nothing could move: yield the processor, then step again.
    Suspend,
}

impl<E> PipeRingBuffer<E> {
    /// Sets the write end; the bytes and the read end stay.
    pub fn set_write_end(&mut self, write_end: E)
        requires
            old(self).wf(),
        ensures
            final(self).wf(),
            final(self)@ == old(self)@,
            final(self).ends() == (Some(write_end), old(self).ends().1),
    {
        self.write_end = Some(write_end);
    }

    /// Sets the read end; the bytes and the write end stay.
    pub fn set_read_end(&mut self, read_end: E)
        requires
            old(self).wf(),
        ensures
            final(self).wf(),
            final(self)@ == old(self)@,
            final(self).ends() == (old(self).ends().0, Some(read_end)),
    {
        self.read_end = Some(read_end);
    }

    /// Whether the write end and the read end are set.
    pub fn ends_set(&self) -> (r: (bool, bool))
        ensures
            r == (self.ends().0 is Some, self.ends().1 is Some),
    {
        (self.write_end.is_some(), self.read_end.is_some())
    }

    /// Whether every write end is closed, for a ring whose write end is set:
    /// `alive` tells whether a handle still reaches an open end, and the
    /// answer is its negation on the write end.
    pub fn all_write_ends_closed<A: Fn(&E) -> bool>(&self, alive: A) -> (r: bool)
        requires
            self.ends().0 is Some,
            call_requires(alive, (&self.ends().0->Some_0,)),
        ensures
            call_ensures(alive, (&self.ends().0->Some_0,), !r),
    {
        match &self.write_end {
            Some(e) => !alive(e),
            None => true,
        }
    }

    /// Whether every read end is closed, for a ring whose read end is set:
    /// `alive` tells whether a handle still reaches an open end, and the
    /// answer is its negation on the read end.
    pub fn all_read_ends_closed<A: Fn(&E) -> bool>(&self, alive: A) -> (r: bool)
        requires
            self.ends().1 is Some,
            call_requires(alive, (&self.ends().1->Some_0,)),
        ensures
            call_ensures(alive, (&self.ends().1->Some_0,), !r),
    {
        match &self.read_end {
            Some(e) => !alive(e),
            None => true,
        }
    }
}

/// The smaller of two integers.
pub open spec fn min_int(a: int, b: int) -> int {
    if a <= b {
        a
    } else {
        b
    }
}

/// Moves the `k` oldest bytes of `ring` out, oldest first.
fn drain_ring<E>(ring: &mut PipeRingBuffer<E>, k: usize) -> (out: Vec<u8>)
    requires
        old(ring).wf(),
        k <= old(ring)@.len(),
    ensures
        final(ring).wf(),
        final(ring).ends() == old(ring).ends(),
        out@ == old(ring)@.take(k as int),
        final(ring)@ == old(ring)@.skip(k as int),
{
    let mut out: Vec<u8> = Vec::new();
    let mut i: usize = 0;
    while i < k
        invariant
            ring.wf(),
            ring.ends() == old(ring).ends(),
            i <= k,
            k <= old(ring)@.len(),
            out@ == old(ring)@.take(i as int),
            ring@ == old(ring)@.skip(i as int),
        decreases k - i,
    {
        let c = ring.read_byte();
        out.push(c);
        i = i + 1;
        assert(out@ =~= old(ring)@.take(i as int));
        assert(ring@ =~= old(ring)@.skip(i as int));
    }
    out
}

/// Appends the first `k` bytes of `src` to `ring`, in order.
fn fill_ring<E>(ring: &mut PipeRingBuffer<E>, src: &[u8], k: usize)
    requires
        old(ring).wf(),
        k <= src@.len(),
        old(ring)@.len() + k <= RING_BUFFER_SIZE,
    ensures
        final(ring).wf(),
        final(ring).ends() == old(ring).ends(),
        final(ring)@ == old(ring)@ + src@.take(k as int),
{
    let mut i: usize = 0;
    while i < k
        invariant
            ring.wf(),
            ring.ends() == old(ring).ends(),
            i <= k,
            k <= src@.len(),
            old(ring)@.len() + k <= RING_BUFFER_SIZE,
            ring@ == old(ring)@ + src@.take(i as int),
        decreases k - i,
    {
        ring.write_byte(src[i]);
        i = i + 1;
        assert(ring@ =~= old(ring)@ + src@.take(i as int));
    }
}

/// One pass of a blocking pipe read into a buffer with `remaining` free
/// bytes. With bytes in the ring it moves out as many as fit, and the read
/// is over once the buffer is full; with none it is over when every write
/// end is closed, and must wait otherwise.
pub fn pipe_read_step<E>(ring: &mut PipeRingBuffer<E>, remaining: usize, write_ends_closed: bool) -> (r: (
    Vec<u8>,
    PipeIo,
))
    requires
        old(ring).wf(),
    ensures
        final(ring).wf(),
        final(ring).ends() == old(ring).ends(),
        old(ring)@.len() == 0 ==> {
            &&& r.0@ == Seq::<u8>::empty()
            &&& final(ring)@ == old(ring)@
            &&& r.1 == (if write_ends_closed {
                PipeIo::Finished
            } else {
                PipeIo::Suspend
            })
        },
        old(ring)@.len() > 0 ==> {
            let k = min_int(old(ring)@.len() as int, remaining as int);
            &&& r.0@ == old(ring)@.take(k)
            &&& final(ring)@ == old(ring)@.skip(k)
            &&& r.1 == (if old(ring)@.len() >= remaining {
                PipeIo::Finished
            } else {
                PipeIo::Again
            })
        },
{
    let avail = ring.available_read();
    if avail == 0 {
        let io = if write_ends_closed {
            PipeIo::Finished
        } else {
            PipeIo::Suspend
        };
        return (Vec::new(), io);
    }
    let k = if avail <= remaining {
        avail
    } else {
        remaining
    };
    let out = drain_ring(ring, k);
    let io = if avail >= remaining {
        PipeIo::Finished
    } else {
        PipeIo::Again
    };
    (out, io)
}

/// Writes `min(free space, src.len())` bytes of `src`; returns that count
/// and the free space the ring had.
fn write_some<E>(ring: &mut PipeRingBuffer<E>, src: &[u8]) -> (r: (usize, usize))
    requires
        old(ring).wf(),
    ensures
        final(ring).wf(),
        final(ring).ends() == old(ring).ends(),
        r.1 == RING_BUFFER_SIZE - old(ring)@.len(),
        r.0 == min_int(r.1 as int, src@.len() as int),
        final(ring)@ == old(ring)@ + src@.take(r.0 as int),
{
    let avail = ring.available_write();
    let k = if avail <= src.len() {
        avail
    } else {
        src.len()
    };
    fill_ring(ring, src, k);
    (k, avail)
}

/// One pass of a blocking pipe write of the bytes `src` that are left. With
/// room in the ring it moves in as many as fit, and the write is over when
/// `src` ran out before the room did; with no room it is over when every
/// read end is closed, and must wait otherwise.
pub fn pipe_write_step<E>(ring: &mut PipeRingBuffer<E>, src: &[u8], read_ends_closed: bool) -> (r: (
    usize,
    PipeIo,
))
    requires
        old(ring).wf(),
    ensures
        final(ring).wf(),
        final(ring).ends() == old(ring).ends(),
        ({
            let avail = RING_BUFFER_SIZE - old(ring)@.len();
            &&& r.0 == min_int(avail, src@.len() as int)
            &&& final(ring)@ == old(ring)@ + src@.take(r.0 as int)
            &&& r.1 == (if avail == 0 {
                if read_ends_closed {
                    PipeIo::Finished
                } else {
                    PipeIo::Suspend
                }
            } else if src@.len() < avail {
                PipeIo::Finished
            } else {
                PipeIo::Again
            })
        }),
{
    let (k, avail) = write_some(ring, src);
    let io = if avail == 0 {
        if read_ends_closed {
            PipeIo::Finished
        } else {
            PipeIo::Suspend
        }
    } else if src.len() < avail {
        PipeIo::Finished
    } else {
        PipeIo::Again
    };
    (k, io)
}

/// One pass of the asynchronous pipe write: as [`pipe_write_step`], except
/// that the write is over as soon as `src` is used up.
pub fn pipe_awrite_step<E>(ring: &mut PipeRingBuffer<E>, src: &[u8], read_ends_closed: bool) -> (r: (
    usize,
    PipeIo,
))
    requires
        old(ring).wf(),
    ensures
        final(ring).wf(),
        final(ring).ends() == old(ring).ends(),
        ({
            let avail = RING_BUFFER_SIZE - old(ring)@.len();
            &&& r.0 == min_int(avail, src@.len() as int)
            &&& final(ring)@ == old(ring)@ + src@.take(r.0 as int)
            &&& r.1 == (if avail == 0 {
                if read_ends_closed {
                    PipeIo::Finished
                } else {
                    PipeIo::Suspend
                }
            } else if src@.len() <= avail {
                PipeIo::Finished
            } else {
                PipeIo::Again
            })
        }),
{
    let (k, avail) = write_some(ring, src);
    let io = if avail == 0 {
        if read_ends_closed {
            PipeIo::Finished
        } else {
            PipeIo::Suspend
        }
    } else if src.len() <= avail {
        PipeIo::Finished
    } else {
        PipeIo::Again
    };
    (k, io)
}


/// A pipe is first in, first out: after a write step moved `w` bytes of
/// `src` into a ring holding `before`, a read step into a buffer of
/// `remaining` bytes gives back the oldest bytes: those of `before` first,
/// then the written ones in their order. Into an empty ring, a read gives
/// back what was written.
pub proof fn lemma_pipe_read_after_write(before: Seq<u8>, src: Seq<u8>, remaining: int)
    requires
        before.len() <= RING_BUFFER_SIZE,
        0 <= remaining,
    ensures
        ({
            let w = min_int(RING_BUFFER_SIZE - before.len(), src.len() as int);
            let after = before + src.take(w);
            let k = min_int(after.len() as int, remaining);
            &&& after.len() <= RING_BUFFER_SIZE
            &&& k <= before.len() ==> after.take(k) == before.take(k)
            &&& k > before.len() ==> after.take(k) == before + src.take(k - before.len())
            &&& before.len() == 0 ==> after.take(k) == src.take(k)
        }),
{
    let w = min_int(RING_BUFFER_SIZE - before.len(), src.len() as int);
    let after = before + src.take(w);
    let k = min_int(after.len() as int, remaining);
    if k <= before.len() {
        assert(after.take(k) =~= before.take(k));
    } else {
        assert(after.take(k) =~= before + src.take(k - before.len()));
    }
    if before.len() == 0 {
        assert(after.take(k) =~= src.take(k));
    }
}

} // verus!
