//! File-descriptor tables and the decisions of the `read`, `write` and
//! `close` system calls; the standard streams.
use vstd::prelude::*;

verus! {

/// Index of the first free slot of `t` at or after `i`, or `t.len()`.
pub open spec fn first_free_from<F>(t: Seq<Option<F>>, i: int) -> int
    decreases t.len() - i,
{
    if i < 0 || i >= t.len() {
        t.len() as int
    } else if t[i] is None {
        i
    } else {
        first_free_from(t, i + 1)
    }
}

proof fn lemma_first_free_from<F>(t: Seq<Option<F>>, i: int)
    requires
        0 <= i <= t.len(),
    ensures
        i <= first_free_from(t, i) <= t.len(),
        forall|k: int| i <= k < first_free_from(t, i) ==> t[k] is Some,
        first_free_from(t, i) < t.len() ==> t[first_free_from(t, i)] is None,
    decreases t.len() - i,
{
    if i < t.len() && t[i] is Some {
        lemma_first_free_from(t, i + 1);
    }
}

/// A new descriptor is the lowest free one: every descriptor below it is
/// open, and it is free or just past the end of the table.
pub proof fn lemma_new_descriptor_is_lowest_free<F>(t: Seq<Option<F>>)
    ensures
        0 <= first_free_from(t, 0) <= t.len(),
        first_free_from(t, 0) < t.len() ==> t[first_free_from(t, 0)] is None,
        forall|k: int| 0 <= k < first_free_from(t, 0) ==> #[trigger] t[k] is Some,
{
    lemma_first_free_from(t, 0);
}

/// Returns the lowest free descriptor of `fd_table`, adding a free slot at
/// the end when every slot is taken.
pub fn alloc_fd<F>(fd_table: &mut Vec<Option<F>>) -> (fd: usize)
    ensures
        fd == first_free_from(old(fd_table)@, 0),
        fd <= old(fd_table)@.len(),
        fd < final(fd_table)@.len(),
        final(fd_table)@[fd as int] is None,
        fd < old(fd_table)@.len() ==> final(fd_table)@ == old(fd_table)@,
        fd == old(fd_table)@.len() ==> final(fd_table)@ == old(fd_table)@.push(None),
{
    proof {
        lemma_first_free_from(fd_table@, 0);
    }
    let mut i: usize = 0;
    while i < fd_table.len()
        invariant
            i <= fd_table@.len(),
            fd_table@ == old(fd_table)@,
            forall|k: int| 0 <= k < i ==> fd_table@[k] is Some,
        decreases fd_table@.len() - i,
    {
        if fd_table[i].is_none() {
            proof {
                lemma_first_free_from(fd_table@, 0);
            }
            return i;
        }
        i = i + 1;
    }
    fd_table.push(None);
    fd_table.len() - 1
}

/// Closes descriptor `fd`: 0 when it was open, -1 when it is out of the
/// table or not open.
pub fn sys_close<F>(fd_table: &mut Vec<Option<F>>, fd: usize) -> (r: isize)
    ensures
        (fd >= old(fd_table)@.len() || old(fd_table)@[fd as int] is None) ==> r == -1
            && final(fd_table)@ == old(fd_table)@,
        (fd < old(fd_table)@.len() && old(fd_table)@[fd as int] is Some) ==> r == 0
            && final(fd_table)@ == old(fd_table)@.update(fd as int, None),
{
    if fd >= fd_table.len() {
        return -1;
    }
    if fd_table[fd].is_none() {
        return -1;
    }
    fd_table.set(fd, None);
    0
}

/// What a `read` or `write` system call does after looking at the
/// descriptor table.
#[derive(Clone, Copy, PartialEq, Eq, Structural)]
pub enum FdCall {
    /// Return this value at once.
    Fail(isize),
    /// Run the file's blocking operation on descriptor `fd`.
    Blocking(usize),
    /// Hand the file's asynchronous operation on descriptor `fd` to a
    /// coroutine.
    Async(usize),
}

/// The decision shared by `read` and `write`: -1 when `fd` is out of the
/// table, -4 when it is not open, -3 when a blocking call's user buffer
/// could not be translated, else the operation to run.
pub open spec fn fd_call_spec<F>(
    fd_table: Seq<Option<F>>,
    fd: usize,
    blocking: bool,
    buffer_translated: bool,
) -> FdCall {
    if fd >= fd_table.len() {
        FdCall::Fail(-1isize)
    } else if fd_table[fd as int] is None {
        FdCall::Fail(-4isize)
    } else if blocking {
        if buffer_translated {
            FdCall::Blocking(fd)
        } else {
            FdCall::Fail(-3isize)
        }
    } else {
        FdCall::Async(fd)
    }
}

fn fd_call<F>(fd_table: &Vec<Option<F>>, fd: usize, blocking: bool, buffer_translated: bool) -> (r:
    FdCall)
    ensures
        r == fd_call_spec(fd_table@, fd, blocking, buffer_translated),        fd < fd_table@.len() && fd_table@[fd as int] is Some && blocking && buffer_translated
            ==> r == FdCall::Blocking(fd),
        fd < fd_table@.len() && fd_table@[fd as int] is Some && !(blocking) ==> r == FdCall::Async(fd),
        fd < fd_table@.len() && fd_table@[fd as int] is Some && blocking && !buffer_translated
            ==> r == FdCall::Fail(-3isize),
        fd >= fd_table@.len() ==> r == FdCall::Fail(-1isize),
        fd < fd_table@.len() && fd_table@[fd as int] is None ==> r == FdCall::Fail(-4isize),
{
    if fd >= fd_table.len() {
        return FdCall::Fail(-1);
    }
    if fd_table[fd].is_none() {
        return FdCall::Fail(-4);
    }
    if blocking {
        if buffer_translated {
            FdCall::Blocking(fd)
        } else {
            FdCall::Fail(-3)
        }
    } else {
        FdCall::Async(fd)
    }
}

/// The decision of a `read` or `write` acts on the descriptor it was asked
/// about: an operation to run always names `fd`, runs only on an open
/// descriptor, is blocking exactly for a blocking call with a translated
/// buffer and asynchronous exactly for a non-blocking call; every failure
/// code tells which check failed.
pub proof fn lemma_fd_call_targets_fd<F>(
    fd_table: Seq<Option<F>>,
    fd: usize,
    blocking: bool,
    buffer_translated: bool,
)
    ensures
        ({
            let open = fd < fd_table.len() && fd_table[fd as int] is Some;
            match fd_call_spec(fd_table, fd, blocking, buffer_translated) {
                FdCall::Blocking(x) => x == fd && open && blocking && buffer_translated,
                FdCall::Async(x) => x == fd && open && !blocking,
                FdCall::Fail(e) => {
                    &&& e == -1 <==> fd >= fd_table.len()
                    &&& e == -4 <==> (fd < fd_table.len() && fd_table[fd as int] is None)
                    &&& e == -3 <==> (open && blocking && !buffer_translated)
                    &&& (e == -1 || e == -3 || e == -4)
                },
            }
        }),
{
}

/// Decision of the `write` system call: blocking when `key` is
/// `usize::MAX`, asynchronous otherwise. An asynchronous write needs a
/// translated buffer.
pub fn sys_write<F>(fd_table: &Vec<Option<F>>, fd: usize, key: usize, buffer_translated: bool) -> (r:
    FdCall)
    requires
        (fd < fd_table@.len() && fd_table@[fd as int] is Some && key != usize::MAX)
            ==> buffer_translated,
    ensures
        r == fd_call_spec(fd_table@, fd, key == usize::MAX, buffer_translated),        fd < fd_table@.len() && fd_table@[fd as int] is Some && key == usize::MAX && buffer_translated
            ==> r == FdCall::Blocking(fd),
        fd < fd_table@.len() && fd_table@[fd as int] is Some && !(key == usize::MAX) ==> r == FdCall::Async(fd),
        fd < fd_table@.len() && fd_table@[fd as int] is Some && key == usize::MAX && !buffer_translated
            ==> r == FdCall::Fail(-3isize),
        fd >= fd_table@.len() ==> r == FdCall::Fail(-1isize),
        fd < fd_table@.len() && fd_table@[fd as int] is None ==> r == FdCall::Fail(-4isize),
{
    fd_call(fd_table, fd, key == usize::MAX, buffer_translated)
}

/// Decision of the `read` system call: blocking when both `key` and `cid`
/// are `usize::MAX`, asynchronous otherwise. An asynchronous read needs a
/// translated buffer.
pub fn sys_read<F>(
    fd_table: &Vec<Option<F>>,
    fd: usize,
    key: usize,
    cid: usize,
    buffer_translated: bool,
) -> (r: FdCall)
    requires
        (fd < fd_table@.len() && fd_table@[fd as int] is Some && !(key == usize::MAX && cid
            == usize::MAX)) ==> buffer_translated,
    ensures
        r == fd_call_spec(fd_table@, fd, key == usize::MAX && cid == usize::MAX, buffer_translated),        fd < fd_table@.len() && fd_table@[fd as int] is Some && (key == usize::MAX && cid == usize::MAX) && buffer_translated
            ==> r == FdCall::Blocking(fd),
        fd < fd_table@.len() && fd_table@[fd as int] is Some && !((key == usize::MAX && cid == usize::MAX)) ==> r == FdCall::Async(fd),
        fd < fd_table@.len() && fd_table@[fd as int] is Some && (key == usize::MAX && cid == usize::MAX) && !buffer_translated
            ==> r == FdCall::Fail(-3isize),
        fd >= fd_table@.len() ==> r == FdCall::Fail(-1isize),
        fd < fd_table@.len() && fd_table@[fd as int] is None ==> r == FdCall::Fail(-4isize),
{
    fd_call(fd_table, fd, key == usize::MAX && cid == usize::MAX, buffer_translated)
}

/// The value a system call returns for a file operation's outcome: the
/// count transferred, or -2 on failure.
pub fn io_status(res: Result<usize, isize>) -> (r: isize)
    ensures
        res matches Ok(n) ==> r == n as isize,
        res is Err ==> r == -2,
{
    match res {
        Ok(n) => n as isize,
        Err(_) => -2,
    }
}

/// Total number of bytes of the buffers `b`.
pub open spec fn total_len(b: Seq<Vec<u8>>) -> nat
    decreases b.len(),
{
    if b.len() == 0 {
        0
    } else {
        total_len(b.drop_last()) + b.last()@.len()
    }
}

/// A user buffer: the pieces of user memory it spans, in order.
pub struct UserBuffer {
    pub buffers: Vec<Vec<u8>>,
}

impl UserBuffer {
    /// A buffer made of `buffers`.
    pub fn new(buffers: Vec<Vec<u8>>) -> (r: Self)
        ensures
            r.buffers == buffers,
    {
        UserBuffer { buffers }
    }

    /// Total number of bytes.
    pub fn len(&self) -> (r: usize)
        requires
            total_len(self.buffers@) <= usize::MAX,
        ensures
            r == total_len(self.buffers@),
    {
        let mut n: usize = 0;
        let mut i: usize = 0;
        while i < self.buffers.len()
            invariant
                i <= self.buffers@.len(),
                total_len(self.buffers@) <= usize::MAX,
                n == total_len(self.buffers@.subrange(0, i as int)),
            decreases self.buffers@.len() - i,
        {
            proof {
                let s = self.buffers@;
                assert(s.subrange(0, i + 1).drop_last() =~= s.subrange(0, i as int));
                lemma_total_len_prefix(s, i + 1);
            }
            n = n + self.buffers[i].len();
            i = i + 1;
        }
        proof {
            assert(self.buffers@.subrange(0, i as int) =~= self.buffers@);
        }
        n
    }
}

/// The bytes of a prefix of `b` are no more than those of `b`.
proof fn lemma_total_len_prefix(b: Seq<Vec<u8>>, k: int)
    requires
        0 <= k <= b.len(),
    ensures
        total_len(b.subrange(0, k)) <= total_len(b),
    decreases b.len(),
{
    if k < b.len() {
        assert(b.drop_last().subrange(0, k) =~= b.subrange(0, k));
        lemma_total_len_prefix(b.drop_last(), k);
    } else {
        assert(b.subrange(0, k) =~= b);
    }
}

/// The console's input stream.
pub struct Stdin;

/// The console's output stream.
pub struct Stdout;

impl Stdin {
    /// Stores the character `ch` read from the console, if one came, in the
    /// one-byte buffer: `Ok(1)`, or `Err(-1)` when none came.
    pub fn read(&self, user_buf: &mut Vec<u8>, ch: Option<u8>) -> (r: Result<usize, isize>)
        requires
            old(user_buf)@.len() == 1,
        ensures
            ch matches Some(c) ==> r == Ok::<usize, isize>(1) && final(user_buf)@ == seq![c],
            ch is None ==> r == Err::<usize, isize>(-1isize) && final(user_buf)@ == old(user_buf)@,
    {
        match ch {
            Some(c) => {
                user_buf.set(0, c);
                proof {
                    assert(user_buf@ =~= seq![c]);
                }
                Ok(1)
            },
            None => Err(-1),
        }
    }

    /// Stdin can be read.
    pub fn readable(&self) -> (r: bool)
        ensures
            r,
    {
        true
    }

    /// Stdin cannot be written.
    pub fn writable(&self) -> (r: bool)
        ensures
            !r,
    {
        false
    }
}

impl Stdout {
    /// The count a console write reports: every byte of the buffer.
    pub fn write(&self, user_buf: &UserBuffer) -> (r: Result<usize, isize>)
        requires
            total_len(user_buf.buffers@) <= usize::MAX,
        ensures
            r == Ok::<usize, isize>(total_len(user_buf.buffers@) as usize),
    {
        Ok(user_buf.len())
    }

    /// Stdout cannot be read.
    pub fn readable(&self) -> (r: bool)
        ensures
            !r,
    {
        false
    }

    /// Stdout can be written.
    pub fn writable(&self) -> (r: bool)
        ensures
            r,
    {
        true
    }
}

/// Identifies an asynchronous pipe read: the reading process and the key
/// it chose.
#[derive(Clone, Copy, Debug, PartialEq, Eq, Structural, PartialOrd, Ord)]
pub struct AsyncKey {
    pub pid: usize,
    pub key: usize,
}

/// The kernel coroutines waiting for a pipe write, each under the key of
/// its asynchronous read.
pub struct ReaderTable {
    map: std::collections::BTreeMap<(usize, usize), usize>,
}

impl View for ReaderTable {
    type V = Map<(usize, usize), usize>;

    closed spec fn view(&self) -> Map<(usize, usize), usize> {
        self.map@
    }
}

impl ReaderTable {
    /// No coroutine waits.
    pub fn new() -> (r: Self)
        ensures
            r@ == Map::<(usize, usize), usize>::empty(),
    {
        ReaderTable { map: std::collections::BTreeMap::new() }
    }

    /// Coroutine `cid` waits for data under `key`, in place of any coroutine
    /// that waited under it before.
    pub fn register_reader(&mut self, key: AsyncKey, cid: usize)
        ensures
            final(self)@ == old(self)@.insert((key.pid, key.key), cid),
    {
        broadcast use vstd::laws_cmp::group_laws_cmp;

        self.map.insert((key.pid, key.key), cid);
    }

    /// After a write under `key`: the coroutine that waited under it, no
    /// longer waiting; `None` when none waited.
    pub fn take_reader(&mut self, key: AsyncKey) -> (r: Option<usize>)
        ensures
            r == (if old(self)@.contains_key((key.pid, key.key)) {
                Some(old(self)@[(key.pid, key.key)])
            } else {
                None
            }),
            final(self)@ == old(self)@.remove((key.pid, key.key)),
    {
        broadcast use vstd::laws_cmp::group_laws_cmp;
        broadcast use vstd::std_specs::btree::group_btree_axioms;

        self.map.remove(&(key.pid, key.key))
    }
}

/// What a write under a key finds after registering a reader under it is
/// that reader, and the key is free again afterwards.
pub proof fn lemma_reader_round_trip(t: Map<(usize, usize), usize>, key: AsyncKey, cid: usize)
    ensures
        t.insert((key.pid, key.key), cid).contains_key((key.pid, key.key)),
        t.insert((key.pid, key.key), cid)[(key.pid, key.key)] == cid,
        !t.insert((key.pid, key.key), cid).remove((key.pid, key.key)).contains_key((key.pid, key.key)),
{
}

} // verus!
