//! The table of listening ports: which slots listen on which port, and
//! which task waits to accept a connection on each.
use vstd::prelude::*;
use crate::fd::{alloc_fd, first_free_from};
use crate::sockets::{
    add_socket, find_socket_from, free_socket_from, lemma_free_socket_from, seq_add, segment_len_spec, SeqNumber, Socket,
    TcpSegment,
};

verus! {

/// A listening port; `schedule` is the key of the task waiting to accept a
/// connection on it.
#[derive(Clone, Copy, PartialEq, Eq, Structural)]
pub struct Port {
    pub port: u16,
    pub receivable: bool,
    pub schedule: Option<usize>,
}

/// A port accepts a connection only while a task waits on it.
pub open spec fn port_wf(p: Port) -> bool {
    p.receivable ==> p.schedule is Some
}

/// A slot is free or holds a well-formed port.
pub open spec fn slot_wf(s: Option<Port>) -> bool {
    s matches Some(p) ==> port_wf(p)
}

/// Index of the first free slot at or after `i`, or the table's length.
pub open spec fn first_free_port(t: Seq<Option<Port>>, i: int) -> int
    decreases t.len() - i,
{
    if i < 0 || i >= t.len() {
        t.len() as int
    } else if t[i] is None {
        i
    } else {
        first_free_port(t, i + 1)
    }
}

/// Slot `s` listens on `port` with a task waiting.
pub open spec fn accepts(s: Option<Port>, port: u16) -> bool {
    s matches Some(p) && p.port == port && p.receivable
}

/// Index of the first slot at or after `i` listening on `port` with a task
/// waiting, or the table's length.
pub open spec fn first_acceptor(t: Seq<Option<Port>>, port: u16, i: int) -> int
    decreases t.len() - i,
{
    if i < 0 || i >= t.len() {
        t.len() as int
    } else if accepts(t[i], port) {
        i
    } else {
        first_acceptor(t, port, i + 1)
    }
}

proof fn lemma_first_free_port(t: Seq<Option<Port>>, i: int)
    requires
        0 <= i <= t.len(),
    ensures
        i <= first_free_port(t, i) <= t.len(),
        forall|k: int| i <= k < first_free_port(t, i) ==> t[k] is Some,
        first_free_port(t, i) < t.len() ==> t[first_free_port(t, i)] is None,
    decreases t.len() - i,
{
    if i < t.len() && t[i] is Some {
        lemma_first_free_port(t, i + 1);
    }
}

proof fn lemma_first_acceptor(t: Seq<Option<Port>>, port: u16, i: int)
    requires
        0 <= i <= t.len(),
    ensures
        i <= first_acceptor(t, port, i) <= t.len(),
        forall|k: int| i <= k < first_acceptor(t, port, i) ==> !accepts(#[trigger] t[k], port),
        first_acceptor(t, port, i) < t.len() ==> accepts(t[first_acceptor(t, port, i)], port),
    decreases t.len() - i,
{
    if i < t.len() && !accepts(t[i], port) {
        lemma_first_acceptor(t, port, i + 1);
    }
}

/// The slot that accepts a connection on `port` is the first slot that
/// listens on that very port with a task waiting; when none does, the
/// search ends at the table's length.
pub proof fn lemma_acceptor_listens_and_waits(t: Seq<Option<Port>>, port: u16)
    ensures
        ({
            let i = first_acceptor(t, port, 0);
            &&& 0 <= i <= t.len()
            &&& i < t.len() ==> (t[i] matches Some(p) && p.port == port && p.receivable)
            &&& forall|k: int|
                0 <= k < i ==> !(#[trigger] t[k] matches Some(p) && p.port == port && p.receivable)
        }),
{
    lemma_first_acceptor(t, port, 0);
}

/// The slot a new listening port takes is the first free slot, or the end
/// of the table when every slot is taken.
pub proof fn lemma_listen_takes_first_free_slot(t: Seq<Option<Port>>)
    ensures
        0 <= first_free_port(t, 0) <= t.len(),
        first_free_port(t, 0) < t.len() ==> t[first_free_port(t, 0)] is None,
        forall|k: int| 0 <= k < first_free_port(t, 0) ==> #[trigger] t[k] is Some,
{
    lemma_first_free_port(t, 0);
}

/// The listening ports, by slot.
pub struct ListenTable {
    table: Vec<Option<Port>>,
}

impl View for ListenTable {
    type V = Seq<Option<Port>>;

    closed spec fn view(&self) -> Seq<Option<Port>> {
        self.table@
    }
}

impl ListenTable {
    /// Every port in the table is well formed.
    pub open spec fn wf(&self) -> bool {
        forall|i: int| 0 <= i < self@.len() ==> slot_wf(#[trigger] self@[i])
    }

    /// An empty table.
    pub fn new() -> (r: Self)
        ensures
            r.wf(),
            r@ == Seq::<Option<Port>>::empty(),
    {
        ListenTable { table: Vec::new() }
    }

    /// Number of slots.
    pub fn len(&self) -> (r: usize)
        ensures
            r == self@.len(),
    {
        self.table.len()
    }
}

/// Starts listening on `port` in the first free slot, or in a new slot at
/// the end, with no task waiting; returns the slot.
#[verifier::loop_isolation(false)]
pub fn listen(listen_table: &mut ListenTable, port: u16) -> (r: Option<usize>)
    requires
        old(listen_table).wf(),
    ensures
        final(listen_table).wf(),
        ({
            let t = old(listen_table)@;
            let i = first_free_port(t, 0);
            let p = Port { port, receivable: false, schedule: None };
            &&& r == Some(i as usize)
            &&& final(listen_table)@ == if i < t.len() {
                t.update(i, Some(p))
            } else {
                t.push(Some(p))
            }
        }),
{
    proof {
        lemma_first_free_port(listen_table@, 0);
    }
    let mut index: usize = 0;
    while index < listen_table.table.len()
        invariant
            index <= listen_table@.len(),
            listen_table@ == old(listen_table)@,
            forall|k: int| 0 <= k < index ==> listen_table@[k] is Some,
        decreases listen_table@.len() - index,
    {
        if listen_table.table[index].is_none() {
            break;
        }
        index = index + 1;
    }
    let listen_port = Port { port, receivable: false, schedule: None };
    if index == listen_table.table.len() {
        listen_table.table.push(Some(listen_port));
        Some(listen_table.table.len() - 1)
    } else {
        listen_table.table.set(index, Some(listen_port));
        Some(index)
    }
}

/// Makes slot `listen_index` accept one connection for task `task`.
pub fn accept(listen_table: &mut ListenTable, listen_index: usize, task: usize)
    requires
        old(listen_table).wf(),
        listen_index < old(listen_table)@.len(),
        old(listen_table)@[listen_index as int] is Some,
    ensures
        final(listen_table).wf(),
        final(listen_table)@ == old(listen_table)@.update(
            listen_index as int,
            Some(
                Port {
                    port: old(listen_table)@[listen_index as int]->Some_0.port,
                    receivable: true,
                    schedule: Some(task),
                },
            ),
        ),
{
    let p = listen_table.table[listen_index].unwrap();
    listen_table.table.set(listen_index, Some(Port { port: p.port, receivable: true, schedule: Some(task) }));
}

/// Whether slot `listen_index` still waits for a connection.
pub fn port_acceptable(listen_table: &ListenTable, listen_index: usize) -> (r: bool)
    requires
        listen_index < listen_table@.len(),
    ensures
        r == (listen_table@[listen_index as int] matches Some(p) && p.receivable),
{
    match listen_table.table[listen_index] {
        Some(p) => p.receivable,
        None => false,
    }
}

/// The first slot listening on `dst_port` with a task waiting, and that
/// task; `None` when no slot is ready to accept.
#[verifier::loop_isolation(false)]
pub fn check_accept(listen_table: &ListenTable, dst_port: u16) -> (r: Option<(usize, usize)>)
    requires
        listen_table.wf(),
    ensures
        ({
            let t = listen_table@;
            let i = first_acceptor(t, dst_port, 0);
            &&& r is None <==> i == t.len()
            &&& r matches Some(x) ==> x.0 == i && Some(x.1) == t[i]->Some_0.schedule
        }),
        r matches Some(x) ==> x.0 < listen_table@.len() && (listen_table@[x.0 as int] matches Some(p)
            && p.port == dst_port && p.receivable && p.schedule == Some(x.1)),
        r is None ==> forall|k: int|
            0 <= k < listen_table@.len() ==> !(#[trigger] listen_table@[k] matches Some(p) && p.port
                == dst_port && p.receivable),
{
    proof {
        lemma_first_acceptor(listen_table@, dst_port, 0);
    }
    let mut i: usize = 0;
    while i < listen_table.table.len()
        invariant
            listen_table.wf(),
            i <= listen_table@.len(),
            forall|k: int| 0 <= k < i ==> !accepts(#[trigger] listen_table@[k], dst_port),
        decreases listen_table@.len() - i,
    {
        match listen_table.table[i] {
            Some(p) => {
                if p.port == dst_port && p.receivable {
                    proof {
                        assert(slot_wf(listen_table@[i as int]));
                    }
                    return Some((i, p.schedule.unwrap()));
                }
            },
            None => {},
        }
        i = i + 1;
    }
    None
}

/// After a connection was accepted on slot `index`: the slot stops
/// accepting, and the waiting task is returned, to be made ready.
pub fn finish_accept(listen_table: &mut ListenTable, index: usize) -> (task: usize)
    requires
        old(listen_table).wf(),
        index < old(listen_table)@.len(),
        old(listen_table)@[index as int] matches Some(p) && p.receivable,
    ensures
        final(listen_table).wf(),
        Some(task) == old(listen_table)@[index as int]->Some_0.schedule,
        final(listen_table)@ == old(listen_table)@.update(
            index as int,
            Some(
                Port {
                    port: old(listen_table)@[index as int]->Some_0.port,
                    receivable: false,
                    schedule: None,
                },
            ),
        ),
{
    let p = listen_table.table[index].unwrap();
    proof {
        assert(slot_wf(listen_table@[index as int]));
    }
    listen_table.table.set(index, Some(Port { port: p.port, receivable: false, schedule: None }));
    p.schedule.unwrap()
}

/// The descriptor that owns a listening slot; closing it frees the slot.
pub struct PortFd(pub usize);

impl PortFd {
    /// The descriptor of slot `port_index`.
    pub fn new(port_index: usize) -> (r: Self)
        ensures
            r.0 == port_index,
    {
        PortFd(port_index)
    }

    /// Frees the slot, as dropping the descriptor does.
    pub fn close(self, listen_table: &mut ListenTable)
        requires
            old(listen_table).wf(),
            self.0 < old(listen_table)@.len(),
        ensures
            final(listen_table).wf(),
            final(listen_table)@ == old(listen_table)@.update(self.0 as int, None),
    {
        listen_table.table.set(self.0, None);
    }

    /// A port descriptor cannot be read.
    pub fn readable(&self) -> (r: bool)
        ensures
            !r,
    {
        false
    }

    /// A port descriptor cannot be written.
    pub fn writable(&self) -> (r: bool)
        ensures
            !r,
    {
        false
    }

    /// Reading a port descriptor reads nothing.
    pub fn read(&self) -> (r: Result<usize, isize>)
        ensures
            r == Ok::<usize, isize>(0),
    {
        Ok(0)
    }

    /// Writing a port descriptor writes nothing.
    pub fn write(&self) -> (r: Result<usize, isize>)
        ensures
            r == Ok::<usize, isize>(0),
    {
        Ok(0)
    }
}


/// The `listen` system call: listens on `port` in a slot of the listening
/// table (see [`listen`]) and opens a descriptor for it in `fd_table`, the
/// lowest free one, holding `wrap` of the slot's [`PortFd`]. Returns the
/// slot, not the descriptor.
pub fn sys_listen<F, W: FnOnce(PortFd) -> F>(
    listen_table: &mut ListenTable,
    fd_table: &mut Vec<Option<F>>,
    port: u16,
    wrap: W,
) -> (r: isize)
    requires
        old(listen_table).wf(),
        forall|p: PortFd| call_requires(wrap, (p,)),
    ensures
        final(listen_table).wf(),
        ({
            let t = old(listen_table)@;
            let i = first_free_port(t, 0);
            let p = Port { port, receivable: false, schedule: None };
            let fd = first_free_from(old(fd_table)@, 0);
            &&& r == i as isize
            &&& final(listen_table)@ == if i < t.len() {
                t.update(i, Some(p))
            } else {
                t.push(Some(p))
            }
            &&& fd <= old(fd_table)@.len()
            &&& final(fd_table)@.len() == if fd < old(fd_table)@.len() {
                old(fd_table)@.len()
            } else {
                old(fd_table)@.len() + 1
            }
            &&& forall|k: int| 0 <= k < old(fd_table)@.len() && k != fd ==> final(fd_table)@[k] == old(fd_table)@[k]
            &&& final(fd_table)@[fd] matches Some(x) && call_ensures(wrap, (PortFd(i as usize),), x)
        }),
{
    let slots = listen_table.table.len();
    proof {
        lemma_first_free_port(listen_table@, 0);
    }
    let port_index = listen(listen_table, port).unwrap();
    assert(port_index as int == first_free_port(old(listen_table)@, 0) && port_index <= slots);
    let fd = alloc_fd(fd_table);
    let entry = wrap(PortFd::new(port_index));
    fd_table.set(fd, Some(entry));
    port_index as isize
}

/// Accepts the connection that the SYN `seg` from `peer_ip` asks for, when
/// a task waits on its port: in the first slot listening on the port with
/// a task waiting, the connection is recorded with sequence number 0 and,
/// as acknowledgement number, the segment's sequence number advanced by
/// its length, and the slot stops accepting. Returns the task to wake and
/// the connection's slot; `None`, with nothing changed, when no task waits
/// on the port or the connection exists already.
pub fn accept_syn(
    listen_table: &mut ListenTable,
    socket_table: &mut Vec<Option<Socket>>,
    peer_ip: u32,
    seg: &TcpSegment,
) -> (r: Option<(usize, usize)>)
    requires
        old(listen_table).wf(),
        segment_len_spec(seg) <= i32::MAX,
    ensures
        final(listen_table).wf(),
        ({
            let lt = old(listen_table)@;
            let st = old(socket_table)@;
            let i = first_acceptor(lt, seg.dst_port, 0);
            let exists = find_socket_from(st, peer_ip, seg.src_port, seg.dst_port, 0) < st.len();
            let k = free_socket_from(st, 0);
            &&& r is None <==> (i == lt.len() || exists)
            &&& r is None ==> final(listen_table)@ == lt && final(socket_table)@ == st
            &&& r matches Some(x) ==> {
                &&& Some(x.0) == lt[i]->Some_0.schedule
                &&& final(listen_table)@ == lt.update(
                    i,
                    Some(Port { port: lt[i]->Some_0.port, receivable: false, schedule: None }),
                )
                &&& x.1 == k
                &&& final(socket_table)@.len() == if k < st.len() {
                    st.len()
                } else {
                    st.len() + 1
                }
                &&& forall|j: int| 0 <= j < st.len() && j != k ==> final(socket_table)@[j] == st[j]
                &&& final(socket_table)@[k] matches Some(s) && s.raddr == peer_ip && s.lport
                    == seg.src_port && s.rport == seg.dst_port && s.seq.0 == 0 && s.ack == Some(
                    SeqNumber(seq_add(seg.seq_number.0, segment_len_spec(seg))),
                ) && s.buffers@.len() == 0 && s.block_task is None && s.block_coroutine@.len()
                    == 0
            }
        }),
{
    let count = socket_table.len();
    proof {
        lemma_first_acceptor(listen_table@, seg.dst_port, 0);
        lemma_free_socket_from(socket_table@, 0);
        assert(free_socket_from(socket_table@, 0) <= count);
    }
    let index = match check_accept(listen_table, seg.dst_port) {
        Some(x) => x.0,
        None => {
            return None;
        },
    };
    let len = seg.segment_len();
    let ack = seg.seq_number.add(len);
    let slot = match add_socket(socket_table, peer_ip, seg.src_port, seg.dst_port, SeqNumber::default(), Some(ack)) {
        Some(k) => k,
        None => {
            return None;
        },
    };
    let task = finish_accept(listen_table, index);
    Some((task, slot))
}

/// Installs `file`, the descriptor of an accepted connection, in the lowest
/// free descriptor of `fd_table` (a slot added at the end when every one is
/// taken); returns that descriptor, the value the accepting task gets back.
pub fn install_connection<F>(fd_table: &mut Vec<Option<F>>, file: F) -> (fd: usize)
    ensures
        fd == first_free_from(old(fd_table)@, 0),
        fd < old(fd_table)@.len() ==> final(fd_table)@ == old(fd_table)@.update(fd as int, Some(file)),
        fd == old(fd_table)@.len() ==> final(fd_table)@ == old(fd_table)@.push(Some(file)),
{
    let fd = alloc_fd(fd_table);
    fd_table.set(fd, Some(file));
    proof {
        if fd == old(fd_table)@.len() {
            assert(fd_table@ =~= old(fd_table)@.push(Some(file)));
        }
    }
    fd
}

} // verus!
