//! The kernel's table of TCP connections: lookup by address and ports,
//! creation in the first free slot, and delivery of received segments.
use vstd::prelude::*;
use std::collections::VecDeque;

verus! {

/// A TCP sequence number; arithmetic on it wraps around.
#[derive(Clone, Copy, PartialEq, Eq, Structural)]
pub struct SeqNumber(pub i32);

/// `a` advanced by `n`, wrapping around.
pub open spec fn seq_add(a: i32, n: int) -> i32 {
    if a + n > i32::MAX {
        (a + n - 0x1_0000_0000) as i32
    } else {
        (a + n) as i32
    }
}

/// Advancing a sequence number by `n` (at most `i32::MAX`) moves it `n`
/// places on in the 32-bit sequence space, wrapping around.
pub proof fn lemma_seq_add_advances(a: i32, n: int)
    requires
        0 <= n <= i32::MAX,
    ensures
        (seq_add(a, n) - a) % 0x1_0000_0000 == n,
{
    if a + n > i32::MAX {
        assert(seq_add(a, n) == a + n - 0x1_0000_0000);
        assert((n - 0x1_0000_0000) % 0x1_0000_0000 == n);
    } else {
        assert(seq_add(a, n) == a + n);
    }
}

impl SeqNumber {
    /// This number advanced by `rhs`, which must fit in an `i32`.
    pub fn add(self, rhs: usize) -> (r: SeqNumber)
        requires
            rhs <= i32::MAX,
        ensures
            r.0 == seq_add(self.0, rhs as int),
    {
        SeqNumber(self.0.wrapping_add(rhs as i32))
    }

    /// Sequence number zero.
    pub fn default() -> (r: SeqNumber)
        ensures
            r.0 == 0,
    {
        SeqNumber(0)
    }
}

/// The header fields and payload of a received TCP segment.
pub struct TcpSegment {
    pub src_port: u16,
    pub dst_port: u16,
    pub seq_number: SeqNumber,
    pub ack_number: SeqNumber,
    pub window_len: u16,
    pub syn: bool,
    pub fin: bool,
    pub psh: bool,
    pub ack: bool,
    pub payload: Vec<u8>,
}

/// Abstract value of a [`TcpSegment`].
pub struct TcpSegmentView {
    pub src_port: u16,
    pub dst_port: u16,
    pub seq_number: SeqNumber,
    pub ack_number: SeqNumber,
    pub window_len: u16,
    pub syn: bool,
    pub fin: bool,
    pub psh: bool,
    pub ack: bool,
    pub payload: Seq<u8>,
}

impl View for TcpSegment {
    type V = TcpSegmentView;

    open spec fn view(&self) -> TcpSegmentView {
        TcpSegmentView {
            src_port: self.src_port,
            dst_port: self.dst_port,
            seq_number: self.seq_number,
            ack_number: self.ack_number,
            window_len: self.window_len,
            syn: self.syn,
            fin: self.fin,
            psh: self.psh,
            ack: self.ack,
            payload: self.payload@,
        }
    }
}

/// Length of a segment in sequence space: its payload, plus one for SYN and
/// one for FIN.
pub open spec fn segment_len_spec(seg: &TcpSegment) -> int {
    seg.payload@.len() + (if seg.syn {
        1int
    } else {
        0int
    }) + (if seg.fin {
        1int
    } else {
        0int
    })
}

impl TcpSegment {
    /// Length of the segment in sequence space.
    pub fn segment_len(&self) -> (r: usize)
        requires
            segment_len_spec(self) <= usize::MAX,
        ensures
            r == segment_len_spec(self),
    {
        let mut length = self.payload.len();
        if self.syn {
            length = length + 1;
        }
        if self.fin {
            length = length + 1;
        }
        length
    }
}

/// A TCP connection: remote address, local and remote port, the data
/// received, the next sequence and acknowledgement numbers, and who waits
/// for data.
pub struct Socket {
    pub raddr: u32,
    pub lport: u16,
    pub rport: u16,
    pub buffers: VecDeque<Vec<u8>>,
    pub seq: SeqNumber,
    pub ack: Option<SeqNumber>,
    pub block_task: Option<usize>,
    pub block_coroutine: VecDeque<usize>,
}

/// Slot `s` holds the connection with these address and ports.
pub open spec fn socket_matches(s: Option<Socket>, raddr: u32, lport: u16, rport: u16) -> bool {
    s matches Some(x) && x.raddr == raddr && x.lport == lport && x.rport == rport
}

/// Index of the first slot at or after `i` holding the connection with
/// these address and ports, or the table's length.
pub open spec fn find_socket_from(
    t: Seq<Option<Socket>>,
    raddr: u32,
    lport: u16,
    rport: u16,
    i: int,
) -> int
    decreases t.len() - i,
{
    if i < 0 || i >= t.len() {
        t.len() as int
    } else if socket_matches(t[i], raddr, lport, rport) {
        i
    } else {
        find_socket_from(t, raddr, lport, rport, i + 1)
    }
}

/// Index of the first free slot at or after `i`, or the table's length.
pub open spec fn free_socket_from(t: Seq<Option<Socket>>, i: int) -> int
    decreases t.len() - i,
{
    if i < 0 || i >= t.len() {
        t.len() as int
    } else if t[i] is None {
        i
    } else {
        free_socket_from(t, i + 1)
    }
}

proof fn lemma_find_socket_from(t: Seq<Option<Socket>>, raddr: u32, lport: u16, rport: u16, i: int)
    requires
        0 <= i <= t.len(),
    ensures
        i <= find_socket_from(t, raddr, lport, rport, i) <= t.len(),
        forall|k: int|
            i <= k < find_socket_from(t, raddr, lport, rport, i) ==> !socket_matches(
                #[trigger] t[k],
                raddr,
                lport,
                rport,
            ),
        find_socket_from(t, raddr, lport, rport, i) < t.len() ==> socket_matches(
            t[find_socket_from(t, raddr, lport, rport, i)],
            raddr,
            lport,
            rport,
        ),
    decreases t.len() - i,
{
    if i < t.len() && !socket_matches(t[i], raddr, lport, rport) {
        lemma_find_socket_from(t, raddr, lport, rport, i + 1);
    }
}

/// A connection is found under a key exactly when a slot holds a
/// connection whose remote address, local port and remote port all equal
/// the key's; the slot found is the first such one.
pub proof fn lemma_socket_lookup_matches_all_fields(
    t: Seq<Option<Socket>>,
    raddr: u32,
    lport: u16,
    rport: u16,
)
    ensures
        ({
            let i = find_socket_from(t, raddr, lport, rport, 0);
            &&& 0 <= i <= t.len()
            &&& i < t.len() ==> (t[i] matches Some(x) && x.raddr == raddr && x.lport == lport
                && x.rport == rport)
            &&& forall|k: int|
                0 <= k < i ==> !(#[trigger] t[k] matches Some(x) && x.raddr == raddr && x.lport
                    == lport && x.rport == rport)
            &&& i == t.len() <==> forall|k: int|
                0 <= k < t.len() ==> !(#[trigger] t[k] matches Some(x) && x.raddr == raddr
                    && x.lport == lport && x.rport == rport)
        }),
{
    lemma_find_socket_from(t, raddr, lport, rport, 0);
    let i = find_socket_from(t, raddr, lport, rport, 0);
    if i < t.len() {
        assert(t[i] matches Some(x) && x.raddr == raddr && x.lport == lport && x.rport == rport);
    }
}

/// The first free slot at or after `i` lies in the table or just past it,
/// every slot before it from `i` is taken, and it is free when it lies in
/// the table.
pub proof fn lemma_free_socket_from(t: Seq<Option<Socket>>, i: int)
    requires
        0 <= i <= t.len(),
    ensures
        i <= free_socket_from(t, i) <= t.len(),
        forall|k: int| i <= k < free_socket_from(t, i) ==> t[k] is Some,
        free_socket_from(t, i) < t.len() ==> t[free_socket_from(t, i)] is None,
    decreases t.len() - i,
{
    if i < t.len() && t[i] is Some {
        lemma_free_socket_from(t, i + 1);
    }
}

/// The slot of the connection with these address and ports, if any.
#[verifier::loop_isolation(false)]
pub fn get_socket(socket_table: &Vec<Option<Socket>>, raddr: u32, lport: u16, rport: u16) -> (r:
    Option<usize>)
    ensures
        ({
            let i = find_socket_from(socket_table@, raddr, lport, rport, 0);
            r == if i < socket_table@.len() {
                Some(i as usize)
            } else {
                None::<usize>
            }
        }),
        0 <= find_socket_from(socket_table@, raddr, lport, rport, 0) <= socket_table@.len(),
        r matches Some(k) ==> k == find_socket_from(socket_table@, raddr, lport, rport, 0)
            && socket_matches(socket_table@[k as int], raddr, lport, rport),
        r matches Some(k) ==> k < socket_table@.len() && (socket_table@[k as int] matches Some(x)
            && x.raddr == raddr && x.lport == lport && x.rport == rport),
        r is None ==> forall|k: int|
            0 <= k < socket_table@.len() ==> !(#[trigger] socket_table@[k] matches Some(x)
                && x.raddr == raddr && x.lport == lport && x.rport == rport),
        r matches Some(k) ==> forall|j: int|
            0 <= j < k ==> !(#[trigger] socket_table@[j] matches Some(x) && x.raddr == raddr
                && x.lport == lport && x.rport == rport),
{
    proof {
        lemma_find_socket_from(socket_table@, raddr, lport, rport, 0);
    }
    let mut i: usize = 0;
    while i < socket_table.len()
        invariant
            i <= socket_table@.len(),
            forall|k: int|
                0 <= k < i ==> !socket_matches(#[trigger] socket_table@[k], raddr, lport, rport),
        decreases socket_table@.len() - i,
    {
        match &socket_table[i] {
            Some(sock) => {
                if sock.raddr == raddr && sock.lport == lport && sock.rport == rport {
                    return Some(i);
                }
            },
            None => {},
        }
        i = i + 1;
    }
    None
}

/// Registers a new connection with no data and nobody waiting, in the first
/// free slot or a new slot at the end; `None` when the connection exists.
#[verifier::loop_isolation(false)]
pub fn add_socket(
    socket_table: &mut Vec<Option<Socket>>,
    raddr: u32,
    lport: u16,
    rport: u16,
    seq: SeqNumber,
    ack: Option<SeqNumber>,
) -> (r: Option<usize>)
    ensures
        ({
            let t = old(socket_table)@;
            let exists = find_socket_from(t, raddr, lport, rport, 0) < t.len();
            let i = free_socket_from(t, 0);
            &&& exists ==> r is None && final(socket_table)@ == t
            &&& !exists ==> {
                &&& r == Some(i as usize)
                &&& final(socket_table)@.len() == if i < t.len() {
                    t.len()
                } else {
                    t.len() + 1
                }
                &&& forall|k: int| 0 <= k < t.len() && k != i ==> final(socket_table)@[k] == t[k]
                &&& final(socket_table)@[i] matches Some(s) && s.raddr == raddr && s.lport == lport
                    && s.rport == rport && s.seq == seq && s.ack == ack && s.buffers@.len() == 0
                    && s.block_task is None && s.block_coroutine@.len() == 0
            }
        }),
        r is None <==> exists|k: int|
            0 <= k < old(socket_table)@.len() && (#[trigger] old(socket_table)@[k] matches Some(x)
                && x.raddr == raddr && x.lport == lport && x.rport == rport),
{
    if get_socket(socket_table, raddr, lport, rport).is_some() {
        return None;
    }
    proof {
        lemma_free_socket_from(socket_table@, 0);
    }
    let mut index: usize = 0;
    while index < socket_table.len()
        invariant
            index <= socket_table@.len(),
            socket_table@ == old(socket_table)@,
            forall|k: int| 0 <= k < index ==> socket_table@[k] is Some,
        decreases socket_table@.len() - index,
    {
        if socket_table[index].is_none() {
            break;
        }
        index = index + 1;
    }
    let socket = Socket {
        raddr,
        lport,
        rport,
        buffers: VecDeque::new(),
        seq,
        ack,
        block_task: None,
        block_coroutine: VecDeque::new(),
    };
    if index == socket_table.len() {
        socket_table.push(Some(socket));
        Some(socket_table.len() - 1)
    } else {
        socket_table.set(index, Some(socket));
        Some(index)
    }
}

/// Frees slot `index`.
pub fn remove_socket(socket_table: &mut Vec<Option<Socket>>, index: usize)
    requires
        index < old(socket_table)@.len(),
    ensures
        final(socket_table)@ == old(socket_table)@.update(index as int, None),
{
    socket_table.set(index, None);
}

/// Sequence and acknowledgement numbers of the connection in slot `index`;
/// `None` when the slot is free.
pub fn get_s_a_by_index(socket_table: &Vec<Option<Socket>>, index: usize) -> (r: Option<
    (SeqNumber, Option<SeqNumber>),
>)
    requires
        index < socket_table@.len(),
    ensures
        r == match socket_table@[index as int] {
            Some(s) => Some((s.seq, s.ack)),
            None => None,
        },
{
    match &socket_table[index] {
        Some(s) => Some((s.seq, s.ack)),
        None => None,
    }
}

/// Delivers `seg` to the connection in slot `index`: acknowledges it, takes
/// its acknowledgement number as the next sequence number, queues its
/// payload, and returns the task that waited for data, which is no longer
/// waiting. Nothing happens when the slot is out of the table or free.
pub fn push_data(socket_table: &mut Vec<Option<Socket>>, index: usize, seg: &TcpSegment) -> (r:
    Option<usize>)
    requires
        segment_len_spec(seg) <= i32::MAX,
    ensures
        (index >= old(socket_table)@.len() || old(socket_table)@[index as int] is None) ==> r is None
            && final(socket_table)@ == old(socket_table)@,
        (index < old(socket_table)@.len() && old(socket_table)@[index as int] is Some) ==> {
            let s = old(socket_table)@[index as int]->Some_0;
            &&& final(socket_table)@.len() == old(socket_table)@.len()
            &&& forall|k: int|
                0 <= k < old(socket_table)@.len() && k != index ==> final(socket_table)@[k]
                    == old(socket_table)@[k]
            &&& final(socket_table)@[index as int] matches Some(t) && t.raddr == s.raddr && t.lport
                == s.lport && t.rport == s.rport && t.ack == Some(
                SeqNumber(seq_add(seg.seq_number.0, segment_len_spec(seg))),
            ) && t.seq == seg.ack_number && t.buffers@.len() == s.buffers@.len() + 1
                && t.buffers@.drop_last() == s.buffers@ && t.buffers@.last()@ == seg.payload@
                && t.block_task is None && t.block_coroutine@ == s.block_coroutine@
            &&& r == s.block_task
        },
{
    if index >= socket_table.len() || socket_table[index].is_none() {
        return None;
    }
    let ghost old_table = socket_table@;
    let mut socket = socket_table.remove(index).unwrap();
    let len = seg.segment_len();
    socket.ack = Some(seg.seq_number.add(len));
    socket.seq = seg.ack_number;
    let data = seg.payload.clone();
    assert(data@ =~= seg.payload@);
    socket.buffers.push_back(data);
    let woken = socket.block_task.take();
    socket_table.insert(index, Some(socket));
    proof {
        assert forall|k: int|
            0 <= k < old_table.len() && k != index implies socket_table@[k] == old_table[k] by {
            if k < index {
            } else {
            }
        }
    }
    woken
}


/// A connection that [`add_socket`] added is what [`get_socket`] finds for
/// its address and ports: the table `after` keeps every other slot of
/// `before`, which had no such connection, and holds it in slot `i`.
pub proof fn lemma_added_socket_is_found(
    before: Seq<Option<Socket>>,
    after: Seq<Option<Socket>>,
    i: int,
    raddr: u32,
    lport: u16,
    rport: u16,
)
    requires
        find_socket_from(before, raddr, lport, rport, 0) == before.len(),
        0 <= i < after.len(),
        after.len() <= before.len() + 1,
        forall|k: int| 0 <= k < before.len() && k != i ==> after[k] == before[k],
        socket_matches(after[i], raddr, lport, rport),
    ensures
        find_socket_from(after, raddr, lport, rport, 0) == i,
{
    lemma_find_socket_from(before, raddr, lport, rport, 0);
    lemma_find_socket_from(after, raddr, lport, rport, 0);
    let j = find_socket_from(after, raddr, lport, rport, 0);
    if j < i {
        assert(after[j] == before[j]);
        assert(!socket_matches(before[j], raddr, lport, rport));
    }
}

} // verus!
