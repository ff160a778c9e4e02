use rcore_n::fd::{alloc_fd, io_status, sys_close, sys_read, sys_write, AsyncKey, FdCall, ReaderTable, Stdin, Stdout, UserBuffer};
use rcore_n::ports::{
    accept, check_accept, finish_accept, listen, port_acceptable, sys_listen, ListenTable, PortFd,
};
use rcore_n::sockets::{add_socket, get_s_a_by_index, get_socket, push_data, remove_socket, SeqNumber, Socket, TcpSegment};

#[test]
fn alloc_fd_takes_lowest_free_slot() {
    let mut t: Vec<Option<u32>> = vec![Some(1), None, Some(3)];
    assert_eq!(alloc_fd(&mut t), 1);
    assert_eq!(t.len(), 3);
    t[1] = Some(2);
    assert_eq!(alloc_fd(&mut t), 3);
    assert_eq!(t, vec![Some(1), Some(2), Some(3), None]);
}

#[test]
fn close_descriptor() {
    let mut t: Vec<Option<u32>> = vec![Some(1), None];
    assert_eq!(sys_close(&mut t, 0), 0);
    assert_eq!(t, vec![None, None]);
    assert_eq!(sys_close(&mut t, 0), -1);
    assert_eq!(sys_close(&mut t, 5), -1);
}

#[test]
fn read_and_write_decisions() {
    let t: Vec<Option<u32>> = vec![Some(1), None];
    assert!(sys_write(&t, 7, usize::MAX, true) == FdCall::Fail(-1));
    assert!(sys_write(&t, 1, usize::MAX, true) == FdCall::Fail(-4));
    assert!(sys_write(&t, 0, usize::MAX, false) == FdCall::Fail(-3));
    assert!(sys_write(&t, 0, usize::MAX, true) == FdCall::Blocking(0));
    assert!(sys_write(&t, 0, 5, true) == FdCall::Async(0));
    assert!(sys_read(&t, 0, usize::MAX, usize::MAX, true) == FdCall::Blocking(0));
    assert!(sys_read(&t, 0, usize::MAX, 3, true) == FdCall::Async(0));
    assert!(sys_read(&t, 0, 4, usize::MAX, true) == FdCall::Async(0));
    assert!(sys_read(&t, 0, usize::MAX, usize::MAX, false) == FdCall::Fail(-3));
    assert!(sys_read(&t, 2, 1, 1, true) == FdCall::Fail(-1));
    assert_eq!(io_status(Ok(12)), 12);
    assert_eq!(io_status(Err(-9)), -2);
}

#[test]
fn standard_streams() {
    let mut buf = vec![0u8];
    assert_eq!(Stdin.read(&mut buf, Some(b'q')), Ok(1));
    assert_eq!(buf, vec![b'q']);
    assert_eq!(Stdin.read(&mut buf, None), Err(-1));
    assert_eq!(buf, vec![b'q']);
    assert!(Stdin.readable() && !Stdin.writable());
    let ub = UserBuffer::new(vec![vec![1, 2, 3], vec![], vec![4, 5]]);
    assert_eq!(ub.len(), 5);
    assert_eq!(Stdout.write(&ub), Ok(5));
    assert!(Stdout.writable() && !Stdout.readable());
}

#[test]
fn reader_table_round_trip() {
    let mut t = ReaderTable::new();
    let k = AsyncKey { pid: 3, key: 7 };
    assert_eq!(t.take_reader(k), None);
    t.register_reader(k, 42);
    t.register_reader(AsyncKey { pid: 3, key: 8 }, 43);
    assert_eq!(t.take_reader(k), Some(42));
    assert_eq!(t.take_reader(k), None);
    t.register_reader(k, 1);
    t.register_reader(k, 2);
    assert_eq!(t.take_reader(k), Some(2));
    assert_eq!(t.take_reader(AsyncKey { pid: 3, key: 8 }), Some(43));
}

#[test]
fn listen_reuses_free_slots() {
    let mut t = ListenTable::new();
    assert_eq!(listen(&mut t, 80), Some(0));
    assert_eq!(listen(&mut t, 81), Some(1));
    assert_eq!(t.len(), 2);
    PortFd::new(0).close(&mut t);
    assert_eq!(listen(&mut t, 82), Some(0));
    assert_eq!(t.len(), 2);
}

#[test]
fn accept_handshake() {
    let mut t = ListenTable::new();
    let i = listen(&mut t, 80).unwrap();
    // nobody waits yet
    assert_eq!(check_accept(&t, 80), None);
    assert!(!port_acceptable(&t, i));
    accept(&mut t, i, 7);
    assert!(port_acceptable(&t, i));
    assert_eq!(check_accept(&t, 81), None);
    assert_eq!(check_accept(&t, 80), Some((i, 7)));
    assert_eq!(finish_accept(&mut t, i), 7);
    assert!(!port_acceptable(&t, i));
    assert_eq!(check_accept(&t, 80), None);
}

#[test]
fn listen_system_call() {
    let mut t = ListenTable::new();
    let mut fds: Vec<Option<PortFd>> = vec![Some(PortFd::new(99)), None];
    assert_eq!(sys_listen(&mut t, &mut fds, 80, |p| p), 0);
    assert_eq!(fds.len(), 2);
    assert_eq!(fds[1].as_ref().map(|p| p.0), Some(0));
    assert_eq!(sys_listen(&mut t, &mut fds, 90, |p| p), 1);
    assert_eq!(fds.len(), 3);
    assert_eq!(fds[2].as_ref().map(|p| p.0), Some(1));
}

#[test]
fn port_descriptor_is_inert() {
    let p = PortFd::new(2);
    assert!(!p.readable() && !p.writable());
    assert_eq!(p.read(), Ok(0));
    assert_eq!(p.write(), Ok(0));
}

fn segment(seq: i32, ack: i32, payload: &[u8]) -> TcpSegment {
    TcpSegment {
        src_port: 5000,
        dst_port: 80,
        seq_number: SeqNumber(seq),
        ack_number: SeqNumber(ack),
        window_len: 1024,
        syn: false,
        fin: false,
        psh: true,
        ack: true,
        payload: payload.to_vec(),
    }
}

#[test]
fn sequence_numbers_wrap() {
    assert!(SeqNumber(5).add(10) == SeqNumber(15));
    assert!(SeqNumber(i32::MAX).add(1) == SeqNumber(i32::MIN));
    assert!(SeqNumber::default() == SeqNumber(0));
    let mut s = segment(0, 0, b"abc");
    assert_eq!(s.segment_len(), 3);
    s.syn = true;
    s.fin = true;
    assert_eq!(s.segment_len(), 5);
}

#[test]
fn socket_table_lookup_and_creation() {
    let mut t: Vec<Option<Socket>> = Vec::new();
    assert_eq!(add_socket(&mut t, 0x0a00_0001, 80, 5000, SeqNumber(0), Some(SeqNumber(1))), Some(0));
    assert_eq!(add_socket(&mut t, 0x0a00_0002, 80, 5000, SeqNumber(0), None), Some(1));
    // the same connection twice is refused
    assert_eq!(add_socket(&mut t, 0x0a00_0001, 80, 5000, SeqNumber(9), None), None);
    assert_eq!(get_socket(&t, 0x0a00_0002, 80, 5000), Some(1));
    assert_eq!(get_socket(&t, 0x0a00_0002, 81, 5000), None);
    assert!(get_s_a_by_index(&t, 0) == Some((SeqNumber(0), Some(SeqNumber(1)))));
    remove_socket(&mut t, 0);
    assert!(get_s_a_by_index(&t, 0).is_none());
    assert_eq!(get_socket(&t, 0x0a00_0001, 80, 5000), None);
    assert_eq!(add_socket(&mut t, 0x0a00_0003, 80, 5000, SeqNumber(0), None), Some(0));
}

#[test]
fn push_data_queues_payload_and_wakes_reader() {
    let mut t: Vec<Option<Socket>> = Vec::new();
    add_socket(&mut t, 0x0a00_0001, 5000, 80, SeqNumber(0), Some(SeqNumber(100)));
    t[0].as_mut().unwrap().block_task = Some(4);
    let seg = segment(100, 7, b"data");
    assert_eq!(push_data(&mut t, 0, &seg), Some(4));
    let s = t[0].as_ref().unwrap();
    assert!(s.ack == Some(SeqNumber(104)));
    assert!(s.seq == SeqNumber(7));
    assert_eq!(s.buffers.len(), 1);
    assert_eq!(s.buffers[0], b"data".to_vec());
    assert!(s.block_task.is_none());
    // a free or missing slot is left alone
    assert_eq!(push_data(&mut t, 5, &seg), None);
}
