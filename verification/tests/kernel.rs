use rcore_n::config::{axi_net_config, KERNEL_STACK_SIZE, PAGE_SIZE, TRAMPOLINE, TRAP_CONTEXT, USER_STACK_SIZE};
use rcore_n::context::{TaskContext, TimeVal};
use rcore_n::coroutine::{check_yield, AwaitHelper, ReadHelper, TimerHelper};
use rcore_n::layout::{
    kernel_stack_position, kstack_alloc, pid_alloc, trap_cx_bottom_from_tid, ustack_bottom_from_tid,
    TaskUserRes,
};
use rcore_n::recycle::RecycleAllocator;
use rcore_n::ring::{pipe_awrite_step, pipe_read_step, pipe_write_step, PipeIo, PipeRingBuffer, RING_BUFFER_SIZE};
use rcore_n::scheduler::{QueuedTask, TaskManager};
use rcore_n::transfer::{finish_polled_read, SocketTransfer, TransferStep, UserTrapRecord};

#[test]
fn board_configuration() {
    let c = axi_net_config();
    assert_eq!(c.tx_bd_cnt, 1024);
    assert_eq!(c.rx_bd_cnt, 1024);
    assert_eq!(c.eth_baseaddr, 0x6014_0000);
    assert_eq!(c.dma_baseaddr, 0x6010_0000);
    assert_eq!(c.mac_addr, [0x00, 0x0A, 0x35, 0x01, 0x02, 0x03]);
    assert_eq!(c.mtu, 9000);
    assert_eq!(TRAMPOLINE, usize::MAX - 0xfff);
    assert_eq!(TRAP_CONTEXT, TRAMPOLINE - 3 * PAGE_SIZE);
}

#[test]
fn recycle_hands_out_fresh_then_last_released() {
    let mut a = RecycleAllocator::new();
    assert_eq!(a.alloc_id(), 0);
    assert_eq!(a.alloc_id(), 1);
    assert_eq!(a.alloc_id(), 2);
    a.dealloc(0);
    a.dealloc(2);
    assert_eq!(a.alloc_id(), 2);
    assert_eq!(a.alloc_id(), 0);
    assert_eq!(a.alloc_id(), 3);
}

#[test]
fn dealloc_then_alloc_gives_back_the_same_id() {
    let mut a = RecycleAllocator::new();
    let x = a.alloc_id();
    let _y = a.alloc_id();
    a.dealloc(x);
    assert_eq!(a.alloc_id(), x);
}

#[test]
fn kernel_stack_positions() {
    let (b0, t0) = kernel_stack_position(0);
    assert_eq!(t0, TRAP_CONTEXT);
    assert_eq!(b0, TRAP_CONTEXT - KERNEL_STACK_SIZE);
    let (b1, t1) = kernel_stack_position(1);
    assert_eq!(t1, TRAP_CONTEXT - (KERNEL_STACK_SIZE + PAGE_SIZE));
    assert_eq!(b1, t1 - KERNEL_STACK_SIZE);
    // a guard page separates neighbouring stacks
    assert_eq!(b0 - t1, PAGE_SIZE);
}

#[test]
fn kernel_stacks_never_overlap() {
    let mut prev_bottom = usize::MAX;
    for id in 0..64usize {
        let (bottom, top) = kernel_stack_position(id);
        assert!(top + PAGE_SIZE <= prev_bottom || id == 0);
        assert_eq!(top - bottom, KERNEL_STACK_SIZE);
        prev_bottom = bottom;
    }
}

#[test]
fn pid_and_kernel_stack_allocation() {
    let mut pids = RecycleAllocator::new();
    let p0 = pid_alloc(&mut pids);
    let p1 = pid_alloc(&mut pids);
    assert_eq!(p0.0, 0);
    assert_eq!(p1.0, 1);
    p0.release(&mut pids);
    assert_eq!(pid_alloc(&mut pids).0, 0);

    let mut kstacks = RecycleAllocator::new();
    let k = kstack_alloc(&mut kstacks);
    assert_eq!(k.0, 0);
    assert_eq!(k.get_top(), TRAP_CONTEXT);
    let k1 = kstack_alloc(&mut kstacks);
    assert_eq!(k1.get_top(), TRAP_CONTEXT - KERNEL_STACK_SIZE - PAGE_SIZE);
}

#[test]
fn user_resources_layout() {
    assert_eq!(trap_cx_bottom_from_tid(0), TRAP_CONTEXT);
    assert_eq!(trap_cx_bottom_from_tid(3), TRAP_CONTEXT - 3 * PAGE_SIZE);
    assert_eq!(ustack_bottom_from_tid(0x1_0000, 0), 0x1_0000);
    assert_eq!(ustack_bottom_from_tid(0x1_0000, 2), 0x1_0000 + 2 * (PAGE_SIZE + USER_STACK_SIZE));

    let mut tids = RecycleAllocator::new();
    let main = TaskUserRes::new(&mut tids, 0x1_0000);
    let second = TaskUserRes::new(&mut tids, 0x1_0000);
    assert_eq!(main.tid, 0);
    assert_eq!(second.tid, 1);
    assert_eq!(second.ustack_base(), 0x1_0000);
    assert_eq!(main.trap_cx_user_va(), TRAP_CONTEXT);
    assert_eq!(second.trap_cx_user_va(), TRAP_CONTEXT - PAGE_SIZE);
    assert_eq!(main.ustack_top(), 0x1_0000 + USER_STACK_SIZE);
    assert_eq!(second.ustack_top(), 0x1_0000 + PAGE_SIZE + 2 * USER_STACK_SIZE);
    // user stacks of two threads are separated by a guard page
    assert!(main.ustack_top() + PAGE_SIZE <= ustack_bottom_from_tid(0x1_0000, 1));
    main.dealloc_tid(&mut tids);
    assert_eq!(TaskUserRes::new(&mut tids, 0x1_0000).tid, 0);
}

#[test]
fn ring_is_first_in_first_out() {
    let mut r = PipeRingBuffer::<u8>::new();
    assert_eq!(r.available_read(), 0);
    assert_eq!(r.available_write(), RING_BUFFER_SIZE);
    for b in [1u8, 2, 3] {
        r.write_byte(b);
    }
    assert_eq!(r.available_read(), 3);
    assert_eq!(r.read_byte(), 1);
    assert_eq!(r.read_byte(), 2);
    r.write_byte(4);
    assert_eq!(r.read_byte(), 3);
    assert_eq!(r.read_byte(), 4);
    assert_eq!(r.available_read(), 0);
}

#[test]
fn ring_ends_are_set_and_asked() {
    let mut r: PipeRingBuffer<(u32, bool)> = PipeRingBuffer::new();
    assert_eq!(r.ends_set(), (false, false));
    assert_eq!(r.available_write(), RING_BUFFER_SIZE);
    r.set_write_end((1, true));
    assert_eq!(r.ends_set(), (true, false));
    r.set_read_end((2, false));
    assert_eq!(r.ends_set(), (true, true));
    // the write end is alive, the read end is not
    assert!(!r.all_write_ends_closed(|e| e.1));
    assert!(r.all_read_ends_closed(|e| e.1));
    r.write_byte(9);
    assert_eq!(r.read_byte(), 9);
    assert_eq!(r.ends_set(), (true, true));
}

#[test]
fn ring_wraps_and_fills() {
    let mut r = PipeRingBuffer::<u8>::new();
    for i in 0..RING_BUFFER_SIZE {
        r.write_byte((i % 251) as u8);
    }
    assert_eq!(r.available_write(), 0);
    assert_eq!(r.available_read(), RING_BUFFER_SIZE);
    for i in 0..10 {
        assert_eq!(r.read_byte(), (i % 251) as u8);
    }
    for i in 0..10u8 {
        r.write_byte(200 + i);
    }
    assert_eq!(r.available_write(), 0);
    for i in 10..RING_BUFFER_SIZE {
        assert_eq!(r.read_byte(), (i % 251) as u8);
    }
    for i in 0..10u8 {
        assert_eq!(r.read_byte(), 200 + i);
    }
    assert_eq!(r.available_read(), 0);
}

#[test]
fn pipe_read_after_write_round_trip() {
    let mut r = PipeRingBuffer::<u8>::new();
    let (n, io) = pipe_write_step(&mut r, b"hello", false);
    assert_eq!(n, 5);
    assert!(io == PipeIo::Finished);
    let (out, io) = pipe_read_step(&mut r, 5, false);
    assert_eq!(out, b"hello".to_vec());
    assert!(io == PipeIo::Finished);
}

#[test]
fn pipe_read_steps() {
    let mut r = PipeRingBuffer::<u8>::new();
    // empty ring: wait for writers, or finish when they are gone
    let (out, io) = pipe_read_step(&mut r, 4, false);
    assert!(out.is_empty() && io == PipeIo::Suspend);
    let (out, io) = pipe_read_step(&mut r, 4, true);
    assert!(out.is_empty() && io == PipeIo::Finished);
    // fewer bytes than asked: take them and go on
    pipe_write_step(&mut r, b"ab", false);
    let (out, io) = pipe_read_step(&mut r, 4, false);
    assert_eq!(out, b"ab".to_vec());
    assert!(io == PipeIo::Again);
    // more bytes than asked: take what fits, the rest stays
    pipe_write_step(&mut r, b"xyz", false);
    let (out, io) = pipe_read_step(&mut r, 2, false);
    assert_eq!(out, b"xy".to_vec());
    assert!(io == PipeIo::Finished);
    assert_eq!(r.available_read(), 1);
    assert_eq!(r.read_byte(), b'z');
}

#[test]
fn pipe_write_steps() {
    let mut r = PipeRingBuffer::<u8>::new();
    let big = vec![7u8; RING_BUFFER_SIZE + 10];
    let (n, io) = pipe_write_step(&mut r, &big, false);
    assert_eq!(n, RING_BUFFER_SIZE);
    assert!(io == PipeIo::Again);
    // full ring: wait for readers, or finish when they are gone
    let (n, io) = pipe_write_step(&mut r, &big[n..], false);
    assert!(n == 0 && io == PipeIo::Suspend);
    let (n, io) = pipe_write_step(&mut r, &big[RING_BUFFER_SIZE..], true);
    assert!(n == 0 && io == PipeIo::Finished);

    // exactly the free space: the blocking write goes round once more,
    // the asynchronous one is done
    let mut r = PipeRingBuffer::<u8>::new();
    let exact = vec![1u8; RING_BUFFER_SIZE];
    let (n, io) = pipe_write_step(&mut r, &exact, false);
    assert!(n == RING_BUFFER_SIZE && io == PipeIo::Again);
    let mut r = PipeRingBuffer::<u8>::new();
    let (n, io) = pipe_awrite_step(&mut r, &exact, false);
    assert!(n == RING_BUFFER_SIZE && io == PipeIo::Finished);
    let (n, io) = pipe_awrite_step(&mut r, b"x", true);
    assert!(n == 0 && io == PipeIo::Finished);
}

#[test]
fn task_context_and_time() {
    let c = TaskContext::goto_target(0x8020_0000, 0x9000, 3);
    assert_eq!(c.ra, 0x8020_0000);
    assert_eq!(c.sp, 0x9000);
    assert_eq!(c.tid, 3);
    assert_eq!(c.s, [0usize; 12]);
    let d = TaskContext::default();
    assert_eq!(d.ra, 0xDEDEDEDE);
    assert_eq!(d.s, [0x23232323usize; 12]);
    assert_eq!(d.tid, 0xDADADADA);
    assert_eq!(d.sp, 0xABABABAB);
    let t = TimeVal::new();
    assert_eq!((t.sec, t.usec), (0, 0));
}

#[test]
fn coroutine_helpers() {
    let mut r = ReadHelper::new();
    assert!(!r.poll());
    assert!(r.poll());
    assert!(!r.poll());
    assert!(r.poll());
    let mut a = AwaitHelper::new();
    assert!(!a.poll());
    assert!(a.poll());
    assert!(a.poll());
    let t = TimerHelper::new(100, 1000);
    assert_eq!(t.deadline(), 1100);
    assert!(!t.poll(1099));
    assert!(t.poll(1100));
    assert!(t.poll(5000));
}

#[test]
fn yield_to_more_urgent_priorities() {
    // bit 2 set: priorities 3 and above must yield, 0 to 2 need not
    assert!(!check_yield(0b100, 0));
    assert!(!check_yield(0b100, 2));
    assert!(check_yield(0b100, 3));
    assert!(check_yield(0b100, 7));
    assert!(!check_yield(0, 7));
    // bits of the eighth priority and beyond do not count
    assert!(!check_yield(1 << 8, 20));
    assert!(check_yield(1 << 7, 20));
}

fn task(id: usize, pid: usize) -> QueuedTask {
    QueuedTask { id, pid }
}

#[test]
fn fetch_is_first_in_first_out_without_priorities() {
    let mut m = TaskManager::new();
    m.add(task(10, 1));
    m.add(task(20, 2));
    let prios: Vec<Option<usize>> = vec![];
    assert!(m.fetch(None, &prios) == Some(task(10, 1)));
    assert!(m.fetch(None, &prios) == Some(task(20, 2)));
    assert!(m.fetch(None, &prios).is_none());
}

#[test]
fn fetch_waits_for_kernel_coroutines() {
    let mut m = TaskManager::new();
    m.add(task(10, 1));
    let prios: Vec<Option<usize>> = vec![];
    assert!(m.fetch(Some(0), &prios).is_none());
    assert!(m.fetch(None, &prios) == Some(task(10, 1)));
}

#[test]
fn fetch_picks_most_urgent_process() {
    let mut m = TaskManager::new();
    m.add(task(10, 1));
    m.add(task(20, 2));
    m.add(task(30, 3));
    // priorities by pid: pid 1 -> 5, pid 2 -> 1, pid 3 -> 3
    let prios = vec![None, Some(5), Some(1), Some(3)];
    assert!(m.fetch(None, &prios) == Some(task(20, 2)));
    // the other tasks stay queued
    let mut rest = vec![];
    let none: Vec<Option<usize>> = vec![];
    while let Some(t) = m.fetch(None, &none) {
        rest.push(t.id);
    }
    // in the order they were queued
    assert_eq!(rest, vec![10, 30]);
}

#[test]
fn fetch_is_fifo_among_equal_priorities() {
    let mut m = TaskManager::new();
    for (id, pid) in [(1, 1), (2, 2), (3, 3), (4, 4)] {
        m.add(task(id, pid));
    }
    let prios = vec![None, Some(2), Some(2), Some(2), Some(2)];
    let mut order = vec![];
    while let Some(t) = m.fetch(None, &prios) {
        order.push(t.id);
    }
    assert_eq!(order, vec![1, 2, 3, 4]);
}

#[test]
fn fetch_prefers_a_process_that_has_not_run() {
    let mut m = TaskManager::new();
    m.add(task(1, 1));
    m.add(task(2, 2));
    m.add(task(3, 3));
    // pid 2 has no priority yet; pid 3 is the most urgent of the others
    let prios = vec![None, Some(4), None, Some(1)];
    assert!(m.fetch(None, &prios) == Some(task(2, 2)));
    assert!(m.fetch(None, &prios) == Some(task(3, 3)));
    assert!(m.fetch(None, &prios) == Some(task(1, 1)));
}

#[test]
fn fetch_serves_user_interrupts_first() {
    let mut m = TaskManager::new();
    m.add(task(10, 1));
    m.add(task(20, 2));
    m.add(task(30, 3));
    m.add_user_intr_task(3);
    m.add_user_intr_task(2);
    let prios: Vec<Option<usize>> = vec![];
    // the smallest waiting pid is served first
    assert!(m.fetch(None, &prios) == Some(task(20, 2)));
    m.remove_uintr_task(2);
    assert!(m.fetch(None, &prios) == Some(task(30, 3)));
    m.remove_uintr_task(3);
    assert!(m.fetch(None, &prios) == Some(task(10, 1)));
}

#[test]
fn remove_takes_first_task_of_process() {
    let mut m = TaskManager::new();
    m.add(task(10, 1));
    m.add(task(20, 2));
    m.add(task(21, 2));
    m.remove(&task(99, 2));
    let prios: Vec<Option<usize>> = vec![];
    assert!(m.fetch(None, &prios) == Some(task(10, 1)));
    assert!(m.fetch(None, &prios) == Some(task(21, 2)));
    assert!(m.fetch(None, &prios).is_none());
}

#[test]
fn prioritize_brings_process_to_front() {
    let mut m = TaskManager::new();
    for (id, pid) in [(10, 1), (20, 2), (30, 3), (40, 4)] {
        m.add(task(id, pid));
    }
    m.prioritize(3);
    let prios: Vec<Option<usize>> = vec![];
    let order: Vec<usize> = std::iter::from_fn(|| m.fetch(None, &prios).map(|t| t.id)).collect();
    assert_eq!(order, vec![30, 40, 10, 20]);
}

#[test]
fn prioritize_edge_cases() {
    let prios: Vec<Option<usize>> = vec![];
    // already in front, or a single task: nothing moves
    let mut m = TaskManager::new();
    m.add(task(10, 1));
    m.add(task(20, 2));
    m.prioritize(1);
    assert!(m.fetch(None, &prios) == Some(task(10, 1)));
    // unknown process: a full turn, nothing moves
    let mut m = TaskManager::new();
    m.add(task(10, 1));
    m.add(task(20, 2));
    m.add(task(30, 3));
    m.prioritize(9);
    assert!(m.fetch(None, &prios) == Some(task(10, 1)));
    // the turn stops at another task of the front task's process
    let mut m = TaskManager::new();
    for (id, pid) in [(10, 1), (20, 2), (11, 1), (30, 3)] {
        m.add(task(id, pid));
    }
    m.prioritize(3);
    assert!(m.fetch(None, &prios) == Some(task(11, 1)));
}

#[test]
fn socket_transfer_steps() {
    let mut t = SocketTransfer::new(vec![4, 2]);
    assert!(t.next_step(true, true) == TransferStep::Move(0));
    t.moved(Some(3));
    assert!(t.next_step(true, false) == TransferStep::Wait);
    assert!(t.next_step(true, true) == TransferStep::Move(1));
    t.moved(None);
    assert!(t.next_step(true, true) == TransferStep::Move(1));
    t.moved(Some(2));
    assert!(t.next_step(true, true) == TransferStep::Done);
    assert_eq!(t.count, 5);
    let closed = SocketTransfer::new(vec![4]);
    assert!(closed.next_step(false, true) == TransferStep::Done);
}

#[test]
fn polled_read_wakes_reader() {
    let mut m = TaskManager::new();
    m.add(task(10, 1));
    m.add(task(20, 2));
    let mut records: Vec<UserTrapRecord> = Vec::new();
    assert!(!finish_polled_read(&mut m, &mut records, 0, 2, 5));
    assert!(records.is_empty());
    let prios: Vec<Option<usize>> = vec![];
    assert!(finish_polled_read(&mut m, &mut records, 8, 2, 5));
    assert!(records == vec![UserTrapRecord { cause: 1, message: 5 }]);
    assert!(m.fetch(None, &prios) == Some(task(20, 2)));
}
