use rcore_n::context::TaskStatus;
use rcore_n::layout::TaskUserRes;
use rcore_n::net::{net_interrupt_handler, Board, NetIrqAction};
use rcore_n::pool::Pid2Process;
use rcore_n::process::{add_thread, block_current_task, exit_current_and_run_next, suspend_current_and_run_next, ProcessControlBlock, TaskControlBlockInner};
use rcore_n::recycle::RecycleAllocator;

fn thread(tid: usize) -> Option<TaskControlBlockInner> {
    Some(TaskControlBlockInner {
        res: Some(TaskUserRes { tid, ustack_base: 0x1_0000 }),
        task_status: TaskStatus::Ready,
        exit_code: None,
        time_intr_count: 0,
    })
}

/// A process with pid 7, threads 0 to 2, children 8 and 9, two open
/// descriptors.
fn process() -> ProcessControlBlock<u32> {
    let mut alloc = RecycleAllocator::new();
    for _ in 0..3 {
        alloc.alloc_id();
    }
    ProcessControlBlock {
        pid: 7,
        parent: Some(0),
        is_zombie: false,
        exit_code: 0,
        children: vec![8, 9],
        fd_table: vec![Some(0), Some(1)],
        tasks: vec![thread(0), thread(1), thread(2)],
        task_res_allocator: alloc,
    }
}

/// A child of process 7 with pid `pid`, one thread and one descriptor.
fn child(pid: usize) -> ProcessControlBlock<u32> {
    let mut alloc = RecycleAllocator::new();
    alloc.alloc_id();
    ProcessControlBlock {
        pid,
        parent: Some(7),
        is_zombie: false,
        exit_code: 0,
        children: vec![],
        fd_table: vec![Some(3)],
        tasks: vec![thread(0)],
        task_res_allocator: alloc,
    }
}

#[test]
fn block_and_suspend_bookkeeping() {
    let mut t = thread(0).unwrap();
    block_current_task(&mut t);
    assert!(t.task_status == TaskStatus::Blocking);
    suspend_current_and_run_next(&mut t);
    suspend_current_and_run_next(&mut t);
    assert_eq!(t.time_intr_count, 2);
}

#[test]
fn a_secondary_thread_exits_alone() {
    let mut p = process();
    let mut init_children = vec![1];
    let mut table: Pid2Process<&str> = Pid2Process::new();
    table.insert_into_pid2process(7, "p");
    let mut kids: Vec<ProcessControlBlock<u32>> = vec![];
    exit_current_and_run_next(&mut p, 2, 5, &mut init_children, 1, &mut kids, &mut table);
    let t = p.tasks[2].as_ref().unwrap();
    assert!(t.task_status == TaskStatus::Zombie);
    assert_eq!(t.exit_code, Some(5));
    assert!(t.res.is_none());
    assert!(p.tasks[1].as_ref().unwrap().res.is_some());
    assert!(!p.is_zombie);
    assert_eq!(p.children, vec![8, 9]);
    assert_eq!(init_children, vec![1]);
    assert_eq!(table.pid2process(7), Some(&"p"));
    // its thread identifier is the next one handed out
    assert_eq!(p.task_res_allocator.alloc_id(), 2);
}

#[test]
fn the_main_thread_takes_the_process_down() {
    let mut p = process();
    let mut init_children = vec![1];
    let mut table: Pid2Process<&str> = Pid2Process::new();
    table.insert_into_pid2process(7, "p");
    table.insert_into_pid2process(3, "q");
    let mut kids = vec![child(8), child(9)];
    exit_current_and_run_next(&mut p, 0, -1, &mut init_children, 1, &mut kids, &mut table);
    // the initial process adopts the children
    assert_eq!(kids.iter().map(|c| (c.pid, c.parent)).collect::<Vec<_>>(), vec![(8, Some(1)), (9, Some(1))]);
    assert_eq!(kids[1].fd_table, vec![Some(3)]);
    assert!(p.is_zombie);
    assert_eq!(p.exit_code, -1);
    assert!(p.children.is_empty());
    assert!(p.fd_table.is_empty());
    assert_eq!(init_children, vec![1, 8, 9]);
    assert_eq!(table.pid2process(7), None);
    assert_eq!(table.pid2process(3), Some(&"q"));
    assert!(p.tasks.iter().all(|t| t.as_ref().unwrap().res.is_none()));
    assert_eq!(p.tasks[0].as_ref().unwrap().exit_code, Some(-1));
    // every thread identifier is released, the last released first
    assert_eq!(p.task_res_allocator.alloc_id(), 2);
    assert_eq!(p.task_res_allocator.alloc_id(), 1);
    assert_eq!(p.task_res_allocator.alloc_id(), 0);
    assert_eq!(p.task_res_allocator.alloc_id(), 3);
}

#[test]
fn process_table() {
    let mut t: Pid2Process<u32> = Pid2Process::new();
    assert_eq!(t.pid2process(1), None);
    t.insert_into_pid2process(1, 10);
    t.insert_into_pid2process(2, 20);
    t.insert_into_pid2process(1, 11);
    assert_eq!(t.pid2process(1), Some(&11));
    t.remove_from_pid2process(1);
    assert_eq!(t.pid2process(1), None);
    assert_eq!(t.pid2process(2), Some(&20));
}

#[test]
fn network_interrupts() {
    assert!(net_interrupt_handler(Board::Qemu, 8, false, false) == NetIrqAction::PollInterface);
    assert!(net_interrupt_handler(Board::Qemu, 3, true, true) == NetIrqAction::Nothing);
    assert!(net_interrupt_handler(Board::Axu15eg, 3, true, true) == NetIrqAction::PollInterface);
    assert!(net_interrupt_handler(Board::Axu15eg, 3, false, true) == NetIrqAction::ClearTxComplete);
    assert!(net_interrupt_handler(Board::Axu15eg, 3, false, false) == NetIrqAction::Nothing);
    assert!(net_interrupt_handler(Board::Axu15eg, 2, true, true) == NetIrqAction::Nothing);
}

#[test]
fn threads_are_recorded_by_identifier() {
    let mut p = process();
    // identifiers 0 to 2 are taken: the next one is 3, in a new slot
    assert_eq!(add_thread(&mut p, 0x2_0000), 3);
    assert_eq!(p.tasks.len(), 4);
    let t = p.tasks[3].as_ref().unwrap();
    assert!(t.task_status == TaskStatus::Ready);
    assert_eq!(t.res.as_ref().map(|r| (r.tid, r.ustack_base)), Some((3, 0x2_0000)));
    // a released identifier is reused, in its own slot
    let mut init_children = vec![];
    let mut table: Pid2Process<u8> = Pid2Process::new();
    let mut kids: Vec<ProcessControlBlock<u32>> = vec![];
    exit_current_and_run_next(&mut p, 1, 0, &mut init_children, 1, &mut kids, &mut table);
    assert_eq!(add_thread(&mut p, 0x3_0000), 1);
    assert_eq!(p.tasks.len(), 4);
    assert!(p.tasks[1].as_ref().unwrap().exit_code.is_none());
}

#[test]
fn thread_table_grows_with_free_slots() {
    let mut alloc = RecycleAllocator::new();
    for _ in 0..3 {
        alloc.alloc_id();
    }
    let mut p: ProcessControlBlock<u32> = ProcessControlBlock {
        pid: 1,
        parent: None,
        is_zombie: false,
        exit_code: 0,
        children: vec![],
        fd_table: vec![],
        tasks: vec![thread(0)],
        task_res_allocator: alloc,
    };
    assert_eq!(add_thread(&mut p, 0), 3);
    assert_eq!(p.tasks.len(), 4);
    assert!(p.tasks[1].is_none() && p.tasks[2].is_none());
}

#[test]
fn new_process_and_fork() {
    let mut pids = RecycleAllocator::new();
    let mut table: Pid2Process<String> = Pid2Process::new();
    let init = ProcessControlBlock::new(&mut pids, vec![Some(10u32), Some(11), Some(11)], 0x1_0000, 0, &mut table, |pid| format!("process {}", pid));
    assert_eq!(init.pid, 0);
    assert_eq!(init.parent, Some(0));
    assert_eq!(table.pid2process(0).map(|s| s.as_str()), Some("process 0"));
    assert_eq!(init.tasks.len(), 1);
    let main = init.tasks[0].as_ref().unwrap();
    assert_eq!(main.res.as_ref().map(|r| (r.tid, r.ustack_base)), Some((0, 0x1_0000)));
    let mut parent = init;
    parent.fd_table.push(None);
    parent.fd_table.push(Some(12));
    let mut child = parent.fork(&mut pids, &mut table, |pid| format!("child {}", pid));
    assert_eq!(child.pid, 1);
    assert_eq!(child.parent, Some(0));
    assert_eq!(table.pid2process(1).map(|s| s.as_str()), Some("child 1"));
    assert_eq!(table.pid2process(0).map(|s| s.as_str()), Some("process 0"));
    assert_eq!(parent.children, vec![1]);
    assert_eq!(child.fd_table, vec![Some(10), Some(11), Some(11), None, Some(12)]);
    assert!(child.children.is_empty() && !child.is_zombie && child.exit_code == 0);
    let cm = child.tasks[0].as_ref().unwrap();
    assert_eq!(cm.res.as_ref().map(|r| (r.tid, r.ustack_base)), Some((0, 0x1_0000)));
    // the child's next thread gets identifier 1
    assert_eq!(add_thread(&mut child, 0x1_0000), 1);
    // when its parent exits, the initial process adopts it
    child.reparent(9);
    assert_eq!(child.parent, Some(9));
    assert_eq!(child.pid, 1);
}

#[test]
fn exec_moves_the_user_stacks() {
    let mut pids = RecycleAllocator::new();
    let mut table: Pid2Process<usize> = Pid2Process::new();
    let mut p: ProcessControlBlock<u32> = ProcessControlBlock::new(&mut pids, vec![], 0x1_0000, 0, &mut table, |pid| pid);
    p.exec(0x4_0000);
    let t = p.tasks[0].as_ref().unwrap();
    assert_eq!(t.res.as_ref().map(|r| (r.tid, r.ustack_base)), Some((0, 0x4_0000)));
    assert!(t.task_status == TaskStatus::Ready);
}
