//! Verified core of the rCore-N kernel: identifier allocation, kernel and
//! user stack layout, the pipe ring buffer, the scheduler's ready queue,
//! thread and process bookkeeping, descriptor, port, socket and process
//! tables, the network replies built with `smoltcp`, socket transfers, the
//! loadable-module loader reading ELF files with `xmas_elf`, and the XXV
//! Ethernet driver's option handling.
use vstd::prelude::*;

pub mod config;
pub mod recycle;
pub mod layout;
pub mod ring;
pub mod scheduler;
pub mod fd;
pub mod ports;
pub mod sockets;
pub mod xxv;
pub mod grr;
pub mod context;
pub mod coroutine;
pub mod lkm;
pub mod elf;
pub mod loader;
pub mod net;
pub mod transfer;
pub mod pool;
pub mod process;

verus! {

} // verus!
