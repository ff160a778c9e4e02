//! Memory-layout and board constants of the kernel.
use vstd::prelude::*;

verus! {

/// Size of a user stack.
pub const USER_STACK_SIZE: usize = 0x4000;
/// Size of a kernel stack.
pub const KERNEL_STACK_SIZE: usize = 0x4000;
/// Size of the kernel heap.
pub const KERNEL_HEAP_SIZE: usize = 0x80_0000;
/// End of physical memory.
pub const MEMORY_END: usize = 0x8400_0000;
/// Size of a page.
pub const PAGE_SIZE: usize = 0x1000;
/// Number of offset bits inside a page.
pub const PAGE_SIZE_BITS: usize = 0xc;
/// Virtual address of the trampoline page, the last page of the address space.
pub const TRAMPOLINE: usize = usize::MAX - PAGE_SIZE + 1;
/// Page right below the trampoline.
pub const USER_TRAP_BUFFER: usize = TRAMPOLINE - PAGE_SIZE;
/// Page right below the user trap buffer.
pub const HEAP_BUFFER: usize = USER_TRAP_BUFFER - PAGE_SIZE;
/// Page of the main thread's trap context; other threads' pages lie below.
pub const TRAP_CONTEXT: usize = HEAP_BUFFER - PAGE_SIZE;
/// Timer frequency on QEMU.
pub const CLOCK_FREQ_QEMU: usize = 12_500_000;
/// Timer frequency on the AXU15EG board.
pub const CLOCK_FREQ_AXU15EG: usize = 10_000_000;
/// Number of harts.
pub const CPU_NUM: usize = 4;
/// Size of the trace buffer.
pub const TRACE_SIZE: usize = 0x1000_0000;

/// Largest Ethernet frame with a jumbo payload: 8982 payload bytes, the
/// 14-byte header and the 4-byte trailer.
pub const XAE_MAX_JUMBO_FRAME_SIZE: usize = 9000;

/// Configuration of the AXI Ethernet device of the board.
pub struct AxiNetConfig {
    pub tx_bd_cnt: usize,
    pub rx_bd_cnt: usize,
    pub eth_baseaddr: usize,
    pub dma_baseaddr: usize,
    pub mac_addr: [u8; 6],
    pub mtu: usize,
}

/// The board's AXI Ethernet configuration.
pub fn axi_net_config() -> (r: AxiNetConfig)
    ensures
        r.tx_bd_cnt == 1024,
        r.rx_bd_cnt == 1024,
        r.eth_baseaddr == 0x6014_0000,
        r.dma_baseaddr == 0x6010_0000,
        r.mac_addr@ == seq![0x00u8, 0x0A, 0x35, 0x01, 0x02, 0x03],
        r.mtu == XAE_MAX_JUMBO_FRAME_SIZE,
{
    let r = AxiNetConfig {
        tx_bd_cnt: 1024,
        rx_bd_cnt: 1024,
        eth_baseaddr: 0x6014_0000,
        dma_baseaddr: 0x6010_0000,
        mac_addr: [0x00, 0x0A, 0x35, 0x01, 0x02, 0x03],
        mtu: XAE_MAX_JUMBO_FRAME_SIZE,
    };
    assert(r.mac_addr@ =~= seq![0x00u8, 0x0A, 0x35, 0x01, 0x02, 0x03]);
    r
}

/// A buffer of the DMA engine.
pub struct Buf(pub [u8; 1024]);

} // verus!
