//! Option handling of the Xilinx XXV Ethernet MAC driver, over a model of
//! the MAC's registers.
use vstd::prelude::*;

verus! {

/// Strip the FCS and padding from received frames.
pub const XXE_FCS_STRIP_OPTION: usize = 0x00000010;
/// Generate the FCS and padding of transmitted frames.
pub const XXE_FCS_INSERT_OPTION: usize = 0x00000020;
/// Enable the transmitter.
pub const XXE_TRANSMITTER_ENABLE_OPTION: usize = 0x00000080;
/// Enable the receiver.
pub const XXE_RECEIVER_ENABLE_OPTION: usize = 0x00000100;
/// Options set at reset.
pub const XXE_DEFAULT_OPTIONS: usize = XXE_FCS_INSERT_OPTION | XXE_FCS_STRIP_OPTION
    | XXE_TRANSMITTER_ENABLE_OPTION | XXE_RECEIVER_ENABLE_OPTION;
/// Size of a MAC address.
pub const XXE_MAC_ADDR_SIZE: usize = 6;
/// Largest MTU of a plain frame.
pub const XXE_MTU: usize = 1500;
/// Largest MTU of a jumbo frame.
pub const XXE_JUMBO_MTU: usize = 8982;
/// Size of an Ethernet header.
pub const XXE_HDR_SIZE: usize = 14;
/// Size of an Ethernet trailer (the FCS).
pub const XXE_TRL_SIZE: usize = 4;
/// Largest plain frame.
pub const XXE_MAX_FRAME_SIZE: usize = XXE_MTU + XXE_HDR_SIZE + XXE_TRL_SIZE;
/// Largest jumbo frame.
pub const XXE_MAX_JUMBO_FRAME_SIZE: usize = XXE_JUMBO_MTU + XXE_HDR_SIZE + XXE_TRL_SIZE;
/// Receive direction.
pub const XXE_RX: usize = 1;
/// Transmit direction.
pub const XXE_TX: usize = 2;
/// Line rates, in Mbit/s.
pub const RATE_10M: usize = 10;
pub const RATE_100M: usize = 100;
pub const RATE_1G: usize = 1000;
pub const RATE_2G5: usize = 2500;
pub const RATE_10G: usize = 10000;
/// Delay loops while the core comes out of reset.
pub const XXE_LOOPS_TO_COME_OUT_OF_RST: usize = 10000;
/// Loops to wait for the receiver's block lock.
pub const XXE_BLOCK_LOCK_LOOPS: isize = 10000000;

/// Receive configuration: delete the FCS.
pub const XXE_RXCFG_DEL_FCS_MASK: u32 = 0x00000002;
/// Transmit configuration: insert the FCS.
pub const XXE_TXCFG_FCS_MASK: u32 = 0x00000002;
/// Transmit configuration: transmitter enable.
pub const XXE_TXCFG_TX_MASK: u32 = 0x00000001;
/// Receive configuration: receiver enable.
pub const XXE_RXCFG_RX_MASK: u32 = 0x00000001;
/// Auto-negotiation: 10GBASE-KR ability.
pub const XXE_ANA_10GKR_MASK: u32 = 0x00000004;
/// Receive block-lock status: locked.
pub const XXE_RXBLSR_LOCK_MASK: u32 = 0x00000001;
/// Transmit status: local fault.
pub const XXE_TXSR_LOCAL_FAULT_MASK: u32 = 0x00000001;
/// Receive status: error bits 4 to 11.
pub const XXE_RXSR_ERR_MASK: u32 = 0xFF0;
/// Speed of 10 Gbit/s.
pub const XXE_SPEED_10_GBPS: usize = 10;

/// The MAC registers that the driver reads and writes.
#[derive(Clone, Copy, PartialEq, Eq, Structural)]
pub struct XxvRegisters {
    pub rxcfg: u32,
    pub txcfg: u32,
    pub rxblsr: u32,
    pub anasr: u32,
    pub anacr: u32,
    pub sr: u32,
    pub rxsr: u32,
    pub txsr: u32,
}

/// Driver state of one XXV Ethernet MAC.
pub struct Xxvethernet {
    pub base_address: usize,
    pub stats: usize,
    pub is_started: bool,
    pub is_ready: bool,
    pub options: usize,
    pub flag: usize,
}

impl Xxvethernet {
    /// A stopped, ready MAC at `base_address` with the default options.
    pub fn new(base_address: usize) -> (r: Self)
        ensures
            r.base_address == base_address,
            r.stats == 0,
            !r.is_started,
            r.is_ready,
            r.options == XXE_DEFAULT_OPTIONS,
            r.flag == 0,
    {
        Xxvethernet {
            base_address,
            stats: 0,
            is_started: false,
            is_ready: true,
            options: XXE_DEFAULT_OPTIONS,
            flag: 0,
        }
    }

    /// Whether the MAC is started.
    pub fn is_started(&self) -> (r: bool)
        ensures
            r == self.is_started,
    {
        self.is_started
    }

    /// Whether the MAC is ready.
    pub fn is_ready(&self) -> (r: bool)
        ensures
            r == self.is_ready,
    {
        self.is_ready
    }

    /// Whether the transmitter reports a local fault.
    pub fn is_tx_err(&self, regs: &XxvRegisters) -> (r: bool)
        ensures
            r == (regs.txsr & XXE_TXSR_LOCAL_FAULT_MASK != 0),
    {
        regs.txsr & XXE_TXSR_LOCAL_FAULT_MASK != 0
    }

    /// Whether the receiver reports an error: one of bits 4 to 11 of its
    /// status.
    pub fn is_rx_err(&self, regs: &XxvRegisters) -> (r: bool)
        ensures
            r == (regs.rxsr & XXE_RXSR_ERR_MASK != 0),
    {
        regs.rxsr & XXE_RXSR_ERR_MASK != 0
    }

    /// The status register.
    pub fn get_status(&self, regs: &XxvRegisters) -> (r: usize)
        ensures
            r == regs.sr,
    {
        regs.sr as usize
    }

    /// Whether statistics are configured.
    pub fn is_stats_configured(&self) -> (r: bool)
        ensures
            r == (self.stats != 0),
    {
        self.stats != 0
    }
}

/// Receive configuration after setting `options`.
pub open spec fn rxcfg_set(rcfg: u32, options: usize) -> u32 {
    rcfg | (if options & XXE_FCS_STRIP_OPTION != 0 {
        XXE_RXCFG_DEL_FCS_MASK
    } else {
        0u32
    }) | (if options & XXE_RECEIVER_ENABLE_OPTION != 0 {
        XXE_RXCFG_RX_MASK
    } else {
        0u32
    })
}

/// Transmit configuration after setting `options`.
pub open spec fn txcfg_set(tc: u32, options: usize) -> u32 {
    tc | (if options & XXE_FCS_INSERT_OPTION != 0 {
        XXE_TXCFG_FCS_MASK
    } else {
        0u32
    }) | (if options & XXE_TRANSMITTER_ENABLE_OPTION != 0 {
        XXE_TXCFG_TX_MASK
    } else {
        0u32
    })
}

/// Receive configuration after clearing `options`.
pub open spec fn rxcfg_clear(rcfg: u32, options: usize) -> u32 {
    rcfg & !(if options & XXE_FCS_STRIP_OPTION != 0 {
        XXE_RXCFG_DEL_FCS_MASK
    } else {
        0u32
    }) & !(if options & XXE_RECEIVER_ENABLE_OPTION != 0 {
        XXE_RXCFG_RX_MASK
    } else {
        0u32
    })
}

/// Transmit configuration after clearing `options`.
pub open spec fn txcfg_clear(tc: u32, options: usize) -> u32 {
    tc & !(if options & XXE_FCS_INSERT_OPTION != 0 {
        XXE_TXCFG_FCS_MASK
    } else {
        0u32
    }) & !(if options & XXE_TRANSMITTER_ENABLE_OPTION != 0 {
        XXE_TXCFG_TX_MASK
    } else {
        0u32
    })
}

/// Nothing to initialise before the MAC is reset.
pub fn init() {
}

/// Turns on `options`. A started MAC is left unchanged; otherwise the
/// options are added and the configuration registers turn on what they
/// control.
pub fn xxv_set_options(eth: &mut Xxvethernet, regs: &mut XxvRegisters, options: usize)
    ensures
        old(eth).is_started ==> *final(eth) == *old(eth) && *final(regs) == *old(regs),
        !old(eth).is_started ==> {
            &&& final(eth).options == old(eth).options | options
            &&& final(eth).is_started == old(eth).is_started
            &&& final(eth).is_ready == old(eth).is_ready
            &&& final(eth).stats == old(eth).stats
            &&& final(eth).base_address == old(eth).base_address
            &&& final(eth).flag == old(eth).flag
            &&& *final(regs) == (XxvRegisters {
                rxcfg: rxcfg_set(old(regs).rxcfg, options),
                txcfg: txcfg_set(old(regs).txcfg, options),
                ..*old(regs)
            })
        },
{
    if eth.is_started() {
        return;
    }
    eth.options = eth.options | options;
    let reg_rcfg = regs.rxcfg;
    let reg_tc = regs.txcfg;
    let mut reg_new_rcfg = reg_rcfg;
    let mut reg_new_tc = reg_tc;
    reg_new_rcfg = reg_new_rcfg | if options & XXE_FCS_STRIP_OPTION != 0 {
        XXE_RXCFG_DEL_FCS_MASK
    } else {
        0u32
    };
    reg_new_tc = reg_new_tc | if options & XXE_FCS_INSERT_OPTION != 0 {
        XXE_TXCFG_FCS_MASK
    } else {
        0u32
    };
    reg_new_tc = reg_new_tc | if options & XXE_TRANSMITTER_ENABLE_OPTION != 0 {
        XXE_TXCFG_TX_MASK
    } else {
        0u32
    };
    reg_new_rcfg = reg_new_rcfg | if options & XXE_RECEIVER_ENABLE_OPTION != 0 {
        XXE_RXCFG_RX_MASK
    } else {
        0u32
    };
    if reg_tc != reg_new_tc {
        regs.txcfg = reg_new_tc;
    }
    if reg_rcfg != reg_new_rcfg {
        regs.rxcfg = reg_new_rcfg;
    }
}

/// Turns off `options`. A started MAC is left unchanged; otherwise the
/// options are removed and the configuration registers turn off what they
/// control.
pub fn xxv_clear_options(eth: &mut Xxvethernet, regs: &mut XxvRegisters, options: usize)
    ensures
        old(eth).is_started ==> *final(eth) == *old(eth) && *final(regs) == *old(regs),
        !old(eth).is_started ==> {
            &&& final(eth).options == old(eth).options & !options
            &&& final(eth).is_started == old(eth).is_started
            &&& final(eth).is_ready == old(eth).is_ready
            &&& final(eth).stats == old(eth).stats
            &&& final(eth).base_address == old(eth).base_address
            &&& final(eth).flag == old(eth).flag
            &&& *final(regs) == (XxvRegisters {
                rxcfg: rxcfg_clear(old(regs).rxcfg, options),
                txcfg: txcfg_clear(old(regs).txcfg, options),
                ..*old(regs)
            })
        },
{
    if eth.is_started() {
        return;
    }
    eth.options = eth.options & !options;
    let reg_rcfg = regs.rxcfg;
    let reg_tc = regs.txcfg;
    let mut reg_new_rcfg = reg_rcfg;
    let mut reg_new_tc = reg_tc;
    reg_new_rcfg = reg_new_rcfg & !if options & XXE_FCS_STRIP_OPTION != 0 {
        XXE_RXCFG_DEL_FCS_MASK
    } else {
        0u32
    };
    reg_new_tc = reg_new_tc & !if options & XXE_FCS_INSERT_OPTION != 0 {
        XXE_TXCFG_FCS_MASK
    } else {
        0u32
    };
    reg_new_tc = reg_new_tc & !if options & XXE_TRANSMITTER_ENABLE_OPTION != 0 {
        XXE_TXCFG_TX_MASK
    } else {
        0u32
    };
    reg_new_rcfg = reg_new_rcfg & !if options & XXE_RECEIVER_ENABLE_OPTION != 0 {
        XXE_RXCFG_RX_MASK
    } else {
        0u32
    };
    if reg_tc != reg_new_tc {
        regs.txcfg = reg_new_tc;
    }
    if reg_rcfg != reg_new_rcfg {
        regs.rxcfg = reg_new_rcfg;
    }
}

/// The options in force.
pub fn xxv_get_options(eth: &Xxvethernet) -> (r: usize)
    ensures
        r == eth.options,
{
    eth.options
}

/// Operating speed in Gbit/s from auto-negotiation: 10 when the link
/// partner can do 10GBASE-KR, else 0.
pub fn xxv_get_autonegspeed(regs: &XxvRegisters) -> (r: usize)
    ensures
        r == if regs.anasr & XXE_ANA_10GKR_MASK != 0 {
            XXE_SPEED_10_GBPS
        } else {
            0
        },
{
    if regs.anasr & XXE_ANA_10GKR_MASK != 0 {
        XXE_SPEED_10_GBPS
    } else {
        0
    }
}

/// Advertises the 10GBASE-KR ability.
pub fn xxv_set_autonegspeed(regs: &mut XxvRegisters)
    ensures
        *final(regs) == (XxvRegisters { anacr: old(regs).anacr | XXE_ANA_10GKR_MASK, ..*old(regs) }),
{
    regs.anacr = regs.anacr | XXE_ANA_10GKR_MASK;
}

/// Stops a started MAC: the receiver is disabled and the MAC marked
/// stopped. A stopped MAC is left unchanged.
pub fn xxv_stop(eth: &mut Xxvethernet, regs: &mut XxvRegisters)
    ensures
        !old(eth).is_started ==> *final(eth) == *old(eth) && *final(regs) == *old(regs),
        old(eth).is_started ==> {
            &&& *final(eth) == (Xxvethernet { is_started: false, ..*old(eth) })
            &&& *final(regs) == (XxvRegisters {
                rxcfg: old(regs).rxcfg & !XXE_RXCFG_RX_MASK,
                ..*old(regs)
            })
        },
{
    if !eth.is_started() {
        return;
    }
    regs.rxcfg = regs.rxcfg & !XXE_RXCFG_RX_MASK;
    eth.is_started = false;
}

/// Brings the stopped MAC's registers in line with its options, leaving
/// the receiver and the transmitter disabled until the MAC is started: the
/// receiver and transmitter enable bits are cleared, then the options other
/// than the transmitter and receiver enables are set in the registers, and
/// every option not in force is cleared from them.
pub fn xxv_init_hw(eth: &mut Xxvethernet, regs: &mut XxvRegisters)
    ensures
        ({
            let r1 = XxvRegisters {
                rxcfg: old(regs).rxcfg & !XXE_RXCFG_RX_MASK,
                txcfg: old(regs).txcfg & !XXE_TXCFG_TX_MASK,
                ..*old(regs)
            };
            let o1 = old(eth).options & !(XXE_TRANSMITTER_ENABLE_OPTION
                | XXE_RECEIVER_ENABLE_OPTION);
            if old(eth).is_started {
                &&& *final(eth) == *old(eth)
                &&& *final(regs) == r1
            } else {
                let o2 = old(eth).options | o1;
                &&& *final(eth) == (Xxvethernet { options: o2 & !(!o2), ..*old(eth) })
                &&& *final(regs) == (XxvRegisters {
                    rxcfg: rxcfg_clear(rxcfg_set(r1.rxcfg, o1), !o2),
                    txcfg: txcfg_clear(txcfg_set(r1.txcfg, o1), !o2),
                    ..r1
                })
            }
        }),
        final(regs).rxcfg & XXE_RXCFG_RX_MASK == 0,
        final(regs).txcfg & XXE_TXCFG_TX_MASK == 0,
{
    let ghost o = eth.options;
    let ghost rx0 = regs.rxcfg;
    let ghost tx0 = regs.txcfg;
    regs.rxcfg = regs.rxcfg & !XXE_RXCFG_RX_MASK;
    regs.txcfg = regs.txcfg & !XXE_TXCFG_TX_MASK;
    let options = eth.options & !(XXE_TRANSMITTER_ENABLE_OPTION | XXE_RECEIVER_ENABLE_OPTION);
    xxv_set_options(eth, regs, options);
    let clear = !eth.options;
    xxv_clear_options(eth, regs, clear);
    proof {
        lemma_init_hw_leaves_receiver_disabled(rx0, o, clear);
        lemma_init_hw_leaves_transmitter_disabled(tx0, o, clear);
        assert(rx0 & !XXE_RXCFG_RX_MASK & XXE_RXCFG_RX_MASK == 0) by (bit_vector);
        assert(tx0 & !XXE_TXCFG_TX_MASK & XXE_TXCFG_TX_MASK == 0) by (bit_vector);
    }
}

/// Resets the MAC: waits for the core to come out of reset, stops it,
/// restores the default options and brings the registers in line with
/// them.
pub fn xxv_reset(eth: &mut Xxvethernet, regs: &mut XxvRegisters)
    ensures
        !final(eth).is_started,
        final(eth).options == XXE_DEFAULT_OPTIONS,
        final(eth).base_address == old(eth).base_address,
        final(eth).is_ready == old(eth).is_ready,
        final(eth).stats == old(eth).stats,
        final(eth).flag == old(eth).flag,
        final(regs).rxcfg & XXE_RXCFG_RX_MASK == 0,
        final(regs).txcfg & XXE_TXCFG_TX_MASK == 0,
        ({
            let r0 = if old(eth).is_started {
                old(regs).rxcfg & !XXE_RXCFG_RX_MASK
            } else {
                old(regs).rxcfg
            };
            let r1 = r0 & !XXE_RXCFG_RX_MASK;
            let o1 = XXE_DEFAULT_OPTIONS & !(XXE_TRANSMITTER_ENABLE_OPTION
                | XXE_RECEIVER_ENABLE_OPTION);
            let o2 = XXE_DEFAULT_OPTIONS | o1;
            &&& *final(regs) == (XxvRegisters {
                rxcfg: rxcfg_clear(rxcfg_set(r1, o1), !o2),
                txcfg: txcfg_clear(txcfg_set(old(regs).txcfg & !XXE_TXCFG_TX_MASK, o1), !o2),
                ..*old(regs)
            })
        }),
{
    let mut time_out_loops: usize = XXE_LOOPS_TO_COME_OUT_OF_RST;
    while time_out_loops > 0
        invariant
            time_out_loops <= XXE_LOOPS_TO_COME_OUT_OF_RST,
        decreases time_out_loops,
    {
        time_out_loops = time_out_loops - 1;
    }
    xxv_stop(eth, regs);
    eth.options = XXE_DEFAULT_OPTIONS;
    xxv_init_hw(eth, regs);
    proof {
        assert(XXE_DEFAULT_OPTIONS | (XXE_DEFAULT_OPTIONS & !(XXE_TRANSMITTER_ENABLE_OPTION
            | XXE_RECEIVER_ENABLE_OPTION)) == XXE_DEFAULT_OPTIONS) by (bit_vector);
        assert(XXE_DEFAULT_OPTIONS & !(!XXE_DEFAULT_OPTIONS) == XXE_DEFAULT_OPTIONS)
            by (bit_vector);
    }
}

/// What starting the MAC leaves to do.
#[derive(Clone, Copy, PartialEq, Eq, Structural)]
pub enum XxvStart {
    /// The MAC was already started; nothing was done.
    AlreadyStarted,
    /// The MAC is started.
    Started,
    /// The receiver was just enabled: the caller waits for its block lock,
    /// then calls [`xxv_start_done`].
    AwaitBlockLock,
}

/// Starts a stopped MAC: enables the transmitter and the receiver when the
/// options ask for them and they are off. Enabling the receiver needs its
/// block lock before the MAC counts as started.
pub fn xxv_start(eth: &mut Xxvethernet, regs: &mut XxvRegisters) -> (r: XxvStart)
    ensures
        old(eth).is_started ==> r == XxvStart::AlreadyStarted && *final(eth) == *old(eth)
            && *final(regs) == *old(regs),
        !old(eth).is_started ==> {
            let tx_on = old(eth).options & XXE_TRANSMITTER_ENABLE_OPTION != 0 && old(regs).txcfg
                & XXE_TXCFG_TX_MASK == 0;
            let rx_on = old(eth).options & XXE_RECEIVER_ENABLE_OPTION != 0 && old(regs).rxcfg
                & XXE_RXCFG_RX_MASK == 0;
            &&& final(regs).txcfg == if tx_on {
                old(regs).txcfg | XXE_TXCFG_TX_MASK
            } else {
                old(regs).txcfg
            }
            &&& final(regs).rxcfg == if rx_on {
                old(regs).rxcfg | XXE_RXCFG_RX_MASK
            } else {
                old(regs).rxcfg
            }
            &&& *final(regs) == (XxvRegisters {
                txcfg: final(regs).txcfg,
                rxcfg: final(regs).rxcfg,
                ..*old(regs)
            })
            &&& r == if rx_on {
                XxvStart::AwaitBlockLock
            } else {
                XxvStart::Started
            }
            &&& *final(eth) == (Xxvethernet { is_started: !rx_on, ..*old(eth) })
        },
{
    if eth.is_started() {
        return XxvStart::AlreadyStarted;
    }
    if eth.options & XXE_TRANSMITTER_ENABLE_OPTION != 0 {
        if regs.txcfg & XXE_TXCFG_TX_MASK == 0 {
            regs.txcfg = regs.txcfg | XXE_TXCFG_TX_MASK;
        }
    }
    if eth.options & XXE_RECEIVER_ENABLE_OPTION != 0 {
        if regs.rxcfg & XXE_RXCFG_RX_MASK == 0 {
            regs.rxcfg = regs.rxcfg | XXE_RXCFG_RX_MASK;
            return XxvStart::AwaitBlockLock;
        }
    }
    eth.is_started = true;
    XxvStart::Started
}

/// Whether the receive block-lock status shows lock.
pub fn rx_block_locked(regs: &XxvRegisters) -> (r: bool)
    ensures
        r == (regs.rxblsr & XXE_RXBLSR_LOCK_MASK != 0),
{
    regs.rxblsr & XXE_RXBLSR_LOCK_MASK != 0
}

/// Ends a start that waited for the receiver's block lock: the MAC counts
/// as started only when the lock came in time.
pub fn xxv_start_done(eth: &mut Xxvethernet, block_locked: bool)
    ensures
        *final(eth) == (Xxvethernet { is_started: old(eth).is_started || block_locked, ..*old(eth) }),
{
    if block_locked {
        eth.is_started = true;
    }
}

/// Setting options turns every one of them on.
pub proof fn lemma_set_options_on(old_options: usize, options: usize)
    ensures
        (old_options | options) & options == options,
{
    assert((old_options | options) & options == options) by (bit_vector);
}

/// Clearing options turns every one of them off and leaves the others.
pub proof fn lemma_clear_options_off(old_options: usize, options: usize)
    ensures
        (old_options & !options) & options == 0,
        (old_options & !options) & !options == old_options & !options,
{
    assert((old_options & !options) & options == 0) by (bit_vector);
    assert((old_options & !options) & !options == old_options & !options) by (bit_vector);
}

/// Bringing the registers in line with the options leaves the receiver
/// disabled, whatever the options and the register held before.
pub proof fn lemma_init_hw_leaves_receiver_disabled(rxcfg: u32, options: usize, cleared: usize)
    ensures
        rxcfg_clear(
            rxcfg_set(
                rxcfg & !XXE_RXCFG_RX_MASK,
                options & !(XXE_TRANSMITTER_ENABLE_OPTION | XXE_RECEIVER_ENABLE_OPTION),
            ),
            cleared,
        ) & XXE_RXCFG_RX_MASK == 0,
{
    let o1 = options & !(XXE_TRANSMITTER_ENABLE_OPTION | XXE_RECEIVER_ENABLE_OPTION);
    assert(o1 & 0x100usize == 0) by (bit_vector)
        requires
            o1 == options & !(0x80usize | 0x100usize),
    ;
    let a = rxcfg & !1u32;
    let f: u32 = if o1 & XXE_FCS_STRIP_OPTION != 0 {
        XXE_RXCFG_DEL_FCS_MASK
    } else {
        0u32
    };
    let g: u32 = if cleared & XXE_FCS_STRIP_OPTION != 0 {
        XXE_RXCFG_DEL_FCS_MASK
    } else {
        0u32
    };
    let h: u32 = if cleared & XXE_RECEIVER_ENABLE_OPTION != 0 {
        XXE_RXCFG_RX_MASK
    } else {
        0u32
    };
    assert(((a | f | 0u32) & !g & !h) & 1u32 == 0) by (bit_vector)
        requires
            a == rxcfg & !1u32,
            f == 0u32 || f == 2u32,
    ;
}

/// Bringing the registers in line with the options leaves the transmitter
/// disabled, whatever the options and the register held before.
pub proof fn lemma_init_hw_leaves_transmitter_disabled(txcfg: u32, options: usize, cleared: usize)
    ensures
        txcfg_clear(
            txcfg_set(
                txcfg & !XXE_TXCFG_TX_MASK,
                options & !(XXE_TRANSMITTER_ENABLE_OPTION | XXE_RECEIVER_ENABLE_OPTION),
            ),
            cleared,
        ) & XXE_TXCFG_TX_MASK == 0,
{
    let o1 = options & !(XXE_TRANSMITTER_ENABLE_OPTION | XXE_RECEIVER_ENABLE_OPTION);
    assert(o1 & 0x80usize == 0) by (bit_vector)
        requires
            o1 == options & !(0x80usize | 0x100usize),
    ;
    let a = txcfg & !1u32;
    let f: u32 = if o1 & XXE_FCS_INSERT_OPTION != 0 {
        XXE_TXCFG_FCS_MASK
    } else {
        0u32
    };
    let g: u32 = if cleared & XXE_FCS_INSERT_OPTION != 0 {
        XXE_TXCFG_FCS_MASK
    } else {
        0u32
    };
    let h: u32 = if cleared & XXE_TRANSMITTER_ENABLE_OPTION != 0 {
        XXE_TXCFG_TX_MASK
    } else {
        0u32
    };
    assert(((a | f | 0u32) & !g & !h) & 1u32 == 0) by (bit_vector)
        requires
            a == txcfg & !1u32,
            f == 0u32 || f == 2u32,
    ;
}

} // verus!
