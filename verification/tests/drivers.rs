use rcore_n::grr::{CTL_GT_RESET_ALL_A, CTL_GT_TX_RESET_A, R, W};
use rcore_n::xxv::{
    rx_block_locked, xxv_clear_options, xxv_get_autonegspeed, xxv_get_options, xxv_init_hw, xxv_reset,
    xxv_set_autonegspeed, xxv_set_options, xxv_start, xxv_start_done, xxv_stop, XxvRegisters,
    XxvStart, Xxvethernet, XXE_DEFAULT_OPTIONS, XXE_FCS_INSERT_OPTION, XXE_FCS_STRIP_OPTION,
    XXE_MAX_FRAME_SIZE, XXE_MAX_JUMBO_FRAME_SIZE, XXE_RECEIVER_ENABLE_OPTION,
    XXE_TRANSMITTER_ENABLE_OPTION,
};

fn regs() -> XxvRegisters {
    XxvRegisters { rxcfg: 0, txcfg: 0, rxblsr: 0, anasr: 0, anacr: 0, sr: 0x55, rxsr: 0, txsr: 0 }
}

#[test]
fn frame_sizes() {
    assert_eq!(XXE_MAX_FRAME_SIZE, 1518);
    assert_eq!(XXE_MAX_JUMBO_FRAME_SIZE, 9000);
    assert_eq!(XXE_DEFAULT_OPTIONS, 0x1b0);
}

#[test]
fn new_mac_is_stopped_with_default_options() {
    let eth = Xxvethernet::new(0xa000_0000);
    assert!(!eth.is_started());
    assert!(eth.is_ready());
    assert_eq!(xxv_get_options(&eth), XXE_DEFAULT_OPTIONS);
    assert!(!eth.is_stats_configured());
    let mut r = regs();
    assert_eq!(eth.get_status(&r), 0x55);
    assert!(!eth.is_tx_err(&r) && !eth.is_rx_err(&r));
    r.txsr = 1;
    r.rxsr = 0x10;
    assert!(eth.is_tx_err(&r) && eth.is_rx_err(&r));
}

#[test]
fn set_and_clear_options() {
    let mut eth = Xxvethernet::new(0);
    eth.options = 0;
    let mut r = regs();
    xxv_set_options(&mut eth, &mut r, XXE_FCS_STRIP_OPTION | XXE_TRANSMITTER_ENABLE_OPTION);
    assert_eq!(eth.options, XXE_FCS_STRIP_OPTION | XXE_TRANSMITTER_ENABLE_OPTION);
    assert_eq!(r.rxcfg, 0b10);
    assert_eq!(r.txcfg, 0b01);
    xxv_set_options(&mut eth, &mut r, XXE_FCS_INSERT_OPTION | XXE_RECEIVER_ENABLE_OPTION);
    assert_eq!(r.rxcfg, 0b11);
    assert_eq!(r.txcfg, 0b11);
    // clearing turns exactly the named options off
    xxv_clear_options(&mut eth, &mut r, XXE_FCS_STRIP_OPTION | XXE_FCS_INSERT_OPTION);
    assert_eq!(eth.options, XXE_TRANSMITTER_ENABLE_OPTION | XXE_RECEIVER_ENABLE_OPTION);
    assert_eq!(r.rxcfg, 0b01);
    assert_eq!(r.txcfg, 0b01);
    assert_eq!(eth.options & (XXE_FCS_STRIP_OPTION | XXE_FCS_INSERT_OPTION), 0);
}

#[test]
fn options_of_a_started_mac_do_not_change() {
    let mut eth = Xxvethernet::new(0);
    eth.is_started = true;
    let mut r = regs();
    xxv_clear_options(&mut eth, &mut r, XXE_DEFAULT_OPTIONS);
    assert_eq!(eth.options, XXE_DEFAULT_OPTIONS);
    assert!(r == regs());
}

#[test]
fn autonegotiation_speed() {
    let mut r = regs();
    assert_eq!(xxv_get_autonegspeed(&r), 0);
    r.anasr = 0x4;
    assert_eq!(xxv_get_autonegspeed(&r), 10);
    xxv_set_autonegspeed(&mut r);
    assert_eq!(r.anacr, 0x4);
}

#[test]
fn start_waits_for_block_lock_then_stop() {
    let mut eth = Xxvethernet::new(0);
    let mut r = regs();
    xxv_reset(&mut eth, &mut r);
    assert_eq!(eth.options, XXE_DEFAULT_OPTIONS);
    assert!(!eth.is_started());
    // reset leaves the receiver and transmitter disabled and the FCS
    // options in the registers
    assert_eq!(r.rxcfg, 0b10);
    assert_eq!(r.txcfg, 0b10);
    assert_eq!(r.rxcfg & 1, 0);
    assert_eq!(r.txcfg & 1, 0);
    // starting enables both and waits for the receiver's block lock
    assert!(xxv_start(&mut eth, &mut r) == XxvStart::AwaitBlockLock);
    assert_eq!(r.rxcfg, 0b11);
    assert_eq!(r.txcfg, 0b11);
    assert!(!rx_block_locked(&r));
    xxv_start_done(&mut eth, rx_block_locked(&r));
    assert!(!eth.is_started());
    r.rxblsr = 1;
    xxv_start_done(&mut eth, rx_block_locked(&r));
    assert!(eth.is_started());
    assert!(xxv_start(&mut eth, &mut r) == XxvStart::AlreadyStarted);
    xxv_stop(&mut eth, &mut r);
    assert!(!eth.is_started());
    assert_eq!(r.rxcfg, 0b10);
    // the transmitter stays on: starting again with the lock present
    // enables the receiver and waits again
    assert!(xxv_start(&mut eth, &mut r) == XxvStart::AwaitBlockLock);
    assert_eq!(r.rxcfg, 0b11);
    xxv_start_done(&mut eth, rx_block_locked(&r));
    assert!(eth.is_started());
}

#[test]
fn init_hw_leaves_receiver_and_transmitter_disabled() {
    let mut eth = Xxvethernet::new(0);
    let mut r = regs();
    r.rxcfg = 1;
    // a transmitter left on, as a start whose block lock never came leaves it
    r.txcfg = 1;
    xxv_init_hw(&mut eth, &mut r);
    assert_eq!(r.rxcfg & 1, 0);
    assert_eq!(r.txcfg & 1, 0);
    assert_eq!(r.rxcfg & 0b10, 0b10);
    assert_eq!(r.txcfg & 0b10, 0b10);
}

#[test]
fn gt_reset_register_fields() {
    let r = R { bits: 0b101 };
    assert!(r.ctl_gt_reset_all().is_enable());
    assert!(r.ctl_gt_rx_reset().is_disable());
    assert!(r.ctl_gt_tx_reset().variant() == CTL_GT_TX_RESET_A::ENABLE);
    assert!(bool::from(r.ctl_gt_reset_all().variant()));
    assert!(!bool::from(r.ctl_gt_rx_reset().variant()));
    assert!(bool::from(CTL_GT_TX_RESET_A::ENABLE));
    let mut w = W { bits: 0 };
    w.ctl_gt_reset_all().enable();
    assert_eq!(w.bits, 0b001);
    w.ctl_gt_tx_reset().variant(CTL_GT_TX_RESET_A::ENABLE);
    assert_eq!(w.bits, 0b101);
    w.ctl_gt_rx_reset().enable();
    assert_eq!(w.bits, 0b111);
    w.ctl_gt_reset_all().variant(CTL_GT_RESET_ALL_A::DISABLE);
    assert_eq!(w.bits, 0b110);
    w.ctl_gt_rx_reset().disable();
    assert_eq!(w.bits, 0b100);
    w.bits(0xff);
    assert_eq!(w.bits, 0xff);
}
