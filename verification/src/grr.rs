//! The XXV MAC's GT reset register: a reader and a writer for its three
//! one-bit fields (bit 0 resets all transceivers, bit 1 the receive side,
//! bit 2 the transmit side).
#![allow(non_camel_case_types)]
use vstd::prelude::*;

verus! {

/// Marker of the GT reset register; it resets to 0.
pub struct GRR_SPEC;

/// Reset value of the register.
pub const GRR_RESET_VALUE: u32 = 0;

/// A value read from the register.
pub struct R {
    pub bits: u32,
}

/// A value being written to the register.
pub struct W {
    pub bits: u32,
}

/// Value of field `ctl_gt_reset_all`.
#[derive(Clone, Copy, PartialEq, Eq, Structural)]
pub enum CTL_GT_RESET_ALL_A {
    DISABLE,
    ENABLE,
}

/// Value of field `ctl_gt_rx_reset`.
#[derive(Clone, Copy, PartialEq, Eq, Structural)]
pub enum CTL_GT_RX_RESET_A {
    DISABLE,
    ENABLE,
}

/// Value of field `ctl_gt_tx_reset`.
#[derive(Clone, Copy, PartialEq, Eq, Structural)]
pub enum CTL_GT_TX_RESET_A {
    DISABLE,
    ENABLE,
}

impl From<CTL_GT_RESET_ALL_A> for bool {
    /// The bit value of a field value: `ENABLE` is set.
    fn from(variant: CTL_GT_RESET_ALL_A) -> (r: bool) {
        match variant {
            CTL_GT_RESET_ALL_A::DISABLE => false,
            CTL_GT_RESET_ALL_A::ENABLE => true,
        }
    }
}

impl vstd::std_specs::convert::FromSpecImpl<CTL_GT_RESET_ALL_A> for bool {
    open spec fn obeys_from_spec() -> bool {
        true
    }

    open spec fn from_spec(v: CTL_GT_RESET_ALL_A) -> bool {
        v == CTL_GT_RESET_ALL_A::ENABLE
    }
}

impl From<CTL_GT_RX_RESET_A> for bool {
    /// The bit value of a field value: `ENABLE` is set.
    fn from(variant: CTL_GT_RX_RESET_A) -> (r: bool) {
        match variant {
            CTL_GT_RX_RESET_A::DISABLE => false,
            CTL_GT_RX_RESET_A::ENABLE => true,
        }
    }
}

impl vstd::std_specs::convert::FromSpecImpl<CTL_GT_RX_RESET_A> for bool {
    open spec fn obeys_from_spec() -> bool {
        true
    }

    open spec fn from_spec(v: CTL_GT_RX_RESET_A) -> bool {
        v == CTL_GT_RX_RESET_A::ENABLE
    }
}

impl From<CTL_GT_TX_RESET_A> for bool {
    /// The bit value of a field value: `ENABLE` is set.
    fn from(variant: CTL_GT_TX_RESET_A) -> (r: bool) {
        match variant {
            CTL_GT_TX_RESET_A::DISABLE => false,
            CTL_GT_TX_RESET_A::ENABLE => true,
        }
    }
}

impl vstd::std_specs::convert::FromSpecImpl<CTL_GT_TX_RESET_A> for bool {
    open spec fn obeys_from_spec() -> bool {
        true
    }

    open spec fn from_spec(v: CTL_GT_TX_RESET_A) -> bool {
        v == CTL_GT_TX_RESET_A::ENABLE
    }
}

/// Bit `n` of `bits`.
pub open spec fn bit_of(bits: u32, n: u32) -> bool {
    (bits >> n) & 1 != 0
}

/// `bits` with bit `n` set to `v`.
pub open spec fn with_bit(bits: u32, n: u32, v: bool) -> u32 {
    if v {
        bits | (1u32 << n)
    } else {
        bits & !(1u32 << n)
    }
}

/// Reader of field `ctl_gt_reset_all`.
pub struct CTL_GT_RESET_ALL_R {
    pub bits: bool,
}

/// Reader of field `ctl_gt_rx_reset`.
pub struct CTL_GT_RX_RESET_R {
    pub bits: bool,
}

/// Reader of field `ctl_gt_tx_reset`.
pub struct CTL_GT_TX_RESET_R {
    pub bits: bool,
}

impl CTL_GT_RESET_ALL_R {
    /// The field's value.
    pub fn variant(&self) -> (r: CTL_GT_RESET_ALL_A)
        ensures
            r == if self.bits {
                CTL_GT_RESET_ALL_A::ENABLE
            } else {
                CTL_GT_RESET_ALL_A::DISABLE
            },
    {
        if self.bits {
            CTL_GT_RESET_ALL_A::ENABLE
        } else {
            CTL_GT_RESET_ALL_A::DISABLE
        }
    }

    /// Whether the field is `DISABLE`.
    pub fn is_disable(&self) -> (r: bool)
        ensures
            r == !self.bits,
    {
        self.variant() == CTL_GT_RESET_ALL_A::DISABLE
    }

    /// Whether the field is `ENABLE`.
    pub fn is_enable(&self) -> (r: bool)
        ensures
            r == self.bits,
    {
        self.variant() == CTL_GT_RESET_ALL_A::ENABLE
    }
}

impl CTL_GT_RX_RESET_R {
    /// The field's value.
    pub fn variant(&self) -> (r: CTL_GT_RX_RESET_A)
        ensures
            r == if self.bits {
                CTL_GT_RX_RESET_A::ENABLE
            } else {
                CTL_GT_RX_RESET_A::DISABLE
            },
    {
        if self.bits {
            CTL_GT_RX_RESET_A::ENABLE
        } else {
            CTL_GT_RX_RESET_A::DISABLE
        }
    }

    /// Whether the field is `DISABLE`.
    pub fn is_disable(&self) -> (r: bool)
        ensures
            r == !self.bits,
    {
        self.variant() == CTL_GT_RX_RESET_A::DISABLE
    }

    /// Whether the field is `ENABLE`.
    pub fn is_enable(&self) -> (r: bool)
        ensures
            r == self.bits,
    {
        self.variant() == CTL_GT_RX_RESET_A::ENABLE
    }
}

impl CTL_GT_TX_RESET_R {
    /// The field's value.
    pub fn variant(&self) -> (r: CTL_GT_TX_RESET_A)
        ensures
            r == if self.bits {
                CTL_GT_TX_RESET_A::ENABLE
            } else {
                CTL_GT_TX_RESET_A::DISABLE
            },
    {
        if self.bits {
            CTL_GT_TX_RESET_A::ENABLE
        } else {
            CTL_GT_TX_RESET_A::DISABLE
        }
    }

    /// Whether the field is `DISABLE`.
    pub fn is_disable(&self) -> (r: bool)
        ensures
            r == !self.bits,
    {
        self.variant() == CTL_GT_TX_RESET_A::DISABLE
    }

    /// Whether the field is `ENABLE`.
    pub fn is_enable(&self) -> (r: bool)
        ensures
            r == self.bits,
    {
        self.variant() == CTL_GT_TX_RESET_A::ENABLE
    }
}

impl R {
    /// Field `ctl_gt_reset_all`, bit 0.
    pub fn ctl_gt_reset_all(&self) -> (r: CTL_GT_RESET_ALL_R)
        ensures
            r.bits == bit_of(self.bits, 0),
    {
        let b = self.bits;
        proof {
            assert((b >> 0u32) & 1 == b & 1) by (bit_vector);
        }
        CTL_GT_RESET_ALL_R { bits: (self.bits & 1) != 0 }
    }

    /// Field `ctl_gt_rx_reset`, bit 1.
    pub fn ctl_gt_rx_reset(&self) -> (r: CTL_GT_RX_RESET_R)
        ensures
            r.bits == bit_of(self.bits, 1),
    {
        CTL_GT_RX_RESET_R { bits: ((self.bits >> 1) & 1) != 0 }
    }

    /// Field `ctl_gt_tx_reset`, bit 2.
    pub fn ctl_gt_tx_reset(&self) -> (r: CTL_GT_TX_RESET_R)
        ensures
            r.bits == bit_of(self.bits, 2),
    {
        CTL_GT_TX_RESET_R { bits: ((self.bits >> 2) & 1) != 0 }
    }
}

/// Writer of field `ctl_gt_reset_all`.
pub struct CTL_GT_RESET_ALL_W<'a> {
    pub w: &'a mut W,
}

/// Writer of field `ctl_gt_rx_reset`.
pub struct CTL_GT_RX_RESET_W<'a> {
    pub w: &'a mut W,
}

/// Writer of field `ctl_gt_tx_reset`.
pub struct CTL_GT_TX_RESET_W<'a> {
    pub w: &'a mut W,
}

/// `bits` with bit `n` set to `v`.
fn set_bit(bits: u32, n: u32, v: bool) -> (r: u32)
    requires
        n < 32,
    ensures
        r == with_bit(bits, n, v),
{
    if v {
        bits | (1u32 << n)
    } else {
        bits & !(1u32 << n)
    }
}

impl<'a> CTL_GT_RESET_ALL_W<'a> {
    /// Sets the field to `variant`.
    pub fn variant(self, variant: CTL_GT_RESET_ALL_A) -> (r: &'a mut W)
        ensures
            r.bits == with_bit(old(self.w).bits, 0, variant == CTL_GT_RESET_ALL_A::ENABLE),
            final(self.w).bits == final(r).bits,
    {
        let w = self.w;
        w.bits = set_bit(w.bits, 0, variant == CTL_GT_RESET_ALL_A::ENABLE);
        w
    }

    /// Sets the field to `0`.
    pub fn disable(self) -> (r: &'a mut W)
        ensures
            r.bits == with_bit(old(self.w).bits, 0, false),
            final(self.w).bits == final(r).bits,
    {
        self.variant(CTL_GT_RESET_ALL_A::DISABLE)
    }

    /// Sets the field to `1`.
    pub fn enable(self) -> (r: &'a mut W)
        ensures
            r.bits == with_bit(old(self.w).bits, 0, true),
            final(self.w).bits == final(r).bits,
    {
        self.variant(CTL_GT_RESET_ALL_A::ENABLE)
    }
}

impl<'a> CTL_GT_RX_RESET_W<'a> {
    /// Sets the field to `variant`.
    pub fn variant(self, variant: CTL_GT_RX_RESET_A) -> (r: &'a mut W)
        ensures
            r.bits == with_bit(old(self.w).bits, 1, variant == CTL_GT_RX_RESET_A::ENABLE),
            final(self.w).bits == final(r).bits,
    {
        let w = self.w;
        w.bits = set_bit(w.bits, 1, variant == CTL_GT_RX_RESET_A::ENABLE);
        w
    }

    /// Sets the field to `0`.
    pub fn disable(self) -> (r: &'a mut W)
        ensures
            r.bits == with_bit(old(self.w).bits, 1, false),
            final(self.w).bits == final(r).bits,
    {
        self.variant(CTL_GT_RX_RESET_A::DISABLE)
    }

    /// Sets the field to `1`.
    pub fn enable(self) -> (r: &'a mut W)
        ensures
            r.bits == with_bit(old(self.w).bits, 1, true),
            final(self.w).bits == final(r).bits,
    {
        self.variant(CTL_GT_RX_RESET_A::ENABLE)
    }
}

impl<'a> CTL_GT_TX_RESET_W<'a> {
    /// Sets the field to `variant`.
    pub fn variant(self, variant: CTL_GT_TX_RESET_A) -> (r: &'a mut W)
        ensures
            r.bits == with_bit(old(self.w).bits, 2, variant == CTL_GT_TX_RESET_A::ENABLE),
            final(self.w).bits == final(r).bits,
    {
        let w = self.w;
        w.bits = set_bit(w.bits, 2, variant == CTL_GT_TX_RESET_A::ENABLE);
        w
    }

    /// Sets the field to `0`.
    pub fn disable(self) -> (r: &'a mut W)
        ensures
            r.bits == with_bit(old(self.w).bits, 2, false),
            final(self.w).bits == final(r).bits,
    {
        self.variant(CTL_GT_TX_RESET_A::DISABLE)
    }

    /// Sets the field to `1`.
    pub fn enable(self) -> (r: &'a mut W)
        ensures
            r.bits == with_bit(old(self.w).bits, 2, true),
            final(self.w).bits == final(r).bits,
    {
        self.variant(CTL_GT_TX_RESET_A::ENABLE)
    }
}

impl W {
    /// Writer of field `ctl_gt_reset_all`, bit 0.
    pub fn ctl_gt_reset_all(&mut self) -> (r: CTL_GT_RESET_ALL_W<'_>)
        ensures
            *r.w == *old(self),
            *final(self) == *final(r.w),
    {
        CTL_GT_RESET_ALL_W { w: self }
    }

    /// Writer of field `ctl_gt_rx_reset`, bit 1.
    pub fn ctl_gt_rx_reset(&mut self) -> (r: CTL_GT_RX_RESET_W<'_>)
        ensures
            *r.w == *old(self),
            *final(self) == *final(r.w),
    {
        CTL_GT_RX_RESET_W { w: self }
    }

    /// Writer of field `ctl_gt_tx_reset`, bit 2.
    pub fn ctl_gt_tx_reset(&mut self) -> (r: CTL_GT_TX_RESET_W<'_>)
        ensures
            *r.w == *old(self),
            *final(self) == *final(r.w),
    {
        CTL_GT_TX_RESET_W { w: self }
    }

    /// Writes raw bits to the register.
    pub fn bits(&mut self, bits: u32)
        ensures
            final(self).bits == bits,
    {
        self.bits = bits;
    }
}

/// A field's bit, turned into its value and back into a bit, is the bit
/// it was.
pub proof fn lemma_field_bit_round_trip(b: bool)
    ensures
        <bool as vstd::std_specs::convert::FromSpec<CTL_GT_RESET_ALL_A>>::from_spec(
            if b { CTL_GT_RESET_ALL_A::ENABLE } else { CTL_GT_RESET_ALL_A::DISABLE },
        ) == b,
        <bool as vstd::std_specs::convert::FromSpec<CTL_GT_RX_RESET_A>>::from_spec(
            if b { CTL_GT_RX_RESET_A::ENABLE } else { CTL_GT_RX_RESET_A::DISABLE },
        ) == b,
        <bool as vstd::std_specs::convert::FromSpec<CTL_GT_TX_RESET_A>>::from_spec(
            if b { CTL_GT_TX_RESET_A::ENABLE } else { CTL_GT_TX_RESET_A::DISABLE },
        ) == b,
{
}

} // verus!
