//! Decisions of the coroutine helpers: the one-shot and every-other-poll
//! awaiters, the timer awaiter, and whether a coroutine must yield to a
//! more urgent one.
use vstd::prelude::*;
use bit_field::BitField;

verus! {

/// Number of coroutine priorities; 0 is the most urgent.
pub const PRIO_NUM: usize = 8;

/// An awaiter that is pending at every odd poll and ready at every even
/// one.
pub struct ReadHelper(pub usize);

impl ReadHelper {
    /// A helper that has not been polled.
    pub fn new() -> (r: Self)
        ensures
            r.0 == 0,
    {
        ReadHelper(0)
    }

    /// Counts a poll; ready exactly when the count becomes even.
    pub fn poll(&mut self) -> (ready: bool)
        requires
            old(self).0 < usize::MAX,
        ensures
            final(self).0 == old(self).0 + 1,
            ready == (final(self).0 % 2 == 0),
    {
        self.0 = self.0 + 1;
        let n = self.0;
        proof {
            assert(((n & 1) != 1) == (n % 2 == 0)) by (bit_vector);
        }
        (self.0 & 1) != 1
    }
}

/// An awaiter that is pending once, then ready.
pub struct AwaitHelper {
    pub flag: bool,
}

impl AwaitHelper {
    /// A helper that has not been polled.
    pub fn new() -> (r: Self)
        ensures
            !r.flag,
    {
        AwaitHelper { flag: false }
    }

    /// Pending at the first poll, ready at every later one.
    pub fn poll(&mut self) -> (ready: bool)
        ensures
            ready == old(self).flag,
            final(self).flag,
    {
        if self.flag == false {
            self.flag = true;
            return false;
        }
        true
    }
}

/// An awaiter that is ready once `interval` has passed since `time`.
pub struct TimerHelper {
    pub interval: usize,
    pub time: usize,
}

impl TimerHelper {
    /// A timer of `interval` started at `now`.
    pub fn new(interval: usize, now: usize) -> (r: Self)
        ensures
            r.interval == interval,
            r.time == now,
    {
        TimerHelper { interval, time: now }
    }

    /// The moment the timer expires.
    pub fn deadline(&self) -> (r: usize)
        requires
            self.time + self.interval <= usize::MAX,
        ensures
            r == self.time + self.interval,
    {
        self.time + self.interval
    }

    /// Ready when the time `cur_time` has reached the deadline; pending
    /// otherwise, when the caller arms a timer for the deadline.
    pub fn poll(&self, cur_time: usize) -> (ready: bool)
        requires
            self.time + self.interval <= usize::MAX,
        ensures
            ready == (self.time + self.interval <= cur_time),
    {
        !(self.time + self.interval > cur_time)
    }
}

/// Bit `bit` of `x`; calls `BitField::get_bit` of the `bit_field` crate,
/// which the crate documents as the bit at that index, index 0 being the
/// least significant, and which panics when the index is not below the
/// width of `usize`.
#[verifier::external_body]
fn usize_get_bit(x: usize, bit: usize) -> (r: bool)
    requires
        bit < usize::BITS,
    ensures
        r == (x & (1usize << bit) != 0),
{
    x.get_bit(bit)
}

/// Whether some priority more urgent than `prio` (a smaller number, among
/// the `PRIO_NUM` priorities) has its bit set in `global_bitmap`: a
/// coroutine of priority `prio` must then yield.
pub fn check_yield(global_bitmap: usize, prio: usize) -> (r: bool)
    ensures
        r == exists|i: usize| i < PRIO_NUM && i < prio && (global_bitmap & (1usize << i) != 0),
{
    let mut i: usize = 0;
    while i < PRIO_NUM
        invariant
            i <= PRIO_NUM,
            forall|k: usize| k < i && k < prio ==> (global_bitmap & (1usize << k) == 0),
        decreases PRIO_NUM - i,
    {
        if usize_get_bit(global_bitmap, i) && i < prio {
            return true;
        }
        i = i + 1;
    }
    false
}

} // verus!
