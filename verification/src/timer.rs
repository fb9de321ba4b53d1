use vstd::prelude::*;
use crate::bus::{Bus, BusView, timer_threshold, tima_after};

verus! {

/// A divider and timer that drive the bus's DIV and TIMA registers.
pub struct Timer {
    pub div_counter: u16,
    pub tima_counter: u16,
}

impl Timer {
    pub fn new() -> (t: Self)
        ensures
            t.div_counter == 0,
            t.tima_counter == 0,
    {
        Self { div_counter: 0, tima_counter: 0 }
    }

    /// Whether stepping by `cycles` is defined: the counters must not overflow.
    pub open spec fn step_ok(&self, cycles: u8, tac: u8) -> bool {
        &&& self.div_counter + cycles <= 0xFFFF
        &&& tac & 0x04 != 0 ==> self.tima_counter + cycles <= 0xFFFF
    }

    /// Runs `cycles` T-cycles: DIV advances by one when the divider
    /// counter passes 256, and while TAC enables it TIMA advances once per
    /// threshold, reloading from TMA and requesting the timer interrupt on
    /// overflow.
    pub fn step(&mut self, cycles: u8, bus: &mut Bus)
        requires
            old(self).step_ok(cycles, old(bus).tac),
        ensures
            ({
                let d = old(self).div_counter + cycles;
                let bus1 = if d >= 256 {
                    BusView { div: ((old(bus).div + 1) % 0x10000) as u16, ..old(bus)@ }
                } else {
                    old(bus)@
                };
                &&& final(self).div_counter == if d >= 256 { d - 256 } else { d }
                &&& if old(bus).tac & 0x04 == 0 {
                    &&& final(self).tima_counter == old(self).tima_counter
                    &&& final(bus)@ == bus1
                } else {
                    let t = timer_threshold(old(bus).tac) as int;
                    let total = old(self).tima_counter + cycles;
                    let after = tima_after(old(bus).tima, old(bus).tma, (total / t) as nat);
                    &&& final(self).tima_counter == total % t
                    &&& final(bus)@ == (BusView {
                        tima: after.0,
                        iflag: if after.1 { old(bus).iflag | 0x04 } else { old(bus).iflag },
                        ..bus1
                    })
                }
            }),
    {
        self.div_counter += cycles as u16;
        if self.div_counter >= 256 {
            self.div_counter -= 256;
            bus.set_div(bus.get_div().wrapping_add(1));
        }

        if bus.get_tac() & 0x04 == 0 {
            return;
        }

        let tac = bus.get_tac();
        assert(tac & 0x03 == tac % 4) by { crate::bits::lemma_u8_bits(); }
        let freq: u16 = match bus.get_tac() & 0x03 {
            0 => 1024,
            1 => 16,
            2 => 64,
            _ => 256,
        };

        self.tima_counter += cycles as u16;
        let ghost total = self.tima_counter as int;
        let ghost mid = bus@;
        let ghost dc = self.div_counter;
        let ghost mut n: nat = 0;
        assert(1u8 << 2u8 == 0x04) by { crate::bits::lemma_u8_bits(); }
        while self.tima_counter >= freq
            invariant
                freq == timer_threshold(tac),
                freq > 0,
                self.tima_counter as int == total - n * freq,
                bus.tima == tima_after(mid.tima, mid.tma, n).0,
                bus.iflag == if tima_after(mid.tima, mid.tma, n).1 { mid.iflag | 0x04 } else { mid.iflag },
                bus@ == (BusView { tima: bus.tima, iflag: bus.iflag, ..mid }),
                1u8 << 2u8 == 0x04,
                self.div_counter == dc,
            decreases self.tima_counter,
        {
            self.tima_counter -= freq;
            proof {
                let g = mid.iflag;
                assert((g | 0x04) | 0x04 == g | 0x04) by { crate::bits::lemma_u8_bits(); }
            }
            if bus.get_tima() == 0xFF {
                bus.set_tima(bus.get_tma());
                bus.request_interrupt(2);
            } else {
                bus.set_tima(bus.get_tima().wrapping_add(1));
            }
            proof { n = n + 1; }
        }
        proof {
            let t = freq as int;
            assert(n == total / t && self.tima_counter == total % t) by (nonlinear_arith)
                requires self.tima_counter as int == total - n * t, 0 <= self.tima_counter < t, t > 0;
        }
    }
}

} // verus!
