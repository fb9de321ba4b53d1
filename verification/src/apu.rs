use vstd::prelude::*;
use vstd::arithmetic::div_mod::{lemma_div_minus_one, lemma_mod_sub_multiples_vanish};

verus! {

/// The waveform bit of a pulse channel at step `pos` of duty pattern `duty`
/// (12.5%, 25%, 50%, 75%).
pub open spec fn spec_duty_bit(duty: u8, pos: u8) -> u8 {
    if duty == 0 {
        if pos == 7 { 1 } else { 0 }
    } else if duty == 1 {
        if pos == 0 || pos == 7 { 1 } else { 0 }
    } else if duty == 2 {
        if pos == 0 || pos == 5 || pos == 6 || pos == 7 { 1 } else { 0 }
    } else {
        if pos == 0 { 0 } else { 1 }
    }
}

pub fn duty_bit(duty: u8, pos: u8) -> (b: u8)
    requires
        duty < 4,
        pos < 8,
    ensures
        b == spec_duty_bit(duty, pos),
{
    if duty == 0 {
        if pos == 7 { 1 } else { 0 }
    } else if duty == 1 {
        if pos == 0 || pos == 7 { 1 } else { 0 }
    } else if duty == 2 {
        if pos == 0 || pos == 5 || pos == 6 || pos == 7 { 1 } else { 0 }
    } else {
        if pos == 0 { 0 } else { 1 }
    }
}

/// The audio unit: frame sequencer, three tone channels and a noise channel.
#[derive(Debug)]
pub struct Apu {
    pub div_apu: u16,
    pub frame_seq_step: u8,
    pub ch1: PulseChannel,
    pub ch2: PulseChannel,
    pub ch3: PulseChannel,
    pub ch4: NoiseChannel,
    pub nr50: u8,
    pub nr51: u8,
    pub nr52: u8,
}

/// A sound channel selector.
#[derive(Debug, Clone, Copy, PartialEq, Eq, Structural)]
pub enum Channel {
    Ch1,
    Ch2,
    Ch3,
    Ch4,
}

/// A square-wave channel with length counter and volume envelope.
#[derive(Debug, PartialEq, Eq, Structural)]
pub struct PulseChannel {
    pub sweep: u8,
    pub duty_len: u8,
    pub envelope: u8,
    pub freq_lo: u8,
    pub freq_hi_ctrl: u8,
    pub enabled: bool,
    pub dac_enabled: bool,
    pub freq_timer: u16,
    pub duty_pos: u8,
    pub length_timer: u16,
    pub envelope_timer: u8,
    pub current_volume: u8,
    pub sweep_timer: u8,
    pub sweep_enable: bool,
    pub shadow_freq: u16,
}

impl PulseChannel {
    /// The channel with every register and counter at zero.
    pub open spec fn zeroed() -> PulseChannel {
        PulseChannel {
            sweep: 0,
            duty_len: 0,
            envelope: 0,
            freq_lo: 0,
            freq_hi_ctrl: 0,
            enabled: false,
            dac_enabled: false,
            freq_timer: 0,
            duty_pos: 0,
            length_timer: 0,
            envelope_timer: 0,
            current_volume: 0,
            sweep_timer: 0,
            sweep_enable: false,
            shadow_freq: 0,
        }
    }

    pub fn set_sweep(&mut self, value: u8)
        ensures
            *final(self) == (PulseChannel { sweep: value, ..*old(self) }),
    {
        self.sweep = value;
    }

    pub fn set_duty(&mut self, value: u8)
        ensures
            *final(self) == (PulseChannel { duty_len: value, ..*old(self) }),
    {
        self.duty_len = value;
    }

    pub fn set_freq_lo(&mut self, value: u8)
        ensures
            *final(self) == (PulseChannel { freq_lo: value, ..*old(self) }),
    {
        self.freq_lo = value;
    }

    /// The 11-bit period value: low nibble of NRx4 above NRx3.
    pub open spec fn spec_frequency(&self) -> int {
        (self.freq_hi_ctrl % 16) as int * 256 + self.freq_lo as int
    }

    pub fn frequency(&self) -> (f: u16)
        ensures
            f == self.spec_frequency(),
    {
        let hi = self.freq_hi_ctrl;
        let lo = self.freq_lo;
        assert(((hi as u16 & 0b1111) << 8u16) | lo as u16 == (hi % 16) as u16 * 256 + lo as u16) by { crate::bits::lemma_u16_bits(); }
        ((self.freq_hi_ctrl as u16 & 0b1111) << 8) | self.freq_lo as u16
    }

    pub fn duty_cycle(&self) -> (d: usize)
        ensures
            d == self.duty_len / 64,
    {
        let v = self.duty_len;
        assert((v >> 6u8) & 0b11 == v / 64) by { crate::bits::lemma_u8_bits(); }
        ((self.duty_len >> 6) & 0b11) as usize
    }

    pub fn initial_length(&self) -> (l: u16)
        ensures
            l == self.duty_len % 64,
    {
        let v = self.duty_len;
        assert(v & 0b0011_1111 == v % 64) by { crate::bits::lemma_u8_bits(); }
        (self.duty_len & 0b0011_1111) as u16
    }

    pub fn initial_volume(&self) -> (v: u8)
        ensures
            v == self.envelope / 16,
    {
        let e = self.envelope;
        assert(e >> 4u8 == e / 16) by { crate::bits::lemma_u8_bits(); }
        self.envelope >> 4
    }

    pub open spec fn spec_envelope_increasing(&self) -> bool {
        (self.envelope / 8) % 2 == 1
    }

    pub fn envelope_increasing(&self) -> (b: bool)
        ensures
            b == self.spec_envelope_increasing(),
    {
        let e = self.envelope;
        assert((e >> 3u8) & 1 == (e / 8) % 2) by { crate::bits::lemma_u8_bits(); }
        (self.envelope >> 3) & 1 == 1
    }

    pub fn envelope_period(&self) -> (p: u8)
        ensures
            p == self.envelope % 16,
    {
        let e = self.envelope;
        assert(e & 0b1111 == e % 16) by { crate::bits::lemma_u8_bits(); }
        self.envelope & 0b1111
    }

    pub open spec fn spec_length_enabled(&self) -> bool {
        (self.freq_hi_ctrl / 64) % 2 == 1
    }

    pub fn length_enabled(&self) -> (b: bool)
        ensures
            b == self.spec_length_enabled(),
    {
        let v = self.freq_hi_ctrl;
        assert((v >> 6u8) & 1 == (v / 64) % 2) by { crate::bits::lemma_u8_bits(); }
        (self.freq_hi_ctrl >> 6) & 1 == 1
    }

    /// Writing NRx2 sets the envelope; a DAC whose top five bits are all
    /// clear is off and turns the channel off.
    pub fn write_envelope(&mut self, val: u8)
        ensures
            final(self).envelope == val,
            final(self).dac_enabled == (val >= 8),
            final(self).enabled == (old(self).enabled && val >= 8),
            *final(self) == (PulseChannel {
                envelope: val,
                dac_enabled: val >= 8,
                enabled: old(self).enabled && val >= 8,
                ..*old(self)
            }),
    {
        assert((val & 0b1111_1000 != 0) == (val >= 8)) by { crate::bits::lemma_u8_bits(); }
        self.envelope = val;
        self.dac_enabled = (val & 0b1111_1000) != 0;
        if !self.dac_enabled {
            self.enabled = false;
        }
    }

    /// The number of T-cycles between two waveform steps.
    pub open spec fn spec_period(&self) -> int {
        (2048 - self.spec_frequency()) * 4
    }

    /// Triggering restarts the channel: it runs if its DAC is on, an
    /// expired length counter is reloaded with 64, and the timer, envelope
    /// and volume restart from the registers.
    pub fn trigger(&mut self)
        requires
            old(self).spec_frequency() <= 2048,
        ensures
            *final(self) == (PulseChannel {
                enabled: old(self).dac_enabled,
                length_timer: if old(self).length_timer == 0 { 64 } else { old(self).length_timer },
                freq_timer: old(self).spec_period() as u16,
                envelope_timer: old(self).envelope % 16,
                current_volume: old(self).envelope / 16,
                ..*old(self)
            }),
    {
        self.enabled = self.dac_enabled;
        if self.length_timer == 0 {
            self.length_timer = 64;
        }
        self.freq_timer = (2048 - self.frequency()) * 4;
        self.envelope_timer = self.envelope_period();
        self.current_volume = self.initial_volume();
    }

    /// Whether advancing the timer by `cycles` is defined: a reload needs a
    /// period value of at most 2048, and a zero period can only absorb an
    /// exact expiry.
    pub open spec fn step_timer_ok(&self, cycles: u16) -> bool {
        ||| self.freq_timer > cycles
        ||| self.duty_pos < 255 && self.spec_frequency() < 2048
        ||| self.duty_pos < 255 && self.spec_frequency() == 2048 && cycles == self.freq_timer
    }

    /// Whether `step_timer(cycles)` is defined (see `step_timer_ok`).
    pub fn can_step_timer(&self, cycles: u16) -> (ok: bool)
        ensures
            ok == self.step_timer_ok(cycles),
    {
        let f = self.frequency();
        self.freq_timer > cycles || (self.duty_pos < 255 && (f < 2048 || (f == 2048 && cycles == self.freq_timer)))
    }

    /// The channel after `cycles` T-cycles of its frequency timer: each
    /// expiry advances the duty step and reloads the timer with the period.
    pub open spec fn spec_step_timer(&self, cycles: u16) -> PulseChannel {
        if cycles < self.freq_timer {
            PulseChannel { freq_timer: (self.freq_timer - cycles) as u16, ..*self }
        } else {
            let r = cycles - self.freq_timer;
            let p = self.spec_period();
            let steps = if r == 0 { 1 } else { 1 + r / p };
            PulseChannel {
                freq_timer: (if r == 0 { p } else { p - r % p }) as u16,
                duty_pos: ((self.duty_pos + steps) % 8) as u8,
                ..*self
            }
        }
    }

    pub fn step_timer(&mut self, cycles: u16)
        requires
            old(self).step_timer_ok(cycles),
        ensures
            *final(self) == old(self).spec_step_timer(cycles),
        decreases cycles, if old(self).freq_timer == 0 { 1int } else { 0int },
    {
        if self.freq_timer <= cycles {
            let remainder = cycles - self.freq_timer;
            self.freq_timer = (2048 - self.frequency()) * 4;
            self.duty_pos = (self.duty_pos + 1) % 8;
            if remainder > 0 {
                let ghost mid = *self;
                let p = self.freq_timer;
                assert(p > 0);
                self.step_timer(remainder);
                proof {
                    let r = remainder as int;
                    let pi = p as int;
                    let d = old(self).duty_pos as int;
                    if r == pi {
                        assert(r / pi == 1) by (nonlinear_arith) requires r == pi, pi > 0;
                        assert(r % pi == 0) by (nonlinear_arith) requires r == pi, pi > 0;
                        assert((((d + 1) % 8) + 1) % 8 == (d + 2) % 8) by (nonlinear_arith)
                            requires d >= 0;
                    } else if r > pi {
                        lemma_div_minus_one(r, pi);
                        lemma_mod_sub_multiples_vanish(r, pi);
                        let k = 1 + (r - pi) / pi;
                        assert((((d + 1) % 8) + k) % 8 == (d + 1 + k) % 8) by (nonlinear_arith)
                            requires k >= 0, d >= 0;
                    } else {
                        assert(r / pi == 0) by (nonlinear_arith) requires 0 < r < pi;
                        assert(r % pi == r) by (nonlinear_arith) requires 0 < r < pi;
                    }
                }
            }
        } else {
            self.freq_timer -= cycles;
        }
    }

    /// The channel after one length-counter clock: an enabled counter
    /// counts down and turns the channel off when it reaches zero.
    pub open spec fn spec_clock_length(&self) -> PulseChannel {
        if self.spec_length_enabled() && self.length_timer > 0 {
            PulseChannel {
                length_timer: (self.length_timer - 1) as u16,
                enabled: self.enabled && self.length_timer != 1,
                ..*self
            }
        } else {
            *self
        }
    }

    pub fn clock_length(&mut self)
        ensures
            *final(self) == old(self).spec_clock_length(),
    {
        if self.length_enabled() && self.length_timer > 0 {
            self.length_timer -= 1;
            if self.length_timer == 0 {
                self.enabled = false;
            }
        }
    }

    /// The channel after one envelope clock.
    pub open spec fn spec_clock_envelope(&self) -> PulseChannel {
        let period = self.envelope % 16;
        if period == 0 {
            *self
        } else {
            let t = if self.envelope_timer > 0 { self.envelope_timer - 1 } else { 0 };
            if t == 0 {
                let v = self.current_volume;
                let nv = if self.spec_envelope_increasing() && v < 15 {
                    v + 1
                } else if !self.spec_envelope_increasing() && v > 0 {
                    v - 1
                } else {
                    v as int
                };
                PulseChannel { envelope_timer: period, current_volume: nv as u8, ..*self }
            } else {
                PulseChannel { envelope_timer: t as u8, ..*self }
            }
        }
    }

    pub fn clock_envelope(&mut self)
        ensures
            *final(self) == old(self).spec_clock_envelope(),
    {
        let period = self.envelope_period();
        if period == 0 {
            return;
        }
        if self.envelope_timer > 0 {
            self.envelope_timer -= 1;
        }
        if self.envelope_timer == 0 {
            self.envelope_timer = period;
            if self.envelope_increasing() && self.current_volume < 15 {
                self.current_volume += 1;
            } else if !self.envelope_increasing() && self.current_volume > 0 {
                self.current_volume -= 1;
            }
        }
    }

    /// The output level (0 to 15): the waveform bit times the volume, or
    /// silence when the channel or its DAC is off.
    pub open spec fn spec_sample_level(&self) -> int {
        if !self.enabled || !self.dac_enabled {
            0
        } else {
            spec_duty_bit(self.duty_len / 64, self.duty_pos) as int * self.current_volume as int
        }
    }

    pub fn sample_level(&self) -> (level: u16)
        requires
            self.duty_pos < 8,
        ensures
            level == self.spec_sample_level(),
    {
        if !self.enabled || !self.dac_enabled {
            return 0;
        }
        let bit = duty_bit(self.duty_cycle() as u8, self.duty_pos);
        let v = self.current_volume;
        assert((bit as u16) * (v as u16) <= 255) by (nonlinear_arith) requires bit <= 1;
        bit as u16 * self.current_volume as u16
    }
}

/// A noise channel: a linear-feedback shift register clocked by a timer.
#[derive(Debug, PartialEq, Eq, Structural)]
pub struct NoiseChannel {
    pub duty_len: u8,
    pub envelope: u8,
    pub freq_rand: u8,
    pub freq_hi_ctrl: u8,
    pub enabled: bool,
    pub dac_enabled: bool,
    pub envelope_timer: u8,
    pub length_timer: u8,
    pub current_volume: u8,
    pub lfsr: u16,
    pub freq_timer: u32,
}

/// The clock divisor selected by the low three bits of NR43.
pub open spec fn spec_divisor(r: u8) -> u32 {
    if r == 0 { 8 } else { (16 * r) as u32 }
}

/// One shift of the noise register: the XOR of its two low bits enters at
/// bit 14, and also at bit 6 in 7-bit mode.
pub open spec fn spec_shift_lfsr(lfsr: u16, width7: bool) -> u16 {
    let x = (lfsr & 1) ^ ((lfsr >> 1u16) & 1);
    let shifted = (lfsr >> 1u16) | (x << 14u16);
    if width7 {
        (shifted & !(1u16 << 6u16)) | (x << 6u16)
    } else {
        shifted
    }
}

/// The noise register after `n` shifts.
pub open spec fn spec_lfsr_after(lfsr: u16, width7: bool, n: nat) -> u16
    decreases n,
{
    if n == 0 {
        lfsr
    } else {
        spec_lfsr_after(spec_shift_lfsr(lfsr, width7), width7, (n - 1) as nat)
    }
}

impl NoiseChannel {
    pub open spec fn zeroed() -> NoiseChannel {
        NoiseChannel {
            duty_len: 0,
            envelope: 0,
            freq_rand: 0,
            freq_hi_ctrl: 0,
            enabled: false,
            dac_enabled: false,
            envelope_timer: 0,
            length_timer: 0,
            current_volume: 0,
            lfsr: 0,
            freq_timer: 0,
        }
    }

    /// NR41 loads the length counter with 64 minus its low six bits.
    pub fn set_length(&mut self, value: u8)
        ensures
            *final(self) == (NoiseChannel { length_timer: (64 - value % 64) as u8, ..*old(self) }),
    {
        assert(value & 0x3F == value % 64) by { crate::bits::lemma_u8_bits(); }
        self.length_timer = 64 - (value & 0x3F);
    }

    pub fn write_envelope(&mut self, val: u8)
        ensures
            *final(self) == (NoiseChannel {
                envelope: val,
                dac_enabled: val >= 8,
                enabled: old(self).enabled && val >= 8,
                ..*old(self)
            }),
    {
        assert((val & 0b1111_1000 != 0) == (val >= 8)) by { crate::bits::lemma_u8_bits(); }
        self.envelope = val;
        self.dac_enabled = (val & 0b1111_1000) != 0;
        if !self.dac_enabled {
            self.enabled = false;
        }
    }

    pub fn set_freq_rand(&mut self, value: u8)
        ensures
            *final(self) == (NoiseChannel { freq_rand: value, ..*old(self) }),
    {
        self.freq_rand = value;
    }

    /// The number of T-cycles between two shifts of the noise register.
    pub open spec fn spec_period(&self) -> u32 {
        (spec_divisor(self.freq_rand % 8) * pow2_u32(self.freq_rand / 16)) as u32
    }

    pub fn trigger(&mut self)
        ensures
            *final(self) == (NoiseChannel {
                enabled: old(self).dac_enabled,
                length_timer: if old(self).length_timer == 0 { 64 } else { old(self).length_timer },
                freq_timer: old(self).spec_period(),
                lfsr: 0x7FFF,
                envelope_timer: old(self).envelope % 8,
                current_volume: old(self).envelope / 16,
                ..*old(self)
            }),
    {
        self.enabled = self.dac_enabled;
        if self.length_timer == 0 {
            self.length_timer = 64;
        }
        self.freq_timer = self.period();
        self.lfsr = 0x7FFF;
        self.envelope_timer = self.envelope_period();
        self.current_volume = self.initial_volume();
    }

    pub fn envelope_period(&self) -> (p: u8)
        ensures
            p == self.envelope % 8,
    {
        let e = self.envelope;
        assert(e & 0b0111 == e % 8) by { crate::bits::lemma_u8_bits(); }
        self.envelope & 0b0111
    }

    pub fn initial_volume(&self) -> (v: u8)
        ensures
            v == self.envelope / 16,
    {
        let e = self.envelope;
        assert(e >> 4u8 == e / 16) by { crate::bits::lemma_u8_bits(); }
        self.envelope >> 4
    }

    pub fn divisor(&self) -> (d: u32)
        ensures
            d == spec_divisor(self.freq_rand % 8),
    {
        let fr = self.freq_rand;
        assert(fr & 0b111 == fr % 8) by { crate::bits::lemma_u8_bits(); }
        let r = self.freq_rand & 0b111;
        match r {
            0 => 8,
            1 => 16,
            2 => 32,
            3 => 48,
            4 => 64,
            5 => 80,
            6 => 96,
            _ => 112,
        }
    }

    pub fn shift_amount(&self) -> (s: u8)
        ensures
            s == self.freq_rand / 16,
    {
        let fr = self.freq_rand;
        assert(fr >> 4u8 == fr / 16) by { crate::bits::lemma_u8_bits(); }
        self.freq_rand >> 4
    }

    pub open spec fn spec_width_mode_7bit(&self) -> bool {
        (self.freq_rand / 8) % 2 == 1
    }

    pub fn width_mode_7bit(&self) -> (b: bool)
        ensures
            b == self.spec_width_mode_7bit(),
    {
        let fr = self.freq_rand;
        assert((fr >> 3u8) & 1 == (fr / 8) % 2) by { crate::bits::lemma_u8_bits(); }
        (self.freq_rand >> 3) & 1 == 1
    }

    pub fn period(&self) -> (p: u32)
        ensures
            p == self.spec_period(),
            p >= 8,
    {
        let d = self.divisor();
        let s = self.shift_amount();
        proof {
            lemma_shl_is_pow2(d, s);
            assert(8 <= d << s <= 3670016) by (bit_vector) requires 8 <= d <= 112, s < 16;
        }
        d << s
    }

    /// The channel after `cycles` T-cycles of its timer: each expiry
    /// shifts the noise register and reloads the timer with the period.
    pub open spec fn spec_step_timer(&self, cycles: u32) -> NoiseChannel {
        if cycles < self.freq_timer {
            NoiseChannel { freq_timer: (self.freq_timer - cycles) as u32, ..*self }
        } else {
            let r = cycles - self.freq_timer;
            let p = self.spec_period() as int;
            let steps = 1 + r / p;
            NoiseChannel {
                freq_timer: (p - r % p) as u32,
                lfsr: spec_lfsr_after(self.lfsr, self.spec_width_mode_7bit(), steps as nat),
                ..*self
            }
        }
    }

    pub fn step_timer(&mut self, cycles: u32)
        ensures
            *final(self) == old(self).spec_step_timer(cycles),
        decreases cycles, if old(self).freq_timer == 0 { 1int } else { 0int },
    {
        if self.freq_timer <= cycles {
            let remainder = cycles - self.freq_timer;
            self.freq_timer = self.period();
            let ghost before = self.lfsr;
            self.shift_lfsr();
            if remainder > 0 {
                let p = self.freq_timer;
                let ghost w = old(self).spec_width_mode_7bit();
                self.step_timer(remainder);
                proof {
                    let r = remainder as int;
                    let pi = p as int;
                    if r >= pi {
                        let k = 1 + (r - pi) / pi;
                        assert(spec_lfsr_after(before, w, (k + 1) as nat)
                            == spec_lfsr_after(spec_shift_lfsr(before, w), w, k as nat));
                        lemma_div_minus_one(r, pi);
                        lemma_mod_sub_multiples_vanish(r, pi);
                    } else {
                        assert(r / pi == 0) by (nonlinear_arith) requires 0 < r < pi;
                        assert(r % pi == r) by (nonlinear_arith) requires 0 < r < pi;
                        assert(spec_lfsr_after(before, w, 1) == spec_shift_lfsr(before, w)) by {
                            reveal_with_fuel(spec_lfsr_after, 2);
                        }
                    }
                }
            } else {
                let p = self.freq_timer;
                proof {
                    assert(0int / (p as int) == 0) by (nonlinear_arith) requires p > 0;
                    assert(0int % (p as int) == 0) by (nonlinear_arith) requires p > 0;
                    assert(spec_lfsr_after(before, old(self).spec_width_mode_7bit(), 1) == self.lfsr) by {
                        reveal_with_fuel(spec_lfsr_after, 2);
                    }
                }
            }
        } else {
            self.freq_timer -= cycles;
        }
    }

    pub fn shift_lfsr(&mut self)
        ensures
            *final(self) == (NoiseChannel {
                lfsr: spec_shift_lfsr(old(self).lfsr, old(self).spec_width_mode_7bit()),
                ..*old(self)
            }),
    {
        let bit0 = self.lfsr & 1;
        let bit1 = (self.lfsr >> 1) & 1;
        let xor_result = bit0 ^ bit1;

        self.lfsr >>= 1;
        self.lfsr |= xor_result << 14;

        if self.width_mode_7bit() {
            self.lfsr &= !(1 << 6);
            self.lfsr |= xor_result << 6;
        }
    }

    /// The output level (0 to 15): the inverted low bit of the noise
    /// register times the volume, or silence when the channel is off.
    pub open spec fn spec_sample_level(&self) -> int {
        if !self.enabled || !self.dac_enabled {
            0
        } else {
            ((!self.lfsr) & 1) as int * self.current_volume as int
        }
    }

    pub fn sample_level(&self) -> (level: u16)
        ensures
            level == self.spec_sample_level(),
    {
        if !self.enabled || !self.dac_enabled {
            return 0;
        }
        let l = self.lfsr;
        let bit = (!self.lfsr) & 1;
        assert(bit <= 1) by (bit_vector) requires bit == (!l) & 1;
        let v = self.current_volume;
        assert(bit * (v as u16) <= 255) by (nonlinear_arith) requires bit <= 1;
        bit * self.current_volume as u16
    }
}

/// `2^n` as an integer.
pub open spec fn pow2_u32(n: u8) -> int
    decreases n,
{
    if n == 0 { 1 } else { 2 * pow2_u32((n - 1) as u8) }
}

/// Shifting a divisor left by at most 15 is multiplying by a power of two.
proof fn lemma_shl_is_pow2(d: u32, s: u8)
    requires
        8 <= d <= 112,
        s < 16,
    ensures
        d << s == d * pow2_u32(s),
    decreases s,
{
    if s == 0 {
        assert(d << 0u8 == d) by (bit_vector);
    } else {
        lemma_shl_is_pow2(d, (s - 1) as u8);
        let t = (s - 1) as u8;
        assert(d << s == (d << t) * 2) by (bit_vector) requires 8 <= d <= 112, 1 <= s < 16, t == s - 1;
        assert(d * pow2_u32(s) == 2 * (d * pow2_u32(t))) by (nonlinear_arith)
            requires pow2_u32(s) == 2 * pow2_u32(t);
    }
}

impl Default for NoiseChannel {
    fn default() -> (c: Self)
        ensures
            c == NoiseChannel::zeroed(),
    {
        NoiseChannel {
            duty_len: 0,
            envelope: 0,
            freq_rand: 0,
            freq_hi_ctrl: 0,
            enabled: false,
            dac_enabled: false,
            envelope_timer: 0,
            length_timer: 0,
            current_volume: 0,
            lfsr: 0,
            freq_timer: 0,
        }
    }
}

impl Default for PulseChannel {
    fn default() -> (c: Self)
        ensures
            c == PulseChannel::zeroed(),
    {
        PulseChannel {
            sweep: 0,
            duty_len: 0,
            envelope: 0,
            freq_lo: 0,
            freq_hi_ctrl: 0,
            enabled: false,
            dac_enabled: false,
            freq_timer: 0,
            duty_pos: 0,
            length_timer: 0,
            envelope_timer: 0,
            current_volume: 0,
            sweep_timer: 0,
            sweep_enable: false,
            shadow_freq: 0,
        }
    }
}

} // verus!

verus! {

/// A pulse channel after one frame-sequencer step: steps 0, 2, 4 and 6
/// clock the length counter and step 7 the envelope.
pub open spec fn spec_seq_clock(ch: PulseChannel, step: u8) -> PulseChannel {
    if step == 0 || step == 2 || step == 4 || step == 6 {
        ch.spec_clock_length()
    } else if step == 7 {
        ch.spec_clock_envelope()
    } else {
        ch
    }
}

/// A pulse channel and the sequencer step after `n` frame-sequencer ticks.
pub open spec fn spec_frame_seq(ch: PulseChannel, fs: u8, n: nat) -> (PulseChannel, u8)
    decreases n,
{
    if n == 0 {
        (ch, fs)
    } else {
        let prev = spec_frame_seq(ch, fs, (n - 1) as nat);
        let next = ((prev.1 + 1) % 8) as u8;
        (spec_seq_clock(prev.0, next), next)
    }
}

impl Apu {
    pub open spec fn zeroed() -> Apu {
        Apu {
            div_apu: 0,
            frame_seq_step: 0,
            ch1: PulseChannel::zeroed(),
            ch2: PulseChannel::zeroed(),
            ch3: PulseChannel::zeroed(),
            ch4: NoiseChannel::zeroed(),
            nr50: 0,
            nr51: 0,
            nr52: 0,
        }
    }

    /// The number of frame-sequencer ticks that `cycles` T-cycles cause.
    pub open spec fn seq_ticks(&self, cycles: u32) -> nat {
        (((self.div_apu + cycles % 0x10000) % 0x10000) / 8192) as nat
    }

    pub open spec fn step_ok(&self, cycles: u32) -> bool {
        let c = (cycles % 0x10000) as u16;
        &&& self.ch1.step_timer_ok(c)
        &&& self.ch2.step_timer_ok(c)
        &&& (self.frame_seq_step != 255 || self.seq_ticks(cycles) == 0)
    }

    /// The unit after `cycles` T-cycles: channels 1, 2 and 4 run their
    /// timers (the two pulse channels see the cycle count truncated to 16
    /// bits), and every 8192 cycles the frame sequencer clocks channel 2.
    pub open spec fn spec_step(&self, cycles: u32) -> Apu {
        let c = (cycles % 0x10000) as u16;
        let total = (self.div_apu + c) % 0x10000;
        let seq = spec_frame_seq(self.ch2.spec_step_timer(c), self.frame_seq_step, self.seq_ticks(cycles));
        Apu {
            ch1: self.ch1.spec_step_timer(c),
            ch2: seq.0,
            ch4: self.ch4.spec_step_timer(cycles),
            div_apu: (total % 8192) as u16,
            frame_seq_step: seq.1,
            ..*self
        }
    }

    /// Whether `step(cycles)` is defined (see `step_ok`).
    pub fn can_step(&self, cycles: u32) -> (ok: bool)
        ensures
            ok == self.step_ok(cycles),
    {
        assert(cycles as u16 == (cycles % 0x10000) as u16) by { crate::bits::lemma_u32_bits(); }
        let c = cycles as u16;
        let total = self.div_apu.wrapping_add(c);
        self.ch1.can_step_timer(c) && self.ch2.can_step_timer(c) && (self.frame_seq_step != 255 || total < 8192)
    }

    pub fn step(&mut self, cycles: u32)
        requires
            old(self).step_ok(cycles),
        ensures
            *final(self) == old(self).spec_step(cycles),
    {
        assert(cycles as u16 == (cycles % 0x10000) as u16) by { crate::bits::lemma_u32_bits(); }
        self.ch2.step_timer(cycles as u16);
        self.ch4.step_timer(cycles as u32);
        self.ch1.step_timer(cycles as u16);

        self.div_apu = self.div_apu.wrapping_add(cycles as u16);
        let ghost total = self.div_apu as int;
        let ghost ch2_start = self.ch2;
        let ghost fs_start = self.frame_seq_step;
        let ghost mid = *self;
        let ghost mut i: nat = 0;
        while self.div_apu >= 8192
            invariant
                total == old(self).div_apu as int + (cycles % 0x10000) - (if old(self).div_apu as int + (cycles % 0x10000) >= 0x10000 { 0x10000int } else { 0 }),
                self.div_apu as int == total - 8192 * i,
                (self.ch2, self.frame_seq_step) == spec_frame_seq(ch2_start, fs_start, i),
                i > 0 ==> self.frame_seq_step < 8,
                i == 0 ==> self.frame_seq_step == fs_start,
                fs_start == old(self).frame_seq_step,
                fs_start != 255 || total < 8192,
                *self == (Apu { ch2: self.ch2, frame_seq_step: self.frame_seq_step, div_apu: self.div_apu, ..mid }),
            decreases self.div_apu,
        {
            self.div_apu -= 8192;
            self.frame_seq_step = (self.frame_seq_step + 1) % 8;
            match self.frame_seq_step {
                0 | 2 | 4 | 6 => self.ch2.clock_length(),
                7 => self.ch2.clock_envelope(),
                _ => (),
            }
            proof { i = i + 1; }
        }
        proof {
            assert(total % 0x10000 == total);
            assert(i == total / 8192) by (nonlinear_arith)
                requires self.div_apu as int == total - 8192 * i, self.div_apu < 8192, self.div_apu >= 0;
        }
    }

    /// Powering the unit off clears every channel except its length
    /// counter, and the master volume and panning registers.
    pub fn power_off(&mut self)
        ensures
            *final(self) == (Apu {
                ch1: PulseChannel { length_timer: old(self).ch1.length_timer, ..PulseChannel::zeroed() },
                ch2: PulseChannel { length_timer: old(self).ch2.length_timer, ..PulseChannel::zeroed() },
                ch3: PulseChannel { length_timer: old(self).ch3.length_timer, ..PulseChannel::zeroed() },
                ch4: NoiseChannel { length_timer: old(self).ch4.length_timer, ..NoiseChannel::zeroed() },
                nr50: 0,
                nr51: 0,
                ..*old(self)
            }),
    {
        let ch1_len = self.ch1.length_timer;
        let ch2_len = self.ch2.length_timer;
        let ch3_len = self.ch3.length_timer;
        let ch4_len = self.ch4.length_timer;

        self.ch1 = PulseChannel::default();
        self.ch2 = PulseChannel::default();
        self.ch3 = PulseChannel::default();
        self.ch4 = NoiseChannel::default();

        self.ch1.length_timer = ch1_len;
        self.ch2.length_timer = ch2_len;
        self.ch3.length_timer = ch3_len;
        self.ch4.length_timer = ch4_len;

        self.nr50 = 0;
        self.nr51 = 0;
    }

    /// Whether the unit is powered (bit 7 of NR52).
    pub open spec fn powered(&self) -> bool {
        self.nr52 & 0x80 != 0
    }

    /// NR10 is written only while the unit is powered.
    pub fn set_channel_sweep(&mut self, value: u8)
        ensures
            *final(self) == if old(self).powered() {
                Apu { ch1: PulseChannel { sweep: value, ..old(self).ch1 }, ..*old(self) }
            } else {
                *old(self)
            },
    {
        if self.nr52 & 0x80 != 0 {
            self.ch1.set_sweep(value);
        }
    }

    /// NRx1 is written only while the unit is powered; for the noise
    /// channel it loads the length counter.
    pub fn set_channel_duty(&mut self, channel: Channel, value: u8)
        ensures
            *final(self) == if old(self).powered() {
                match channel {
                    Channel::Ch1 => Apu { ch1: PulseChannel { duty_len: value, ..old(self).ch1 }, ..*old(self) },
                    Channel::Ch2 => Apu { ch2: PulseChannel { duty_len: value, ..old(self).ch2 }, ..*old(self) },
                    Channel::Ch3 => Apu { ch3: PulseChannel { duty_len: value, ..old(self).ch3 }, ..*old(self) },
                    Channel::Ch4 => Apu {
                        ch4: NoiseChannel { length_timer: (64 - value % 64) as u8, ..old(self).ch4 },
                        ..*old(self)
                    },
                }
            } else {
                *old(self)
            },
    {
        if self.nr52 & 0x80 != 0 {
            match channel {
                Channel::Ch1 => self.ch1.set_duty(value),
                Channel::Ch2 => self.ch2.set_duty(value),
                Channel::Ch3 => self.ch3.set_duty(value),
                Channel::Ch4 => self.ch4.set_length(value),
            }
        }
    }

    /// NRx3 is written only while the unit is powered; for the noise
    /// channel it is the clock and width register.
    pub fn set_channel_freq_lo(&mut self, channel: Channel, value: u8)
        ensures
            *final(self) == if old(self).powered() {
                match channel {
                    Channel::Ch1 => Apu { ch1: PulseChannel { freq_lo: value, ..old(self).ch1 }, ..*old(self) },
                    Channel::Ch2 => Apu { ch2: PulseChannel { freq_lo: value, ..old(self).ch2 }, ..*old(self) },
                    Channel::Ch3 => Apu { ch3: PulseChannel { freq_lo: value, ..old(self).ch3 }, ..*old(self) },
                    Channel::Ch4 => Apu { ch4: NoiseChannel { freq_rand: value, ..old(self).ch4 }, ..*old(self) },
                }
            } else {
                *old(self)
            },
    {
        if self.nr52 & 0x80 != 0 {
            match channel {
                Channel::Ch1 => self.ch1.set_freq_lo(value),
                Channel::Ch2 => self.ch2.set_freq_lo(value),
                Channel::Ch3 => self.ch3.set_freq_lo(value),
                Channel::Ch4 => self.ch4.set_freq_rand(value),
            }
        }
    }

    /// The mixer output level (0 to 15) before scaling: only channel 2
    /// is mixed.
    pub fn mix_level(&self) -> (level: u16)
        requires
            self.ch2.duty_pos < 8,
        ensures
            level == self.ch2.spec_sample_level(),
    {
        self.ch2.sample_level()
    }
}

impl Default for Apu {
    fn default() -> (a: Self)
        ensures
            a == Apu::zeroed(),
    {
        Apu {
            div_apu: 0,
            frame_seq_step: 0,
            ch1: PulseChannel::default(),
            ch2: PulseChannel::default(),
            ch3: PulseChannel::default(),
            ch4: NoiseChannel::default(),
            nr50: 0,
            nr51: 0,
            nr52: 0,
        }
    }
}

} // verus!

verus! {

/// The frame sequencer clocks channel 2's length counter on every even
/// step (0, 2, 4, 6, at 256 Hz) and never on an odd one: a step of the unit
/// that makes one sequencer tick onto an even step counts an enabled,
/// non-zero length counter down by one (turning the channel off when it
/// reaches zero), and one that lands on an odd step leaves it alone.
pub proof fn lemma_length_clocked_on_even_steps(a: Apu, cycles: u32)
    requires
        a.seq_ticks(cycles) == 1,
        a.frame_seq_step < 8,
    ensures
        ({
            let next = (a.frame_seq_step + 1) % 8;
            let after = a.spec_step(cycles);
            &&& after.frame_seq_step == next
            &&& next % 2 == 0 && a.ch2.spec_length_enabled() && a.ch2.length_timer > 0 ==> {
                &&& after.ch2.length_timer == a.ch2.length_timer - 1
                &&& after.ch2.enabled == (a.ch2.enabled && a.ch2.length_timer != 1)
            }
            &&& next % 2 == 1 ==> after.ch2.length_timer == a.ch2.length_timer
        }),
{
    let c = (cycles % 0x10000) as u16;
    let ch = a.ch2.spec_step_timer(c);
    assert(ch.length_timer == a.ch2.length_timer && ch.freq_hi_ctrl == a.ch2.freq_hi_ctrl
        && ch.enabled == a.ch2.enabled);
    reveal_with_fuel(spec_frame_seq, 2);
    let next = ((a.frame_seq_step + 1) % 8) as u8;
    assert(spec_frame_seq(ch, a.frame_seq_step, 1) == (spec_seq_clock(ch, next), next));
    assert(ch.spec_clock_envelope().length_timer == ch.length_timer);
}

/// The frame sequencer ticks once per 8192 T-cycles, and only step 7
/// clocks channel 2's volume envelope: on a tick onto step 7, an envelope
/// with a non-zero period whose timer runs out moves the volume one step
/// (up when bit 3 of the envelope register is set and it is below 15, down
/// when that bit is clear and it is above 0, else it stays) and reloads the timer with the
/// period; on a tick onto any other step the volume is kept.
pub proof fn lemma_envelope_clocked_on_step_seven(a: Apu, cycles: u32)
    requires
        a.seq_ticks(cycles) == 1,
        a.frame_seq_step < 8,
    ensures
        ({
            let next = (a.frame_seq_step + 1) % 8;
            let after = a.spec_step(cycles);
            let ch = a.ch2;
            let period = ch.envelope % 16;
            &&& next == 7 && period != 0 && ch.envelope_timer <= 1 ==> {
                &&& after.ch2.envelope_timer == period
                &&& after.ch2.current_volume as int == if (ch.envelope / 8) % 2 == 1 {
                        if ch.current_volume < 15 { ch.current_volume + 1 } else { ch.current_volume as int }
                    } else {
                        if ch.current_volume > 0 { ch.current_volume - 1 } else { 0 }
                    }
            }
            &&& next != 7 ==> after.ch2.current_volume == ch.current_volume
        }),
{
    let c = (cycles % 0x10000) as u16;
    let ch = a.ch2.spec_step_timer(c);
    assert(ch.envelope == a.ch2.envelope && ch.envelope_timer == a.ch2.envelope_timer
        && ch.current_volume == a.ch2.current_volume);
    reveal_with_fuel(spec_frame_seq, 2);
    let next = ((a.frame_seq_step + 1) % 8) as u8;
    assert(spec_frame_seq(ch, a.frame_seq_step, 1) == (spec_seq_clock(ch, next), next));
    assert(ch.spec_clock_length().current_volume == ch.current_volume);
    if next == 7 {
        assert(spec_seq_clock(ch, next) == ch.spec_clock_envelope());
        let period = ch.envelope % 16;
        if period != 0 && ch.envelope_timer <= 1 {
            assert(ch.spec_clock_envelope().envelope_timer == period);
            assert(ch.spec_envelope_increasing() == ((ch.envelope / 8) % 2 == 1));
        }
    } else {
        assert(spec_seq_clock(ch, next).current_volume == ch.current_volume);
    }
    assert(a.spec_step(cycles).ch2 == spec_seq_clock(ch, next));
}

/// The number of frame-sequencer ticks in a step is the number of times
/// the 8192-cycle divider passes a multiple of 8192.
pub proof fn lemma_sequencer_rate(a: Apu, cycles: u32)
    requires
        a.div_apu + cycles < 0x10000,
    ensures
        a.seq_ticks(cycles) == (a.div_apu + cycles) / 8192,
        a.spec_step(cycles).div_apu == (a.div_apu + cycles) % 8192,
{
}

/// Running a pulse channel's frequency timer for `a` and then `b` T-cycles
/// is running it for `a + b`: the waveform step and the timer come out the
/// same (for a period value below 2048 and a running timer).
pub proof fn lemma_pulse_timer_steps_add(ch: PulseChannel, a: u16, b: u16)
    requires
        ch.spec_frequency() < 2048,
        ch.freq_timer > 0,
        a + b <= 0xFFFF,
    ensures
        ch.spec_step_timer(a).spec_step_timer(b) == ch.spec_step_timer((a + b) as u16),
{
    let p = ch.spec_period();
    let ft = ch.freq_timer as int;
    let c = a + b;
    let s1 = ch.spec_step_timer(a);
    assert(s1.spec_period() == p);
    assert(0 < p <= 8192);
    if c < ft {
    } else if a < ft {
        assert(s1.freq_timer == ft - a);
        assert(b - (ft - a) == c - ft);
    } else {
        let r = a - ft;
        let q = r / p;
        let m = r % p;
        vstd::arithmetic::div_mod::lemma_fundamental_div_mod(r, p);
        assert(0 <= m < p);
        assert(q >= 0) by (nonlinear_arith) requires r >= 0, p > 0, q == r / p;
        if r == 0 {
            assert(q == 0 && m == 0);
        }
        assert(s1.freq_timer == p - m);
        assert(s1.duty_pos == (ch.duty_pos + 1 + q) % 8);
        let rc = c - ft;
        if b < p - m {
            assert(rc == q * p + (m + b)) by (nonlinear_arith) requires r == p * q + m, rc == r + b;
            vstd::arithmetic::div_mod::lemma_fundamental_div_mod_converse(rc, p, q, m + b);
        } else {
            let r2 = b - (p - m);
            let q2 = r2 / p;
            let m2 = r2 % p;
            vstd::arithmetic::div_mod::lemma_fundamental_div_mod(r2, p);
            assert(q2 >= 0) by (nonlinear_arith) requires r2 >= 0, p > 0, q2 == r2 / p;
            if r2 == 0 {
                assert(q2 == 0 && m2 == 0);
            }
            assert(rc == (q + 1 + q2) * p + m2) by (nonlinear_arith)
                requires r == p * q + m, r2 == p * q2 + m2, rc == r + b, r2 == b - (p - m);
            vstd::arithmetic::div_mod::lemma_fundamental_div_mod_converse(rc, p, q + 1 + q2, m2);
            assert(((ch.duty_pos + 1 + q) % 8 + 1 + q2) % 8 == (ch.duty_pos + 1 + (q + 1 + q2)) % 8) by {
                vstd::arithmetic::div_mod::lemma_add_mod_noop(ch.duty_pos + 1 + q, 1 + q2, 8);
                vstd::arithmetic::div_mod::lemma_add_mod_noop(ch.duty_pos + 1 + q + 1 + q2, 0, 8);
                vstd::arithmetic::div_mod::lemma_mod_twice(1 + q2, 8);
            }
        }
    }
}

/// One shift of the 15-bit noise register moves every bit down by one and
/// feeds the XOR of the two low bits in at bit 14; in 7-bit mode that XOR
/// also replaces bit 6. The register stays within 15 bits.
pub proof fn lemma_lfsr_shift(lfsr: u16, width7: bool)
    requires
        lfsr < 0x8000,
    ensures
        ({
            let x = (lfsr ^ (lfsr >> 1u16)) & 1;
            let n = spec_shift_lfsr(lfsr, width7);
            &&& n < 0x8000
            &&& (n >> 14u16) & 1 == x
            &&& !width7 ==> n & 0x3FFF == (lfsr >> 1u16) & 0x3FFF
            &&& width7 ==> n & 0x3FBF == (lfsr >> 1u16) & 0x3FBF && (n >> 6u16) & 1 == x
        }),
{
    let x0 = (lfsr & 1) ^ ((lfsr >> 1u16) & 1);
    let shifted = (lfsr >> 1u16) | (x0 << 14u16);
    let w = (shifted & !(1u16 << 6u16)) | (x0 << 6u16);
    assert({
        let x = (lfsr ^ (lfsr >> 1u16)) & 1;
        &&& x0 == x
        &&& shifted < 0x8000 && w < 0x8000
        &&& (shifted >> 14u16) & 1 == x && (w >> 14u16) & 1 == x
        &&& shifted & 0x3FFF == (lfsr >> 1u16) & 0x3FFF
        &&& w & 0x3FBF == (lfsr >> 1u16) & 0x3FBF && (w >> 6u16) & 1 == x
    }) by (bit_vector)
        requires
            lfsr < 0x8000,
            x0 == (lfsr & 1) ^ ((lfsr >> 1u16) & 1),
            shifted == (lfsr >> 1u16) | (x0 << 14u16),
            w == (shifted & !(1u16 << 6u16)) | (x0 << 6u16);
}

} // verus!
