use gb_emu::apu::{duty_bit, Apu, NoiseChannel, PulseChannel};

#[test]
fn duty_patterns() {
    let patterns: [[u8; 8]; 4] = [
        [0, 0, 0, 0, 0, 0, 0, 1],
        [1, 0, 0, 0, 0, 0, 0, 1],
        [1, 0, 0, 0, 0, 1, 1, 1],
        [0, 1, 1, 1, 1, 1, 1, 1],
    ];
    for duty in 0..4u8 {
        for pos in 0..8u8 {
            assert_eq!(duty_bit(duty, pos), patterns[duty as usize][pos as usize]);
        }
    }
}

#[test]
fn pulse_register_fields() {
    let mut ch = PulseChannel::default();
    ch.freq_hi_ctrl = 0x47;
    ch.freq_lo = 0x23;
    assert_eq!(ch.frequency(), 0x723);
    ch.set_duty(0xBF);
    assert_eq!(ch.duty_cycle(), 2);
    assert_eq!(ch.initial_length(), 0x3F);
    ch.write_envelope(0xF3);
    assert!(ch.dac_enabled);
    assert_eq!(ch.initial_volume(), 15);
    assert_eq!(ch.envelope_period(), 3);
    assert!(!ch.envelope_increasing());
    assert!(ch.length_enabled());
    ch.write_envelope(0x07);
    assert!(!ch.dac_enabled);
}

#[test]
fn pulse_trigger_reloads_timers() {
    let mut ch = PulseChannel::default();
    ch.freq_hi_ctrl = 0x07;
    ch.freq_lo = 0x23;
    ch.write_envelope(0xA2);
    ch.trigger();
    assert!(ch.enabled);
    assert_eq!(ch.freq_timer, (2048 - 0x723) * 4);
    assert_eq!(ch.length_timer, 64);
    assert_eq!(ch.envelope_timer, 2);
    assert_eq!(ch.current_volume, 10);
}

#[test]
fn pulse_timer_advances_duty_step() {
    let mut ch = PulseChannel::default();
    ch.freq_hi_ctrl = 0x07;
    ch.freq_lo = 0xFF;
    // Period (2048 - 2047) * 4 = 4.
    ch.freq_timer = 10;
    ch.step_timer(4);
    assert_eq!(ch.freq_timer, 6);
    assert_eq!(ch.duty_pos, 0);
    ch.step_timer(6);
    assert_eq!(ch.freq_timer, 4);
    assert_eq!(ch.duty_pos, 1);
    // 9 more cycles: expiries after 4 and 8, one cycle into the next period.
    ch.step_timer(9);
    assert_eq!(ch.duty_pos, 3);
    assert_eq!(ch.freq_timer, 3);
    assert!(ch.can_step_timer(1000));
}

#[test]
fn envelope_and_length_clocks() {
    let mut ch = PulseChannel::default();
    // Bit 3 set: increasing; the period is the low nibble (10).
    ch.write_envelope(0x0A);
    ch.envelope_timer = 1;
    ch.current_volume = 3;
    ch.clock_envelope();
    assert_eq!(ch.current_volume, 4);
    assert_eq!(ch.envelope_timer, 10);
    ch.clock_envelope();
    assert_eq!(ch.current_volume, 4);
    assert_eq!(ch.envelope_timer, 9);

    ch.enabled = true;
    ch.freq_hi_ctrl = 0x40;
    ch.length_timer = 1;
    ch.clock_length();
    assert_eq!(ch.length_timer, 0);
    assert!(!ch.enabled);
}

#[test]
fn sample_level_is_bit_times_volume() {
    let mut apu = Apu::default();
    apu.ch2.enabled = true;
    apu.ch2.dac_enabled = true;
    apu.ch2.duty_len = 0x80;
    apu.ch2.current_volume = 10;
    apu.ch2.duty_pos = 0;
    assert_eq!(apu.ch2.sample_level(), 10);
    assert_eq!(apu.mix_level(), 10);
    apu.ch2.duty_pos = 1;
    assert_eq!(apu.mix_level(), 0);
    apu.ch2.dac_enabled = false;
    apu.ch2.duty_pos = 0;
    assert_eq!(apu.mix_level(), 0);
}

#[test]
fn noise_register_fields_and_shift() {
    let mut n = NoiseChannel::default();
    n.set_length(0x3F);
    assert_eq!(n.length_timer, 1);
    n.set_freq_rand(0x21);
    assert_eq!(n.divisor(), 16);
    assert_eq!(n.shift_amount(), 2);
    assert_eq!(n.period(), 64);
    n.set_freq_rand(0x00);
    assert_eq!(n.period(), 8);
    n.lfsr = 0x0001;
    n.shift_lfsr();
    assert_eq!(n.lfsr, 0x4000);
    n.set_freq_rand(0x08);
    assert!(n.width_mode_7bit());
    n.lfsr = 0x0001;
    n.shift_lfsr();
    assert_eq!(n.lfsr, 0x4040);
    n.lfsr = 0x7FFF;
    n.set_freq_rand(0x00);
    n.shift_lfsr();
    assert_eq!(n.lfsr, 0x3FFF);
}

#[test]
fn noise_timer_shifts_per_period() {
    let mut n = NoiseChannel::default();
    n.set_freq_rand(0x00); // period 8
    n.lfsr = 0x0001;
    n.freq_timer = 8;
    n.step_timer(8);
    assert_eq!(n.lfsr, 0x4000);
    assert_eq!(n.freq_timer, 8);
    n.step_timer(3);
    assert_eq!(n.freq_timer, 5);
}

#[test]
fn frame_sequencer_clocks_length_on_step_zero() {
    let mut apu = Apu::default();
    apu.frame_seq_step = 7;
    apu.div_apu = 8190;
    apu.ch2.enabled = true;
    apu.ch2.freq_hi_ctrl = 0x40;
    apu.ch2.length_timer = 5;
    assert!(apu.can_step(4));
    apu.step(4);
    assert_eq!(apu.frame_seq_step, 0);
    assert_eq!(apu.div_apu, 2);
    assert_eq!(apu.ch2.length_timer, 4);
}

#[test]
fn power_off_clears_channels() {
    let mut apu = Apu::default();
    apu.nr50 = 0x77;
    apu.ch1.envelope = 0xF0;
    apu.ch1.length_timer = 9;
    apu.power_off();
    assert_eq!(apu.nr50, 0);
    assert_eq!(apu.ch1.envelope, 0);
    assert_eq!(apu.ch1.length_timer, 9);
}
