use rand::rngs::StdRng;
use rand::SeedableRng;
use synth::{noise_value, pack, unpack, Params, Sample, SharedParams, Synth, WaveType};

fn synth(wave: WaveType, sample_rate: u32, centihertz: u32) -> Synth {
    Synth::new(wave, sample_rate, centihertz, StdRng::seed_from_u64(7)).unwrap()
}

fn value(s: &Sample) -> f64 {
    match *s {
        Sample::Partials { cycle, rolloff, .. } => {
            let mut sum = 0.0;
            let mut j: u64 = 0;
            while let Some((k, turn)) = s.partial(j) {
                let angle = 2.0 * std::f64::consts::PI * (turn as f64) / (cycle as f64);
                sum += angle.sin() / (k as f64).powi(rolloff as i32);
                j += 1;
            }
            sum
        }
        Sample::Level { high } => {
            if high {
                0.5
            } else {
                -0.5
            }
        }
        Sample::Noise { value } => (value as f64) / ((1u64 << 24) as f64) * 2.0 - 1.0,
    }
}

fn count_of(s: &Sample) -> u64 {
    match *s {
        Sample::Partials { count, .. } => count,
        _ => panic!("not a sum of partials"),
    }
}

#[test]
fn new_rejects_zero_rate_or_frequency() {
    assert!(Synth::new(WaveType::Sine, 0, 44000, StdRng::seed_from_u64(1)).is_none());
    assert!(Synth::new(WaveType::Sine, 44100, 0, StdRng::seed_from_u64(1)).is_none());
    let s = synth(WaveType::Triangle, 44100, 44000);
    assert_eq!(s.phase, 0);
    assert_eq!(s.phase_scale, 44000);
}

#[test]
fn classic_square_over_an_eight_sample_period() {
    // 1000 Hz at 8000 Hz: the phase index runs 1, 2, ..., 7, 0 and the level is
    // low while the phase fraction is at most one half.
    let mut s = synth(WaveType::SquareClassic, 8000, 100_000);
    let expected = [false, false, false, false, true, true, true, false];
    for round in 0..3 {
        for (i, high) in expected.iter().enumerate() {
            let out = s.tick();
            assert_eq!(out, Sample::Level { high: *high }, "round {round}, sample {i}");
            assert_eq!(value(&out), if *high { 0.5 } else { -0.5 });
        }
    }
}

#[test]
fn classic_square_takes_two_values_only() {
    let mut s = synth(WaveType::SquareClassic, 44100, 26163);
    for _ in 0..5000 {
        let v = value(&s.tick());
        assert!(v == 0.5 || v == -0.5);
    }
}

#[test]
fn band_limited_waves_silent_at_nyquist() {
    for wave in [WaveType::Square, WaveType::Sawtooth, WaveType::Triangle] {
        let mut s = synth(wave, 44100, 2_205_000);
        for _ in 0..1000 {
            let out = s.tick();
            assert_eq!(count_of(&out), 0);
            assert_eq!(value(&out), 0.0);
        }
    }
}

#[test]
fn band_limited_waves_silent_above_nyquist() {
    for wave in [WaveType::Square, WaveType::Sawtooth, WaveType::Triangle] {
        let mut s = synth(wave, 8000, 500_000);
        for _ in 0..100 {
            assert_eq!(value(&s.tick()), 0.0);
        }
    }
}

#[test]
fn harmonic_counts_follow_the_cutoff() {
    // 440 Hz at 44100 Hz: harmonics up to 50 lie below 22050 Hz.
    assert_eq!(count_of(&synth(WaveType::Sawtooth, 44100, 44000).tick()), 50);
    assert_eq!(count_of(&synth(WaveType::Square, 44100, 44000).tick()), 25);
    assert_eq!(count_of(&synth(WaveType::Triangle, 44100, 44000).tick()), 25);
    assert_eq!(count_of(&synth(WaveType::Sine, 44100, 44000).tick()), 1);
    // 1000 Hz at 8000 Hz: 1000, 2000 and 3000 Hz pass, 4000 Hz does not.
    assert_eq!(count_of(&synth(WaveType::Sawtooth, 8000, 100_000).tick()), 3);
    assert_eq!(count_of(&synth(WaveType::Square, 8000, 100_000).tick()), 2);
}

#[test]
fn partials_give_harmonic_and_turn() {
    let mut s = synth(WaveType::Triangle, 8000, 100_000);
    let out = s.tick();
    assert_eq!(
        out,
        Sample::Partials { position: 100_000, cycle: 800_000, step: 2, count: 2, rolloff: 2 }
    );
    assert_eq!(out.partial(0), Some((1, 100_000)));
    assert_eq!(out.partial(1), Some((3, 300_000)));
    assert_eq!(out.partial(2), None);
    let wrapped = Sample::Partials { position: 700_000, cycle: 800_000, step: 2, count: 3, rolloff: 1 };
    assert_eq!(wrapped.partial(2), Some((5, 300_000)));
    assert_eq!(Sample::Level { high: true }.partial(0), None);
}

#[test]
fn sine_repeats_with_its_period() {
    // 1000 Hz at 8000 Hz: a period of eight samples.
    let mut s = synth(WaveType::Sine, 8000, 100_000);
    let outs: Vec<Sample> = (0..40).map(|_| s.tick()).collect();
    for n in 0..32 {
        assert_eq!(outs[n], outs[n + 8]);
        assert!((value(&outs[n]) - value(&outs[n + 8])).abs() < 1e-9);
    }
    assert!((value(&outs[1]) - 1.0).abs() < 1e-9);
    assert!((value(&outs[5]) + 1.0).abs() < 1e-9);
}

#[test]
fn amplitude_stays_in_unit_range_up_to_a_quarter_rate() {
    let waves = [
        WaveType::Sine,
        WaveType::Square,
        WaveType::SquareClassic,
        WaveType::Triangle,
        WaveType::Noise,
    ];
    for wave in waves {
        for centihertz in [26163, 44000, 100_000, 1_102_500] {
            let mut s = synth(wave, 44100, centihertz);
            for _ in 0..4000 {
                let v = value(&s.tick());
                assert!((-1.0..=1.0).contains(&v), "{wave:?} at {centihertz}: {v}");
            }
        }
    }
}

#[test]
fn retuning_takes_effect_on_the_next_tick() {
    let mut s = synth(WaveType::Sine, 8000, 100_000);
    let before: Vec<Sample> = (0..3).map(|_| s.tick()).collect();
    assert_eq!(s.phase, 300_000);
    s.set_frequency(300_000);
    // Nothing moves until the next tick.
    assert_eq!(s.phase, 300_000);
    assert_eq!(s.phase_scale, 100_000);
    let mut fresh = synth(WaveType::Sine, 8000, 100_000);
    for b in &before {
        assert_eq!(*b, fresh.tick());
    }
    // Index 3 plus one, modulo the new period of 8/3 samples, is 4/3.
    let out = s.tick();
    assert_eq!(s.phase, 400_000);
    assert_eq!(s.phase_scale, 300_000);
    assert_eq!(out, Sample::Partials { position: 400_000, cycle: 800_000, step: 1, count: 1, rolloff: 1 });
}

#[test]
fn zero_frequency_is_refused() {
    let mut s = synth(WaveType::Sine, 8000, 100_000);
    s.tick();
    s.set_frequency(0);
    assert_eq!(s.frequency, 100_000);
    assert_eq!(s.tick(), Sample::Partials { position: 200_000, cycle: 800_000, step: 1, count: 1, rolloff: 1 });
}

#[test]
fn switching_wave_keeps_the_phase() {
    let mut s = synth(WaveType::Sine, 8000, 100_000);
    for _ in 0..4 {
        s.tick();
    }
    s.set_wave(WaveType::SquareClassic);
    assert_eq!(s.phase, 400_000);
    assert_eq!(s.tick(), Sample::Level { high: true });
}

#[test]
fn noise_is_drawn_from_the_generator() {
    let mut a = synth(WaveType::Noise, 44100, 44000);
    let mut b = synth(WaveType::Noise, 44100, 44000);
    let xs: Vec<Sample> = (0..64).map(|_| a.tick()).collect();
    let ys: Vec<Sample> = (0..64).map(|_| b.tick()).collect();
    assert_eq!(xs, ys);
    let mut distinct = xs.clone();
    distinct.dedup();
    assert!(distinct.len() > 32);
    for x in &xs {
        match *x {
            Sample::Noise { value } => assert!(value < (1 << 24)),
            _ => panic!("noise expected"),
        }
    }
    let mut c = Synth::new(WaveType::Noise, 44100, 44000, StdRng::seed_from_u64(8)).unwrap();
    let zs: Vec<Sample> = (0..64).map(|_| c.tick()).collect();
    assert_ne!(xs, zs);
}

#[test]
fn packed_parameters_round_trip() {
    let waves = [
        WaveType::Sine,
        WaveType::Square,
        WaveType::SquareClassic,
        WaveType::Sawtooth,
        WaveType::Triangle,
        WaveType::Noise,
    ];
    for wave_type in waves {
        for frequency in [1, 26163, 52325, u32::MAX] {
            let p = Params { wave_type, frequency };
            assert_eq!(unpack(pack(p)), Some(p));
        }
    }
    assert_eq!(pack(Params { wave_type: WaveType::Sawtooth, frequency: 44000 }), 3 * (1u64 << 32) + 44000);
    assert_eq!(unpack(5 << 32), None);
    assert_eq!(unpack((6 << 32) + 44000), None);
}

#[test]
fn shared_parameters_reach_the_oscillator() {
    let shared = SharedParams::new(Params { wave_type: WaveType::Triangle, frequency: 44000 });
    assert_eq!(shared.snapshot(), Some(Params { wave_type: WaveType::Triangle, frequency: 44000 }));
    let mut s = synth(WaveType::Triangle, 8000, 44000);
    s.tick();
    shared.publish(Params { wave_type: WaveType::SquareClassic, frequency: 100_000 });
    s.follow(&shared);
    assert_eq!(s.wave_type, WaveType::SquareClassic);
    assert_eq!(s.frequency, 100_000);
    assert_eq!(s.phase, 44000);
    s.apply(Params { wave_type: WaveType::Sine, frequency: 0 });
    assert_eq!(s.wave_type, WaveType::Sine);
    assert_eq!(s.frequency, 100_000);
}

#[test]
fn interleaved_updates_keep_samples_in_range() {
    let shared = SharedParams::new(Params { wave_type: WaveType::Sine, frequency: 44000 });
    let mut s = synth(WaveType::Sine, 44100, 44000);
    let waves = [WaveType::Sine, WaveType::Square, WaveType::SquareClassic, WaveType::Triangle];
    for i in 0..20_000u32 {
        if i % 7 == 0 {
            let wave_type = waves[(i / 7) as usize % waves.len()];
            shared.publish(Params { wave_type, frequency: 26163 + (i % 900) * 100 });
        }
        s.follow(&shared);
        let v = value(&s.tick());
        assert!((-1.0..=1.0).contains(&v));
    }
}

#[test]
fn noise_value_keeps_the_top_24_bits() {
    assert_eq!(noise_value(0xFFFF_FFFF), 0xFF_FFFF);
    assert_eq!(noise_value(0x1FF), 1);
    assert_eq!(noise_value(0xFF), 0);
    assert_eq!(noise_value(0x8000_0000), 0x80_0000);
    assert_eq!(value(&Sample::Noise { value: noise_value(0) }), -1.0);
    assert_eq!(value(&Sample::Noise { value: noise_value(0x8000_0000) }), 0.0);
}

#[test]
fn noise_reaches_both_halves_of_the_range() {
    let mut s = synth(WaveType::Noise, 44100, 44000);
    let vs: Vec<f64> = (0..256).map(|_| value(&s.tick())).collect();
    assert!(vs.iter().any(|v| *v > 0.5));
    assert!(vs.iter().any(|v| *v < -0.5));
}

#[test]
fn following_a_word_applies_what_it_holds() {
    let mut s = synth(WaveType::Sine, 8000, 100_000);
    s.tick();
    s.follow_word(pack(Params { wave_type: WaveType::Sawtooth, frequency: 44000 }));
    assert_eq!(s.wave_type, WaveType::Sawtooth);
    assert_eq!(s.frequency, 44000);
    assert_eq!(s.phase, 100_000);
    s.follow_word((7 << 32) + 1000);
    assert_eq!(s.wave_type, WaveType::Sawtooth);
    assert_eq!(s.frequency, 44000);
    s.follow_word(2 << 32);
    assert_eq!(s.frequency, 44000);
}
