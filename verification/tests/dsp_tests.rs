use synthesizer::adsr_envelope::ADSREnvelope;
use synthesizer::graphics::{
    blend_colors, draw_display_frame, draw_pixel, draw_sprite, Sprite, DISPLAY_HEIGHT,
    DISPLAY_WIDTH,
};
use synthesizer::effects::{
    DelayEffect, EffectChain, EffectUnit, FlangerEffect, ReverbEffect, SAMPLE_LIMIT,
};
use synthesizer::mixer::{apply_pan, isqrt, MultiTrackMixer};
use synthesizer::music_theory::Note;
use synthesizer::state::Track;
use synthesizer::waveforms::{
    calculate_sawtooth, calculate_square, calculate_triangle, SawtoothWave, SquareWave,
    TriangleWave, Waveform, SAMPLE_ONE,
};

#[test]
fn generators_stay_within_full_scale() {
    for f in [0u32, 1, 4800, 26163, 44000, 800_000] {
        for i in [0usize, 1, 17, 499, 1000, 48_000, 1_000_000] {
            assert!(calculate_sawtooth(f, i).abs() <= SAMPLE_ONE);
            assert!(calculate_triangle(f, i).abs() <= SAMPLE_ONE);
            assert!(calculate_square(f, i).abs() <= SAMPLE_ONE);
        }
    }
}

#[test]
fn sawtooth_and_triangle_repeat_after_one_period() {
    // 48 Hz divides the phase grid: the period is exactly 1000 samples.
    let f = 4800u32;
    for i in 0..2000usize {
        assert_eq!(calculate_sawtooth(f, i), calculate_sawtooth(f, i + 1000));
        assert_eq!(calculate_triangle(f, i), calculate_triangle(f, i + 1000));
        assert_eq!(calculate_square(f, i), calculate_square(f, i + 1000));
    }
}

#[test]
fn square_wave_is_full_scale_by_half_period() {
    let f = 4800u32;
    // First half of the period positive, second half negative.
    assert_eq!(calculate_square(f, 100), SAMPLE_ONE);
    assert_eq!(calculate_square(f, 499), SAMPLE_ONE);
    assert_eq!(calculate_square(f, 500), -SAMPLE_ONE);
    assert_eq!(calculate_square(f, 999), -SAMPLE_ONE);
}

#[test]
fn generator_counters_wrap_instead_of_overflowing() {
    let mut wave = SquareWave::new(4800);
    wave.num_sample = usize::MAX;
    assert!(wave.next().is_some());
    assert_eq!(wave.num_sample, 0);
    let mut tri = TriangleWave::new(4800);
    tri.num_sample = usize::MAX;
    assert!(tri.next().is_some());
    let mut saw = SawtoothWave::new(4800);
    saw.num_sample = usize::MAX;
    assert!(saw.next().is_some());
}

#[test]
fn envelope_attack_rises_and_decay_falls() {
    let e = ADSREnvelope::new(50, 50, 50, 20, 48000);
    // Attack is non-decreasing sample by sample.
    let mut probe = e;
    let mut last = -1i64;
    for c in 0..e.attack_samples {
        probe.sample_count = c;
        let a = probe.calculate_envelope_amplitude();
        assert!(a >= last);
        last = a;
    }
    // Full amplitude exactly at the end of the attack.
    probe.sample_count = e.attack_samples;
    assert_eq!(probe.calculate_envelope_amplitude(), 1000);
    // Decay is non-increasing and lands exactly on the sustain level.
    let mut last = 1001i64;
    for c in e.attack_samples..=(e.attack_samples + e.decay_samples) {
        probe.sample_count = c;
        let a = probe.calculate_envelope_amplitude();
        assert!(a <= last);
        last = a;
    }
    probe.sample_count = e.attack_samples + e.decay_samples;
    assert_eq!(probe.calculate_envelope_amplitude(), e.sustain_level);
}

#[test]
fn envelope_always_terminates() {
    let mut e = ADSREnvelope::new(0, 0, 50, 20, 48000);
    let bound = e.attack_samples + e.decay_samples + e.max_sustain_samples + e.release_samples + 2;
    let mut iterations = 0u64;
    loop {
        if e.next(SAMPLE_ONE).is_none() {
            break;
        }
        iterations += 1;
        assert!(iterations <= bound);
    }
    assert!(iterations <= bound);
}

#[test]
fn envelope_release_fades_to_silence() {
    let mut e = ADSREnvelope::new(0, 0, 99, 10, 48000);
    for _ in 0..100 {
        assert!(e.next(SAMPLE_ONE).is_some());
    }
    e.release();
    let mut last = 1001i64;
    loop {
        let amplitude = e.calculate_envelope_amplitude();
        assert!(amplitude <= last);
        last = amplitude;
        if e.next(SAMPLE_ONE).is_none() {
            break;
        }
    }
}

#[test]
fn reset_delay_line_stays_silent() {
    let mut d = DelayEffect::new(10, 500, 1000, 44100);
    // Pump an impulse through, then reset: no residue may survive.
    d.process_sample(SAMPLE_LIMIT);
    for _ in 0..2000 {
        d.process_sample(12345);
    }
    d.reset();
    for _ in 0..5000 {
        assert_eq!(d.process_sample(0), 0);
    }
}

#[test]
fn reset_reverb_stays_silent() {
    let mut r = ReverbEffect::new(700, 400, 600, 44100);
    r.process_sample(SAMPLE_LIMIT);
    for _ in 0..5000 {
        r.process_sample(777);
    }
    r.reset();
    for _ in 0..5000 {
        assert_eq!(r.process_sample(0), 0);
    }
}

#[test]
fn reset_flanger_stays_silent() {
    let mut f = FlangerEffect::new(500, 700, 100, 500, 44100);
    f.process_sample(SAMPLE_LIMIT);
    for _ in 0..2000 {
        f.process_sample(999);
    }
    f.reset();
    for _ in 0..5000 {
        assert_eq!(f.process_sample(0), 0);
    }
}

#[test]
fn delay_impulse_produces_taps_at_golden_ratio_offsets() {
    // 10 ms at 44100 Hz is 441 samples; the taps sit at 441, 272 and 168.
    // With no feedback the buffer holds the impulse alone, so each tap
    // returns it scaled exactly by its blend weight.
    let mut d = DelayEffect::new(10, 0, 1000, 44100);
    assert_eq!(d.delay_samples, 441);
    assert_eq!(d.tap1_samples, 272);
    assert_eq!(d.tap2_samples, 168);
    let mut out = Vec::new();
    out.push(d.process_sample(SAMPLE_ONE));
    for _ in 0..1000 {
        out.push(d.process_sample(0));
    }
    // Fully wet: the dry impulse itself is silent at the output.
    assert_eq!(out[0], 0);
    for n in 1..168 {
        assert_eq!(out[n], 0);
    }
    // Each tap returns the impulse scaled by its blend weight.
    assert_eq!(out[168], SAMPLE_ONE * 150 / 1000);
    assert_eq!(out[272], SAMPLE_ONE * 250 / 1000);
    assert_eq!(out[441], SAMPLE_ONE * 600 / 1000);
}

#[test]
fn delay_feedback_echo_decays() {
    let mut d = DelayEffect::new(10, 500, 1000, 44100);
    let mut out = Vec::new();
    out.push(d.process_sample(SAMPLE_ONE));
    for _ in 0..2000 {
        out.push(d.process_sample(0));
    }
    // The echo of the main tap one loop later is quieter than the tap.
    let first = out[441];
    let echo = out[441 + 441];
    assert!(first > 0);
    assert!(echo > 0);
    assert!(echo < first);
}

#[test]
fn effect_setters_clamp_their_ranges() {
    let mut d = DelayEffect::new(300, 550, 500, 44100);
    d.set_feedback(5000);
    assert_eq!(d.feedback, 990);
    d.set_feedback(-5);
    assert_eq!(d.feedback, 0);
    d.set_mix(2000);
    assert_eq!(d.mix, 1000);
    let mut r = ReverbEffect::new(700, 400, 600, 44100);
    r.set_damping(-1);
    assert_eq!(r.damping, 0);
    r.set_mix(1001);
    assert_eq!(r.mix, 1000);
    r.set_room_size(1000);
    // The construction law: (0.6 + 0.35) scaled by each filter's own
    // variation factor, 0.93 for the first.
    assert_eq!(r.comb_feedback[0], 883);
    assert_eq!(r.comb_feedback[7], 950 * 1070 / 1000);
    let mut f = FlangerEffect::new(500, 700, 100, 500, 44100);
    f.set_lfo_rate(0);
    assert_eq!(f.lfo_rate, 10);
    // The rate has no upper clamp, only the floor.
    f.set_lfo_rate(30_000);
    assert_eq!(f.lfo_rate, 30_000);
    f.set_depth(1234);
    assert_eq!(f.depth, 1000);
}

#[test]
fn release_ramps_from_the_level_it_was_triggered_at() {
    // Release a slow attack early: the fade starts from the low level
    // the attack had reached, with no jump up to the sustain level.
    let mut e = ADSREnvelope::new(99, 0, 99, 20, 48000);
    for _ in 0..100 {
        e.next(SAMPLE_ONE);
    }
    let held = e.calculate_envelope_amplitude();
    assert!(held < 50);
    e.release();
    assert_eq!(e.release_level, held);
    let mut last = held;
    for _ in 0..200 {
        let amplitude = e.calculate_envelope_amplitude();
        assert!(amplitude <= last);
        last = amplitude;
        if e.next(SAMPLE_ONE).is_none() {
            break;
        }
    }
}

#[test]
fn delay_buffer_grows_but_never_shrinks() {
    let mut d = DelayEffect::new(10, 500, 500, 44100);
    let initial = d.buffer.len();
    assert_eq!(initial, 1024);
    d.set_delay_time(100);
    let grown = d.buffer.len();
    assert!(grown > initial);
    d.set_delay_time(10);
    assert_eq!(d.buffer.len(), grown);
}

#[test]
fn empty_chain_passes_samples_through() {
    let mut chain = EffectChain::new();
    assert_eq!(chain.process_sample(4242), 4242);
    chain.add_effect(EffectUnit::Delay(DelayEffect::new(10, 500, 1000, 44100)));
    assert_eq!(chain.effects.len(), 1);
    // Fully wet delay holds the first samples back entirely.
    assert_eq!(chain.process_sample(4242), 0);
    chain.reset();
    for _ in 0..3000 {
        assert_eq!(chain.process_sample(0), 0);
    }
}

#[test]
fn mixer_builds_the_note_plan_from_the_track() {
    let mixer = MultiTrackMixer::new(44100);
    let mut track = Track::new(0, "Lead".to_owned());
    track.volume = 500;
    let plan = mixer.play_note_on_track(&track, Note::A);
    assert_eq!(plan.waveform, Waveform::SQUARE);
    assert_eq!(plan.frequency_centihertz, 44000);
    assert_eq!(plan.gain_milli, 100);
    assert_eq!(plan.attack, 0);
    assert_eq!(plan.sustain, 50);
}

#[test]
fn note_frequencies_double_per_octave() {
    assert_eq!(Note::A.frequency(4), 44000);
    assert_eq!(Note::A.frequency(5), 88000);
    assert_eq!(Note::A.frequency(3), 22000);
    assert_eq!(Note::C.frequency(1), 3270);
    assert_eq!(Note::B.frequency(8), 790208);
}

#[test]
fn pan_splits_power_between_channels() {
    assert_eq!(isqrt(500_000), 707);
    let (l, r) = apply_pan(1_000_000, 0);
    assert_eq!(l, 707_000);
    assert_eq!(r, 707_000);
    let (l, r) = apply_pan(1_000_000, 1000);
    assert_eq!(l, 0);
    assert_eq!(r, 1_000_000);
    let (l, r) = apply_pan(1_000_000, -1000);
    assert_eq!(l, 1_000_000);
    assert_eq!(r, 0);
}

#[test]
fn display_frame_paints_border_and_background() {
    let mut pixels = vec![0u32; (DISPLAY_WIDTH * DISPLAY_HEIGHT) as usize];
    draw_display_frame(&mut pixels);
    assert_eq!(pixels[0], 0xFFC7_C7C7);
    assert_eq!(pixels[(DISPLAY_WIDTH + 1) as usize], 0xFF14_1515);
    assert_eq!(pixels[(DISPLAY_WIDTH * DISPLAY_HEIGHT - 1) as usize], 0xFFC7_C7C7);
    draw_pixel(&mut pixels, 5, 5, 0xFF00_FF00);
    assert_eq!(pixels[(5 * DISPLAY_WIDTH + 5) as usize], 0xFF00_FF00);
    // Out-of-range positions are ignored.
    draw_pixel(&mut pixels, DISPLAY_WIDTH, 0, 0xFF00_FF00);
    assert_eq!(pixels[0], 0xFFC7_C7C7);
}

#[test]
fn colour_blending_moves_between_the_endpoints() {
    assert_eq!(blend_colors(0xFF00_0000, 0xFFFF_FFFF, 0), 0xFF00_0000);
    assert_eq!(blend_colors(0xFF00_0000, 0xFFFF_FFFF, 1000), 0xFFFF_FFFF);
    // Half-way, each channel truncates to 127.
    assert_eq!(blend_colors(0xFF00_0000, 0xFFFF_FFFF, 500), 0xFF7F_7F7F);
}

#[test]
fn sprite_blit_respects_transparency() {
    let sprite = Sprite::new(2, 1, vec![0xFFAB_CDEF, 0x0012_3456]);
    let mut buffer = vec![7u32; 20];
    draw_sprite(1, 0, &sprite, &mut buffer, 10);
    assert_eq!(buffer[1], 0xFFAB_CDEF);
    assert_eq!(buffer[2], 7);
    assert_eq!(buffer[0], 7);
}
