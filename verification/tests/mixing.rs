use padmix::amplitude::{abs_amplitude, apply_gain, clamp_gain, GAIN_UNIT, UNIT};
use padmix::mixer::Mixer;
use padmix::voice::Voice;

const HALF: i32 = 1 << 30;

fn q31(value: f64) -> i32 {
    let scaled = value * 2147483648.0;
    if scaled >= 2147483647.0 {
        i32::MAX
    } else if scaled <= -2147483648.0 {
        i32::MIN
    } else {
        scaled as i32
    }
}

fn q16(value: f64) -> i32 {
    (value * 65536.0) as i32
}

#[test]
fn new_mixer_is_empty() {
    let mixer = Mixer::new();
    assert_eq!(mixer.active_count(), 0);
    assert_eq!(mixer.master_volume(), GAIN_UNIT);
    assert!(!mixer.is_active(0));
}

#[test]
fn gain_scales_toward_zero() {
    assert_eq!(apply_gain(HALF, q16(0.5)), 1 << 29);
    assert_eq!(apply_gain(3, 32768), 1);
    assert_eq!(apply_gain(-3, 32768), -1);
    assert_eq!(apply_gain(i32::MIN, i32::MIN), 1 << 46);
    assert_eq!(apply_gain(100, 0), 0);
}

#[test]
fn magnitude_of_extremes() {
    assert_eq!(abs_amplitude(i32::MIN), 2147483648);
    assert_eq!(abs_amplitude(i32::MAX), 2147483647);
    assert_eq!(abs_amplitude(-5), 5);
    assert_eq!(abs_amplitude(0), 0);
}

#[test]
fn voice_plays_then_falls_silent() {
    let mut voice = Voice::new(vec![HALF, -HALF], q16(0.5));
    assert!(!voice.is_finished());
    assert_eq!(voice.next_sample(), 1 << 29);
    assert_eq!(voice.position, 1);
    assert_eq!(voice.next_sample(), -(1 << 29));
    assert!(voice.is_finished());
    assert_eq!(voice.next_sample(), 0);
    assert_eq!(voice.position, 2);
}

#[test]
fn stopped_voice_is_silent_and_stays_put() {
    let mut voice = Voice::new(vec![HALF, HALF], GAIN_UNIT);
    voice.stop();
    assert!(!voice.playing);
    assert_eq!(voice.next_sample(), 0);
    assert_eq!(voice.position, 0);
    assert!(!voice.is_finished());
}

#[test]
fn empty_voice_is_finished_at_once() {
    let voice = Voice::new(Vec::new(), GAIN_UNIT);
    assert!(voice.is_finished());
}

#[test]
fn single_voice_is_scaled_by_volume_and_twice_master() {
    let mut mixer = Mixer::new();
    mixer.play(3, vec![q31(0.25), q31(-0.25), q31(0.75)], q16(0.5));
    mixer.set_master_volume(q16(0.5));
    // 0.25 * 0.5 * 0.5 * 2 = 0.125
    assert_eq!(mixer.mix_frame(), q31(0.125) as i64);
    assert_eq!(mixer.mix_frame(), q31(-0.125) as i64);
    mixer.set_master_volume(GAIN_UNIT);
    // 0.75 * 0.5 * 1.0 * 2 = 0.75
    assert_eq!(mixer.mix_frame(), q31(0.75) as i64);
    assert_eq!(mixer.mix_frame(), 0);
}

#[test]
fn mix_is_limited_to_full_scale() {
    let mut mixer = Mixer::new();
    mixer.play(0, vec![q31(0.75), q31(-0.75)], GAIN_UNIT);
    mixer.play(1, vec![q31(0.75), q31(-0.75)], GAIN_UNIT);
    assert_eq!(mixer.mix_frame(), UNIT);
    assert_eq!(mixer.mix_frame(), -UNIT);
}

#[test]
fn voices_add_without_normalisation() {
    let mut mixer = Mixer::new();
    mixer.set_master_volume(q16(0.5));
    mixer.play(0, vec![q31(0.25)], GAIN_UNIT);
    mixer.play(1, vec![q31(0.125)], GAIN_UNIT);
    mixer.play(2, vec![q31(-0.5)], q16(0.5));
    // (0.25 + 0.125 - 0.25) * 0.5 * 2 = 0.125
    assert_eq!(mixer.mix_frame(), q31(0.125) as i64);
}

#[test]
fn play_replaces_the_voice_of_a_pad() {
    let mut mixer = Mixer::new();
    mixer.play(7, vec![1, 2, 3], GAIN_UNIT);
    mixer.play(9, vec![4], GAIN_UNIT);
    let _ = mixer.mix_frame();
    mixer.play(7, vec![5, 6], 100);
    assert_eq!(mixer.active_count(), 2);
    assert_eq!(mixer.find(7), Some(0));
    let voice = mixer.voice(7).unwrap();
    assert_eq!(voice.samples, vec![5, 6]);
    assert_eq!(voice.position, 0);
    assert_eq!(voice.volume, 100);
    assert!(voice.playing);
    assert_eq!(mixer.voice(9).unwrap().position, 1);
    assert!(mixer.voice(8).is_none());
    assert_eq!(mixer.find(9), Some(1));
}

#[test]
fn stop_removes_the_voice() {
    let mut mixer = Mixer::new();
    mixer.play(1, vec![HALF; 8], GAIN_UNIT);
    mixer.play(2, vec![HALF / 2; 8], GAIN_UNIT);
    mixer.stop(1);
    assert!(!mixer.is_active(1));
    assert!(mixer.is_active(2));
    assert_eq!(mixer.active_count(), 1);
    assert_eq!(mixer.mix_frame(), HALF as i64);
}

#[test]
fn stop_without_a_voice_changes_nothing() {
    let mut mixer = Mixer::new();
    mixer.play(4, vec![10, 20, 30], 500);
    mixer.set_master_volume(1234);
    mixer.stop(5);
    assert_eq!(mixer.active_count(), 1);
    assert_eq!(mixer.master_volume(), 1234);
    assert_eq!(mixer.pad_at(0), 4);
    assert_eq!(mixer.voice(4).unwrap().samples, vec![10, 20, 30]);
    assert_eq!(mixer.voice(4).unwrap().position, 0);
    let mut empty = Mixer::new();
    empty.stop(0);
    assert_eq!(empty.active_count(), 0);
}

#[test]
fn play_then_stop_leaves_the_pad_silent() {
    let mut mixer = Mixer::new();
    mixer.play(1, vec![HALF; 16], GAIN_UNIT);
    mixer.stop(1);
    assert!(!mixer.is_active(1));
    let mut out = vec![7i64; 8];
    mixer.render(&mut out, 2);
    assert_eq!(out, vec![0i64; 8]);
}

#[test]
fn master_volume_is_clamped() {
    let mut mixer = Mixer::new();
    mixer.set_master_volume(q16(1.5));
    assert_eq!(mixer.master_volume(), GAIN_UNIT);
    mixer.set_master_volume(q16(-0.2));
    assert_eq!(mixer.master_volume(), 0);
    mixer.set_master_volume(q16(0.25));
    assert_eq!(mixer.master_volume(), 16384);
    assert_eq!(clamp_gain(i32::MAX), GAIN_UNIT);
    assert_eq!(clamp_gain(i32::MIN), 0);
}

#[test]
fn silent_master_mutes_the_mix() {
    let mut mixer = Mixer::new();
    mixer.play(0, vec![i32::MAX], i32::MAX);
    mixer.set_master_volume(0);
    assert_eq!(mixer.mix_frame(), 0);
}

#[test]
fn render_writes_each_frame_to_all_channels() {
    let mut mixer = Mixer::new();
    mixer.set_master_volume(q16(0.5));
    mixer.play(0, vec![q31(0.5), q31(0.25), q31(-0.5), q31(0.125)], GAIN_UNIT);
    let mut out = vec![0i64; 7];
    mixer.render(&mut out, 2);
    let a = q31(0.5) as i64;
    let b = q31(0.25) as i64;
    let c = q31(-0.5) as i64;
    let d = q31(0.125) as i64;
    assert_eq!(out, vec![a, a, b, b, c, c, d]);
    assert_eq!(mixer.active_count(), 0);
}

#[test]
fn voice_leaves_the_table_after_its_last_sample() {
    let mut mixer = Mixer::new();
    mixer.play(2, vec![HALF; 5], GAIN_UNIT);
    mixer.play(3, vec![HALF; 9], GAIN_UNIT);
    let mut out = vec![0i64; 4];
    mixer.render(&mut out, 1);
    assert!(mixer.is_active(2));
    assert_eq!(mixer.voice(2).unwrap().position, 4);
    let mut last = vec![0i64; 1];
    mixer.render(&mut last, 1);
    assert!(!mixer.is_active(2));
    assert!(mixer.is_active(3));
    assert_eq!(mixer.voice(3).unwrap().position, 5);
}

#[test]
fn drop_finished_keeps_order() {
    let mut mixer = Mixer::new();
    mixer.play(10, vec![1, 1], GAIN_UNIT);
    mixer.play(11, vec![1], GAIN_UNIT);
    mixer.play(12, vec![1, 1, 1], GAIN_UNIT);
    mixer.play(13, Vec::new(), GAIN_UNIT);
    let _ = mixer.mix_frame();
    mixer.drop_finished();
    assert_eq!(mixer.active_count(), 2);
    assert_eq!(mixer.pad_at(0), 10);
    assert_eq!(mixer.pad_at(1), 12);
}

#[test]
fn render_into_an_empty_buffer_only_drops_finished() {
    let mut mixer = Mixer::new();
    mixer.play(1, Vec::new(), GAIN_UNIT);
    mixer.play(2, vec![5], GAIN_UNIT);
    let mut out: Vec<i64> = Vec::new();
    mixer.render(&mut out, 2);
    assert_eq!(mixer.active_count(), 1);
    assert_eq!(mixer.voice(2).unwrap().position, 0);
}
