use rump::duck::{change_rate, DuckConfig, DuckState};
use rump::mixer::{mix_block, MicBlock};
use rump::samples::{bytes_to_samples, compute_rms, deinterleave, mix, scale_all, FloatBits};

fn to_floats(bits: &[FloatBits]) -> Vec<f32> {
    bits.iter().map(|b| f32::from_bits(b.0)).collect()
}

fn rms(samples: &[f32], channels: u16) -> (f32, f32) {
    compute_rms(
        samples,
        channels,
        0.0f32,
        0.0f64,
        |sum: f64, s: f32| sum + s as f64 * s as f64,
        |sum: f64, n: u64| (sum / n as f64).sqrt() as f32,
    )
}

#[test]
fn test_bytes_to_samples() {
    let bytes: Vec<u8> = [1.0f32, -1.0f32, 0.5f32].iter().flat_map(|f| f.to_le_bytes()).collect();
    let samples = to_floats(&bytes_to_samples(&bytes));
    assert_eq!(samples, vec![1.0, -1.0, 0.5]);
}

#[test]
fn bytes_to_samples_drops_a_part_of_a_sample() {
    let samples = bytes_to_samples(&[0x78, 0x56, 0x34, 0x12, 0xFF, 0xFF, 0xFF]);
    assert_eq!(samples, vec![FloatBits(0x1234_5678)]);
    assert!(bytes_to_samples(&[]).is_empty());
}

#[test]
fn test_compute_rms_stereo() {
    // Constant signal of 0.5 on both channels
    let samples = vec![0.5f32, 0.5, 0.5, 0.5, 0.5, 0.5];
    let (l, r) = rms(&samples, 2);
    assert!((l - 0.5).abs() < 0.001);
    assert!((r - 0.5).abs() < 0.001);
}

#[test]
fn test_compute_rms_silence() {
    let samples = vec![0.0f32; 8];
    let (l, r) = rms(&samples, 2);
    assert_eq!(l, 0.0);
    assert_eq!(r, 0.0);
}

#[test]
fn test_compute_rms_empty() {
    let (l, r) = rms(&[], 2);
    assert_eq!(l, 0.0);
    assert_eq!(r, 0.0);
}

#[test]
fn compute_rms_takes_the_first_two_channels() {
    let samples = vec![3.0f32, 1.0, 9.0, 3.0, 1.0, 9.0];
    assert_eq!(rms(&samples, 3), (3.0, 1.0));
}

#[test]
fn compute_rms_of_one_channel_gives_both_levels() {
    assert_eq!(rms(&[3.0, 4.0, 5.0, 0.0, 0.0], 1), (10.0f32.sqrt(), 10.0f32.sqrt()));
    assert_eq!(rms(&[1.0, 2.0], 0), (0.0, 0.0));
}

#[test]
fn compute_rms_counts_a_frame_that_is_begun() {
    // Frames (2, 0, 7) and (2, 0).
    assert_eq!(rms(&[2.0, 0.0, 7.0, 2.0, 0.0], 3), (2.0, 0.0));
}

#[test]
fn test_deinterleave_stereo() {
    let interleaved = vec![1.0, 2.0, 3.0, 4.0, 5.0, 6.0];
    let planar = deinterleave(&interleaved, 2);
    assert_eq!(planar[0], vec![1.0, 3.0, 5.0]); // left
    assert_eq!(planar[1], vec![2.0, 4.0, 6.0]); // right
}

#[test]
fn test_deinterleave_mono() {
    let interleaved = vec![1.0, 2.0, 3.0];
    let planar = deinterleave(&interleaved, 1);
    assert_eq!(planar[0], vec![1.0, 2.0, 3.0]);
}

#[test]
fn deinterleave_keeps_a_frame_that_is_begun() {
    let planar = deinterleave(&[1, 2, 3, 4, 5], 3);
    assert_eq!(planar, vec![vec![1, 4], vec![2, 5], vec![3]]);
}

#[test]
fn interleaving_again_gives_the_samples() {
    let samples: Vec<u32> = (0..11).collect();
    let planar = deinterleave(&samples, 4);
    for (c, channel) in planar.iter().enumerate() {
        for (k, sample) in channel.iter().enumerate() {
            assert_eq!(*sample, samples[k * 4 + c]);
        }
    }
    assert_eq!(planar.iter().map(Vec::len).sum::<usize>(), 11);
}

struct Ducking {
    threshold: f32,
    duck_level: f32,
    attack_ms: u32,
    release_ms: u32,
    hold_ms: u32,
}

fn test_duck_config() -> Ducking {
    Ducking { threshold: 0.02, duck_level: 0.2, attack_ms: 100, release_ms: 800, hold_ms: 500 }
}

fn rate(cfg: &Ducking, ms: u32) -> f32 {
    change_rate(ms, f32::MAX, |ms: u32| (1.0 - cfg.duck_level) / (ms as f32 / 1000.0))
}

fn update(duck: &mut DuckState<f32>, active: bool, level: f32, cfg: &Ducking, dt: f32) -> f32 {
    let attack = rate(cfg, cfg.attack_ms);
    let release = rate(cfg, cfg.release_ms);
    duck.update(
        active,
        level > cfg.threshold,
        cfg.hold_ms as f32 / 1000.0,
        |hold: f32| hold > 0.0,
        |hold: f32| hold - dt,
        |gain: f32| (gain - attack * dt).max(cfg.duck_level),
        |gain: f32| (gain + release * dt).min(1.0),
    )
}

#[test]
fn test_duck_state_initial() {
    let duck = DuckState::new(1.0f32, 0.0);
    assert_eq!(duck.gain, 1.0);
}

#[test]
fn test_duck_state_ducks_on_mic() {
    let mut duck = DuckState::new(1.0f32, 0.0);
    let cfg = test_duck_config();
    // Simulate several frames of mic active above threshold
    for _ in 0..20 {
        update(&mut duck, true, 0.1, &cfg, 0.01);
    }
    assert!(duck.gain < 0.5, "gain should have ducked: {}", duck.gain);
}

#[test]
fn test_duck_state_recovers() {
    let mut duck = DuckState::new(1.0f32, 0.0);
    let cfg = test_duck_config();
    // Duck fully
    for _ in 0..50 {
        update(&mut duck, true, 0.1, &cfg, 0.01);
    }
    assert!(duck.gain <= cfg.duck_level + 0.05);
    // Release (mic off, wait past hold)
    for _ in 0..200 {
        update(&mut duck, false, 0.0, &cfg, 0.01);
    }
    assert!(duck.gain > 0.9, "gain should have recovered: {}", duck.gain);
}

#[test]
fn test_duck_state_no_duck_below_threshold() {
    let mut duck = DuckState::new(1.0f32, 0.0);
    let cfg = test_duck_config();
    // Mic active but below threshold
    update(&mut duck, true, 0.001, &cfg, 0.01);
    assert_eq!(duck.gain, 1.0);
}

#[test]
fn duck_state_holds_before_it_recovers() {
    let mut duck = DuckState { gain: 0.25f32, hold_remaining: 0.5 };
    let cfg = test_duck_config();
    assert_eq!(update(&mut duck, false, 1.0, &cfg, 0.25), 0.25);
    assert_eq!(update(&mut duck, false, 1.0, &cfg, 0.25), 0.25);
    assert_eq!(duck.hold_remaining, 0.0);
    assert_eq!(update(&mut duck, false, 1.0, &cfg, 0.25), 0.5);
}

#[test]
fn duck_state_changes_at_once_without_a_time() {
    let mut duck = DuckState::new(1.0f32, 0.0);
    let cfg = Ducking { attack_ms: 0, release_ms: 0, hold_ms: 0, ..test_duck_config() };
    assert_eq!(update(&mut duck, true, 0.5, &cfg, 0.01), 0.2);
    assert_eq!(update(&mut duck, false, 0.0, &cfg, 0.01), 1.0);
}

#[test]
fn gain_stays_between_its_limits() {
    let mut duck = DuckState::new(1.0f32, 0.0);
    let cfg = test_duck_config();
    for i in 0..1000 {
        let gain = update(&mut duck, i % 300 < 120, 0.1, &cfg, 0.013);
        assert!(gain >= cfg.duck_level && gain <= 1.0);
    }
}

#[test]
fn duck_config_keeps_its_numbers() {
    let config = DuckConfig {
        threshold: FloatBits(0.02f32.to_bits()),
        duck_level: FloatBits(0.2f32.to_bits()),
        attack_ms: 100,
        release_ms: 800,
        hold_ms: 500,
    };
    assert_eq!(f32::from_bits(config.duck_level.0), 0.2);
}

#[test]
fn mix_blends_frames_that_meet_the_microphone() {
    // Three stereo frames and a sample more, two samples of the microphone.
    let mut music = vec![10, 20, 30, 40, 50, 60, 70];
    mix(&mut music, &[1, 2], 2, true, 0, |m: i32, v: i32| m / 10 + 100 * v, |m: i32| -m);
    assert_eq!(music, vec![101, 102, 203, 204, -50, -60, -70]);
}

#[test]
fn mix_of_a_closed_microphone_adds_silence() {
    let mut music = vec![1, 2];
    mix(&mut music, &[5, 6, 7], 1, false, 0, |m: i32, v: i32| 2 * m + v, |m: i32| -m);
    assert_eq!(music, vec![2, 4]);
}

#[test]
fn scale_all_scales_each_sample() {
    let mut music = vec![1.0f32, -2.0];
    scale_all(&mut music, |s: f32| s * 0.5);
    assert_eq!(music, vec![0.5, -1.0]);
}

fn block(duck: &mut DuckState<f32>, music: &mut Vec<f32>, mic: MicBlock<'_, f32>, active: bool) {
    mix_block(
        duck,
        music,
        mic,
        active,
        2,
        0.0,
        0.5,
        |samples: &[f32]| samples[0] > 0.1,
        |hold: f32| hold > 0.0,
        |hold: f32| hold - 0.25,
        |gain: f32| gain - 0.5,
        |gain: f32| (gain + 0.25f32).min(1.0),
        |gain: f32| gain < 1.0,
        |gain: f32, m: f32, v: f32| m * gain + v,
        |gain: f32, m: f32| m * gain,
    )
}

#[test]
fn block_without_a_microphone_is_kept() {
    let mut duck = DuckState { gain: 0.5f32, hold_remaining: 0.5 };
    let mut music = vec![1.0, 2.0];
    block(&mut duck, &mut music, MicBlock::Missing, true);
    assert_eq!(music, vec![1.0, 2.0]);
    assert_eq!((duck.gain, duck.hold_remaining), (0.5, 0.5));
}

#[test]
fn block_with_speech_is_ducked_and_mixed() {
    let mut duck = DuckState::new(1.0f32, 0.0);
    let mut music = vec![1.0, 2.0, 3.0, 4.0];
    block(&mut duck, &mut music, MicBlock::Samples(&[0.25]), true);
    assert_eq!((duck.gain, duck.hold_remaining), (0.5, 0.5));
    assert_eq!(music, vec![0.75, 1.25, 1.5, 2.0]);
}

#[test]
fn block_with_a_closed_microphone_is_not_ducked() {
    let mut duck = DuckState::new(1.0f32, 0.0);
    let mut music = vec![1.0, 2.0];
    block(&mut duck, &mut music, MicBlock::Samples(&[0.25]), false);
    assert_eq!(duck.gain, 1.0);
    assert_eq!(music, vec![1.0, 2.0]);
}

#[test]
fn block_without_samples_of_the_microphone_recovers() {
    let mut duck = DuckState { gain: 0.5f32, hold_remaining: 0.0 };
    let mut music = vec![4.0];
    block(&mut duck, &mut music, MicBlock::Nothing, true);
    assert_eq!(music, vec![3.0]);
    block(&mut duck, &mut music, MicBlock::Nothing, true);
    assert_eq!(music, vec![3.0]);
    assert_eq!(duck.gain, 1.0);
}

#[test]
fn a_closed_microphone_is_never_heard() {
    let hears: [&[f32]; 3] = [&[0.0, 0.0], &[0.9, -0.9], &[0.5, 0.25]];
    for heard in hears {
        let mut duck = DuckState::new(1.0f32, 0.0);
        for _ in 0..3 {
            let mut music = vec![0.5, -0.5, 0.25, 1.0, 0.75];
            block(&mut duck, &mut music, MicBlock::Samples(heard), false);
            assert_eq!(music, vec![0.5, -0.5, 0.25, 1.0, 0.75]);
        }
        assert_eq!((duck.gain, duck.hold_remaining), (1.0, 0.0));
    }
}

#[test]
fn the_gain_falls_only_with_speech() {
    let mut duck = DuckState::new(1.0f32, 0.0);
    let cfg = test_duck_config();
    for i in 0..400 {
        let before = duck.gain;
        let speech = i % 100 < 30;
        let held = duck.hold_remaining > 0.0;
        let after = update(&mut duck, speech, 0.1, &cfg, 0.02);
        assert!(if speech { after <= before } else { after >= before });
        assert!(speech || !held || after == before);
    }
}
