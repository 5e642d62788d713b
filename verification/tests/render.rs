use audio_multiplexer::engine::{DeviceStats, EngineState};
use audio_multiplexer::render::{
    apply_gain, fill_frame, on_wake, write_device_frames, ControlTimer, Pass, Playback,
    RenderParams, RenderSession, Wake, CONTROL_INTERVAL_NANOS, WAIT_FAILED, WAIT_OBJECT_0,
};
use audio_multiplexer::ring::{ReadError, Reader, CHANNELS};

fn ramp(samples: &mut [f32], current: &mut f32, target: f32, step: f32) {
    apply_gain(
        samples,
        current,
        target,
        1.0f32,
        |a: f32, b: f32| a == b,
        |gain: f32, target: f32| gain + (target - gain).clamp(-step, step),
        |sample: f32, gain: f32| sample * gain,
    );
}

#[test]
fn steady_full_gain_leaves_samples_untouched() {
    let mut samples = vec![0.25f32; 8];
    let mut current = 1.0f32;
    ramp(&mut samples, &mut current, 1.0, 0.01);
    assert_eq!(samples, vec![0.25f32; 8]);
}

#[test]
fn gain_ramps_toward_target_without_overshoot() {
    let mut samples = vec![1.0f32; 20];
    let mut current = 0.0f32;
    ramp(&mut samples, &mut current, 1.0, 0.25);
    // Each frame steps by at most 0.25 and never exceeds the target.
    let per_frame: Vec<f32> = samples.chunks_exact(CHANNELS).map(|f| f[0]).collect();
    assert_eq!(per_frame[0], 0.25);
    assert_eq!(per_frame[1], 0.5);
    assert!(per_frame.windows(2).all(|w| w[1] >= w[0]));
    assert!(per_frame.iter().all(|&g| g <= 1.0));
    assert_eq!(current, 1.0);
}

#[test]
fn both_channels_of_a_frame_get_the_same_gain() {
    let mut samples = vec![1.0f32; 4];
    let mut current = 0.0f32;
    ramp(&mut samples, &mut current, 1.0, 0.5);
    assert_eq!(samples, vec![0.5, 0.5, 1.0, 1.0]);
}

#[test]
fn zero_volume_silences_after_the_ramp() {
    let mut samples = vec![1.0f32; 100];
    let mut current = 1.0f32;
    ramp(&mut samples, &mut current, 0.0, 0.1);
    assert_eq!(current, 0.0);
    assert_eq!(samples[samples.len() - 1], 0.0);
}

#[test]
fn a_trailing_half_frame_is_left_alone() {
    let mut samples = vec![1.0f32; 3];
    let mut current = 0.5f32;
    ramp(&mut samples, &mut current, 0.5, 0.1);
    assert_eq!(samples, vec![0.5, 0.5, 1.0]);
    assert_eq!(current, 0.5);
}

#[test]
fn wake_decisions() {
    assert_eq!(on_wake(true, WAIT_FAILED), Wake::Stop);
    assert_eq!(on_wake(false, WAIT_FAILED), Wake::Fail);
    assert_eq!(on_wake(false, WAIT_OBJECT_0), Wake::Render);
    assert_eq!(on_wake(false, 258), Wake::Wait);
}

fn session(target_fill_frames: u64, stats: &mut DeviceStats) -> RenderSession {
    let params = RenderParams {
        device_id: "id".to_string(),
        source_rate: 48000,
        target_fill_frames,
    };
    RenderSession::start(&params, 480, stats)
}

#[test]
fn rebuffering_plays_silence_until_the_target_fill() {
    let mut stats = DeviceStats::new("Speakers".to_string());
    let mut session = session(4800, &mut stats);
    assert_eq!(stats.state(), EngineState::Rebuffering);
    let mut reader = Reader::at(0);
    assert_eq!(
        session.begin_pass(80, &mut reader, 4799, &mut stats),
        Pass::Silence { frames: 400 }
    );
    assert_eq!(reader.pos(), 0);
    assert_eq!(session.begin_pass(480, &mut reader, 6000, &mut stats), Pass::Idle);
    assert!(session.rebuffering);
    // Latches exactly the target fill behind the writer.
    assert_eq!(
        session.begin_pass(0, &mut reader, 6000, &mut stats),
        Pass::Read { frames: 480, latched: true }
    );
    assert_eq!(reader.pos(), 1200);
    assert_eq!(stats.state(), EngineState::Running);
    assert_eq!(
        session.begin_pass(0, &mut reader, 6001, &mut stats),
        Pass::Read { frames: 480, latched: false }
    );
    assert_eq!(reader.pos(), 1200);
}

#[test]
fn underrun_rebuffers_and_overrun_reseeks() {
    let mut stats = DeviceStats::new("Speakers".to_string());
    let mut session = session(100, &mut stats);
    let mut reader = Reader::at(0);
    session.begin_pass(0, &mut reader, 100, &mut stats);
    assert_eq!(
        session.finish_read(Ok(()), 480, &mut reader, 100, &mut stats),
        Playback::Play
    );
    assert_eq!(
        session.finish_read(Err(ReadError::Overwritten), 480, &mut reader, 90_000, &mut stats),
        Playback::Silence { frames: 480, reset: true }
    );
    assert_eq!(reader.pos(), 89_900);
    assert!(!session.rebuffering);
    assert_eq!(
        session.finish_read(Err(ReadError::NotEnough), 480, &mut reader, 90_000, &mut stats),
        Playback::Silence { frames: 480, reset: false }
    );
    assert!(session.rebuffering);
    assert_eq!(stats.underruns(), 1);
    assert_eq!(stats.overruns(), 1);
    assert_eq!(stats.state(), EngineState::Rebuffering);
}

#[test]
fn fill_level_in_milliseconds() {
    let mut stats = DeviceStats::new("Speakers".to_string());
    let session = session(4800, &mut stats);
    let reader = Reader::at(200);
    assert_eq!(session.end_pass(&reader, 5000, &mut stats), 4800);
    assert_eq!(stats.fill_ms(), 100);
}

#[test]
fn device_frames_follow_the_channel_count() {
    let mut mono = [0i16; 1];
    fill_frame(&mut mono, 10, 20, 15, 0);
    assert_eq!(mono, [15]);
    let mut surround = [9i16; 6];
    fill_frame(&mut surround, 10, 20, 15, 0);
    assert_eq!(surround, [10, 20, 0, 0, 0, 0]);

    let mut out = Vec::new();
    write_device_frames(&mut out, 2, 3, &[1.0f32, 2.0, 3.0, 4.0], &[], 0.0);
    assert_eq!(out, vec![1.0, 2.0, 0.0, 3.0, 4.0, 0.0]);
    let mut out = Vec::new();
    write_device_frames(&mut out, 2, 1, &[1i16, 3, 5, 7], &[2, 6], 0);
    assert_eq!(out, vec![2, 6]);
}

#[test]
fn control_updates_are_one_interval_apart() {
    let mut timer = ControlTimer::new(5);
    assert!(!timer.due(5 + CONTROL_INTERVAL_NANOS - 1));
    assert!(timer.due(5 + CONTROL_INTERVAL_NANOS));
    assert!(!timer.due(5 + CONTROL_INTERVAL_NANOS));
    timer.reset(1_000_000_000);
    assert!(!timer.due(1_050_000_000));
    assert!(timer.due(1_100_000_000));
}

#[test]
fn a_ramp_goes_on_over_block_bounds() {
    for (start, target) in [(0.0f32, 1.0f32), (1.0, 0.25), (0.5, 1.0), (1.0, 1.0)] {
        let input: Vec<f32> = (0..24).map(|i| i as f32 - 7.5).collect();
        let mut whole = input.clone();
        let mut whole_gain = start;
        ramp(&mut whole, &mut whole_gain, target, 0.125);
        for cut in (0..=24).step_by(2) {
            let mut cut_up = input.clone();
            let mut gain = start;
            ramp(&mut cut_up[..cut], &mut gain, target, 0.125);
            ramp(&mut cut_up[cut..], &mut gain, target, 0.125);
            assert_eq!(cut_up, whole);
            assert_eq!(gain, whole_gain);
        }
    }
}
