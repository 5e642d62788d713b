use audio_multiplexer::tone::{
    to_stereo, tone_point, TonePacer, TonePoint, BURST_FRAMES, CHUNK_FRAMES, CHUNK_NANOS,
    FADE_FRAMES, PERIOD_FRAMES, TONE_RATE,
};

const AMPLITUDE: f32 = 0.5;

fn tone_sample(frame: u64) -> f32 {
    match tone_point(frame) {
        TonePoint::Silence => 0.0,
        TonePoint::Burst { position, envelope } => {
            let phase = 2.0 * std::f64::consts::PI * 1000.0 * position as f64 / f64::from(TONE_RATE);
            AMPLITUDE * (envelope as f32 / FADE_FRAMES as f32) * phase.sin() as f32
        }
    }
}

#[test]
fn burst_is_silent_outside_and_bounded_inside() {
    for frame in 0..2 * PERIOD_FRAMES {
        let sample = tone_sample(frame);
        let position = frame % PERIOD_FRAMES;
        if position >= BURST_FRAMES {
            assert_eq!(sample, 0.0, "expected silence at frame {frame}");
            assert_eq!(tone_point(frame), TonePoint::Silence);
        } else {
            assert!(sample.abs() <= AMPLITUDE, "overshoot at frame {frame}");
        }
    }
}

#[test]
fn burst_fades_in_from_zero() {
    assert_eq!(tone_sample(0), 0.0);
    assert!(tone_sample(FADE_FRAMES + 12).abs() > 0.0);
}

#[test]
fn envelope_rises_holds_and_falls() {
    let at = |position: u64| match tone_point(PERIOD_FRAMES + position) {
        TonePoint::Burst { envelope, .. } => envelope,
        TonePoint::Silence => panic!("no burst at {position}"),
    };
    assert_eq!(at(0), 0);
    assert_eq!(at(47), 47);
    assert_eq!(at(48), 48);
    assert_eq!(at(432), 48);
    assert_eq!(at(433), 47);
    assert_eq!(at(479), 1);
}

#[test]
fn chunks_tile_the_pattern() {
    let mut pacer = TonePacer::new(0);
    let first = pacer.chunk_points();
    assert_eq!(first.len(), CHUNK_FRAMES);
    assert_eq!(first[10], tone_point(10));
    pacer.chunk_done(0);
    let second = pacer.chunk_points();
    assert_eq!(second[0], tone_point(480));
}

#[test]
fn pacing_keeps_the_wall_clock() {
    let mut pacer = TonePacer::new(1000);
    assert_eq!(pacer.chunk_done(1500), CHUNK_NANOS - 500);
    assert_eq!(pacer.next_deadline, 1000 + CHUNK_NANOS);
    // Fell behind: no sleep, resynchronize.
    let late = 1000 + 5 * CHUNK_NANOS;
    assert_eq!(pacer.chunk_done(late), 0);
    assert_eq!(pacer.next_deadline, late);
    assert_eq!(pacer.total_frames, 2 * CHUNK_FRAMES as u64);
}

#[test]
fn samples_go_to_both_sides() {
    assert_eq!(to_stereo(&[1, 2, 3]), vec![1, 1, 2, 2, 3, 3]);
    assert_eq!(to_stereo(&[]), Vec::<u32>::new());
}

#[test]
fn every_second_plays_the_same() {
    for position in [0, 1, 47, 48, 431, 432, 479, 480, 47999] {
        assert_eq!(tone_point(7 * PERIOD_FRAMES + position), tone_point(position));
    }
    let last = u64::MAX;
    assert_eq!(tone_point(last), tone_point(last % PERIOD_FRAMES));
}
