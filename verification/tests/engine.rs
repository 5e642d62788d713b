use audio_multiplexer::engine::{
    check_source_rate, render_ended, supports_rate, DeviceStats, EnginePlan, EngineState, RunEvent,
    RunState, Source, Target,
};
use audio_multiplexer::hotplug::{DeviceEvent, HotplugWatcher};
use audio_multiplexer::ring::Ring;

#[test]
fn states_survive_encoding() {
    for state in [
        EngineState::Starting,
        EngineState::Rebuffering,
        EngineState::Running,
        EngineState::Failed,
    ] {
        assert_eq!(EngineState::from_u8(state.to_u8()), state);
    }
    assert_eq!(EngineState::from_u8(200), EngineState::Starting);
    assert_eq!(EngineState::Rebuffering.as_str(), "rebuffering");
}

#[test]
fn status_line_shows_all_counters() {
    let mut stats = DeviceStats::new("Speakers".to_string());
    assert_eq!(
        stats.status_line(),
        "  [Speakers] state=starting fill=0ms drift=+0ppm underruns=0 overruns=0"
    );
    stats.set_state(EngineState::Running);
    stats.set_fill_ms(101);
    stats.set_drift_ppm(-42);
    stats.add_underrun();
    stats.add_overrun();
    stats.add_overrun();
    assert_eq!(
        stats.status_line(),
        "  [Speakers] state=running fill=101ms drift=-42ppm underruns=1 overruns=2"
    );
    assert_eq!(
        stats.row_line(),
        "        running | fill 101 ms | drift -42 ppm | underruns 1 | overruns 2"
    );
    stats.set_drift_ppm(i64::MIN);
    assert!(stats.status_line().contains("drift=-9223372036854775808ppm"));
    stats.set_fill_ms(u64::MAX);
    assert!(stats.status_line().contains("fill=18446744073709551615ms"));
    assert_eq!(stats.drift_ppm(), i64::MIN);
}

fn targets() -> Vec<Target> {
    vec![
        Target { id: "a".to_string(), name: "Speakers".to_string(), volume: 100 },
        Target { id: "b".to_string(), name: "Headset".to_string(), volume: 50 },
    ]
}

#[test]
fn plan_and_fan_out() {
    let source = Source::Loopback { device_id: "s".to_string(), sample_rate: 44100 };
    let plan = EnginePlan::new(&source);
    assert_eq!(plan.source_rate, 44100);
    assert_eq!(plan.ring_frames, 176400);
    assert_eq!(plan.target_fill_frames, 4410);
    assert_eq!(EnginePlan::new(&Source::Tone).source_rate, 48000);
    assert_eq!(Ring::new(plan.ring_frames).capacity_frames(), 176400);

    let jobs = plan.fan_out(&targets());
    assert_eq!(jobs.len(), 2);
    assert_eq!(jobs[1].params.device_id, "b");
    assert_eq!(jobs[1].params.source_rate, 44100);
    assert_eq!(jobs[0].params.target_fill_frames, jobs[1].params.target_fill_frames);
    assert_eq!(jobs[1].thread_name, "render Headset");
    assert_eq!(jobs[1].stats.name(), "Headset");
    assert_eq!(jobs[1].stats.state(), EngineState::Starting);
}

#[test]
fn rates_below_the_safety_margin_are_not_supported() {
    assert!(!supports_rate(0));
    assert!(!supports_rate(4799));
    assert!(supports_rate(4800));
    assert!(supports_rate(192000));
}

#[test]
fn a_failing_device_does_not_stop_the_engine() {
    let mut run = RunState::new(None);
    let mut failed = DeviceStats::new("Speakers".to_string());
    let mut other = DeviceStats::new("Headset".to_string());
    other.set_state(EngineState::Running);
    assert_eq!(
        render_ended(&mut failed, Some("unplugged".to_string())),
        Some("render device 'Speakers' failed: unplugged".to_string())
    );
    assert_eq!(render_ended(&mut other, None), None);
    run.on_event(RunEvent::RenderEnded);
    run.on_event(RunEvent::Tick { elapsed_ms: u64::MAX, since_report_ms: 0 });
    assert_eq!(failed.state(), EngineState::Failed);
    assert_eq!(other.state(), EngineState::Running);
    assert!(!run.stopped);
}

#[test]
fn source_user_and_limit_stop_the_engine() {
    let mut run = RunState::new(None);
    run.on_event(RunEvent::SourceEnded);
    assert!(run.stopped);
    let mut run = RunState::new(None);
    run.on_event(RunEvent::StopRequested);
    assert!(run.stopped);
    let mut run = RunState::new(Some(2));
    run.on_event(RunEvent::Tick { elapsed_ms: 1999, since_report_ms: 1999 });
    assert!(!run.stopped);
    run.on_event(RunEvent::Tick { elapsed_ms: 2000, since_report_ms: 2000 });
    assert!(run.stopped);
    // It never resumes.
    run.on_event(RunEvent::RenderEnded);
    assert!(run.stopped);
}

#[test]
fn status_is_reported_every_interval() {
    let mut run = RunState::new(None);
    assert!(!run.on_event(RunEvent::Tick { elapsed_ms: 4999, since_report_ms: 4999 }));
    assert!(run.on_event(RunEvent::Tick { elapsed_ms: 5000, since_report_ms: 5000 }));
    assert!(!run.on_event(RunEvent::RenderEnded));
}

#[test]
fn the_source_rate_must_not_change() {
    assert_eq!(check_source_rate(48000, 48000), Ok(()));
    assert_eq!(
        check_source_rate(44100, 48000),
        Err("source sample rate changed between setup and start (44100 vs 48000)".to_string())
    );
}

#[test]
fn polls_report_device_changes_once() {
    let mut watcher = HotplugWatcher::new();
    assert!(!watcher.take_changes());
    watcher.notify(DeviceEvent::PropertyChanged);
    assert!(!watcher.take_changes());
    for event in [
        DeviceEvent::StateChanged,
        DeviceEvent::Added,
        DeviceEvent::Removed,
        DeviceEvent::DefaultChanged,
    ] {
        watcher.notify(event);
        watcher.notify(DeviceEvent::PropertyChanged);
        assert!(watcher.take_changes());
        assert!(!watcher.take_changes());
    }
}
