use audio_multiplexer::config::{Config, TargetConfig};
use audio_multiplexer::devices::{DeviceInfo, MixFormat, SampleType};
use audio_multiplexer::session::{
    device_label, missing_label, EngineAction, Session, StartRequest, SAVE_DEBOUNCE_NANOS,
};

fn device(id: &str, is_default: bool) -> DeviceInfo {
    DeviceInfo {
        id: id.to_string(),
        name: format!("Device {id}"),
        is_default,
        mix_format: MixFormat {
            sample_rate: 48000,
            channels: 2,
            bits_per_sample: 32,
            sample_type: SampleType::Float,
        },
    }
}

fn target(id: &str, volume: u8) -> TargetConfig {
    TargetConfig { id: id.to_string(), name: format!("Saved {id}"), volume, delay_ms: 0 }
}

/// Default device `s`; `a` and `b` connected and selected, `x` unplugged.
fn session() -> Session {
    let config = Config {
        source: None,
        targets: vec![target("b", 20), target("x", 30), target("s", 40), target("a", 50)],
    };
    Session::new(
        Ok(()),
        Ok(config),
        Ok(()),
        Ok(vec![device("a", false), device("s", true), device("b", false)]),
    )
}

fn ids(request: &StartRequest) -> Vec<&str> {
    request.targets.iter().map(|t| t.id.as_str()).collect()
}

fn started() -> Session {
    let mut session = session();
    let request = session.start_engine().unwrap();
    session.engine_started(request, Ok(()));
    session
}

#[test]
fn setup_problems_are_shown_latest_first() {
    let error = |s: Session| s.last_error.unwrap();
    let fail = || "no".to_string();
    let session = Session::new(Err(fail()), Ok(Config::default()), Ok(()), Ok(vec![]));
    assert_eq!(error(session), "COM initialization failed: no");
    let session = Session::new(Err(fail()), Err(fail()), Ok(()), Ok(vec![]));
    assert_eq!(session.config, Config::default());
    assert_eq!(error(session), "config not loaded: no");
    let session = Session::new(Ok(()), Err(fail()), Err(fail()), Ok(vec![]));
    assert_eq!(error(session), "device notifications unavailable: no");
    let session = Session::new(Ok(()), Ok(Config::default()), Err(fail()), Err(fail()));
    assert_eq!(error(session), "device enumeration failed: no");
    assert_eq!(self::session().last_error, None);
}

#[test]
fn source_is_the_configured_or_the_default_device() {
    let mut session = session();
    assert_eq!(session.effective_source().unwrap().id, "s");
    session.config.source = Some("b".to_string());
    assert_eq!(session.effective_source().unwrap().id, "b");
    session.config.source = Some("gone".to_string());
    assert!(session.effective_source().is_none());
}

#[test]
fn desired_targets_are_connected_and_not_the_source() {
    let mut session = session();
    assert_eq!(session.desired_target_ids(), vec!["b", "a"]);
    session.config.source = Some("a".to_string());
    assert_eq!(session.desired_target_ids(), vec!["b", "s"]);
}

#[test]
fn start_request_carries_names_and_volumes() {
    let mut session = session();
    session.engine_notice = Some("old".to_string());
    let request = session.start_engine().unwrap();
    assert_eq!(request.source_id, "s");
    assert_eq!(request.sample_rate, 48000);
    assert_eq!(ids(&request), vec!["b", "a"]);
    assert_eq!(request.targets[0].name, "Device b");
    assert_eq!(request.targets[0].volume, 20);
    assert_eq!(request.targets[1].volume, 50);
    assert_eq!(session.engine_notice, None);
    session.engine_started(request, Ok(()));
    let engine = session.engine.as_ref().unwrap();
    assert_eq!(engine.target_ids, vec!["b", "a"]);
    assert_eq!(engine.index_of("a"), Some(1));
    assert_eq!(engine.index_of("x"), None);
}

#[test]
fn start_needs_a_source_and_a_target() {
    let mut session = session();
    session.config.source = Some("gone".to_string());
    assert!(session.start_engine().is_none());
    assert_eq!(
        session.last_error.as_deref(),
        Some("source device is not connected (or no default device)")
    );
    session.config = Config { source: None, targets: vec![target("x", 1), target("s", 1)] };
    assert!(session.start_engine().is_none());
    assert_eq!(session.last_error.as_deref(), Some("no connected target devices selected"));
}

#[test]
fn failed_start_is_reported() {
    let mut session = session();
    let request = session.start_engine().unwrap();
    session.engine_started(request, Err("busy".to_string()));
    assert!(session.engine.is_none());
    assert_eq!(session.last_error.as_deref(), Some("engine start failed: busy"));
}

#[test]
fn unchanged_devices_keep_the_engine() {
    let mut session = started();
    session.refresh_devices(Ok(vec![device("b", false), device("a", false), device("s", true)]));
    assert!(matches!(session.reconcile_after_device_change(), EngineAction::Keep));
    assert!(session.engine.is_some());
}

#[test]
fn replugged_and_removed_targets_restart_the_engine() {
    let mut session = started();
    let plugged = vec![device("a", false), device("s", true), device("b", false), device("x", false)];
    session.refresh_devices(Ok(plugged));
    match session.reconcile_after_device_change() {
        EngineAction::Restart(Some(request)) => {
            assert_eq!(ids(&request), vec!["b", "x", "a"]);
            session.engine_started(request, Ok(()));
        }
        _ => panic!("expected a restart"),
    }
    session.refresh_devices(Ok(vec![device("a", false), device("s", true)]));
    match session.reconcile_after_device_change() {
        EngineAction::Restart(Some(request)) => assert_eq!(ids(&request), vec!["a"]),
        _ => panic!("expected a restart"),
    }
    // The config keeps its entries.
    assert_eq!(session.config.targets.len(), 4);
}

#[test]
fn a_changed_default_device_is_followed() {
    let mut session = started();
    let moved = vec![device("a", true), device("s", false), device("b", false)];
    session.refresh_devices(Ok(moved));
    match session.reconcile_after_device_change() {
        EngineAction::Restart(Some(request)) => {
            assert_eq!(request.source_id, "a");
            assert_eq!(ids(&request), vec!["b", "s"]);
        }
        _ => panic!("expected a restart"),
    }
}

#[test]
fn a_failed_enumeration_keeps_the_devices() {
    let mut session = session();
    session.refresh_devices(Err("lost".to_string()));
    assert_eq!(session.devices.len(), 3);
    assert_eq!(session.last_error.as_deref(), Some("device enumeration failed: lost"));
}

#[test]
fn a_dead_engine_is_noticed() {
    let mut session = started();
    assert!(!session.poll_engine_health(true));
    assert!(session.poll_engine_health(false));
    assert!(session.engine.is_none());
    assert_eq!(
        session.engine_notice.as_deref(),
        Some("engine stopped: the source failed or was removed")
    );
    assert!(!session.poll_engine_health(false));
    assert!(!session.stop_engine());
}

#[test]
fn selecting_and_deselecting_a_target() {
    let mut session = session();
    let new = device("n", false);
    let before = session.config.clone();
    assert!(matches!(session.set_target_enabled(&new, true, 7), EngineAction::Keep));
    let added = session.config.targets.last().unwrap();
    assert_eq!((added.id.as_str(), added.name.as_str(), added.volume), ("n", "Device n", 100));
    assert_eq!(session.dirty_since, Some(7));
    session.set_target_enabled(&new, true, 8);
    assert_eq!(session.config.targets.len(), 5);
    session.set_target_enabled(&new, false, 9);
    assert_eq!(session.config, before);

    let mut running = started();
    match running.set_target_enabled(&device("b", false), false, 1) {
        EngineAction::Restart(Some(request)) => assert_eq!(ids(&request), vec!["a"]),
        _ => panic!("expected a restart"),
    }
}

#[test]
fn volumes_are_stored_and_located() {
    let mut session = started();
    assert_eq!(session.set_target_volume("a", 70, 5), Some(1));
    assert_eq!(session.selected_volume("a"), Some(70));
    assert_eq!(session.dirty_since, Some(5));
    assert_eq!(session.set_target_volume("x", 80, 6), None);
    assert_eq!(session.selected_volume("x"), Some(80));
    assert_eq!(session.set_target_volume("unknown", 10, 7), None);
    assert_eq!(session.dirty_since, Some(6));
    assert_eq!(session.selected_volume("unknown"), None);
}

#[test]
fn choosing_another_source_restarts() {
    let mut session = started();
    assert!(matches!(session.select_source(None, 1), EngineAction::Keep));
    assert_eq!(session.dirty_since, None);
    match session.select_source(Some("b".to_string()), 2) {
        EngineAction::Restart(Some(request)) => {
            assert_eq!(request.source_id, "b");
            assert_eq!(ids(&request), vec!["s", "a"]);
        }
        _ => panic!("expected a restart"),
    }
    assert_eq!(session.dirty_since, Some(2));
}

#[test]
fn saves_are_debounced() {
    let mut session = session();
    assert!(!session.save_due(u64::MAX, true));
    session.mark_dirty(100);
    assert!(!session.save_due(100 + SAVE_DEBOUNCE_NANOS - 1, false));
    assert!(session.save_due(100 + SAVE_DEBOUNCE_NANOS, false));
    assert!(session.save_due(100, true));
    session.save_done(Ok(()));
    assert!(!session.save_due(u64::MAX, true));
    session.mark_dirty(100);
    session.save_done(Err("disk full".to_string()));
    assert_eq!(session.last_error.as_deref(), Some("saving config failed: disk full"));
    assert_eq!(session.dirty_since, None);
}

#[test]
fn labels_and_rows() {
    let mut session = session();
    assert_eq!(session.selected_source_label(), "Default render device");
    assert_eq!(
        session.capture_label().unwrap(),
        "capturing: Device s (48000 Hz, 2 ch, 32-bit float)"
    );
    assert_eq!(session.target_rows(), vec![0, 2]);
    let missing = session.missing_targets();
    assert_eq!(missing.len(), 1);
    assert_eq!(missing_label(&missing[0]), "Saved x (not connected)");
    let unnamed = TargetConfig { name: String::new(), ..target("x", 1) };
    assert_eq!(missing_label(&unnamed), "x (not connected)");
    assert_eq!(device_label(&device("s", true)), "Device s (default)");
    assert_eq!(device_label(&device("a", false)), "Device a");

    session.config.source = Some("b".to_string());
    assert_eq!(session.selected_source_label(), "Device b");
    session.config.source = Some("gone".to_string());
    assert_eq!(session.selected_source_label(), "gone (not connected)");
    assert_eq!(session.capture_label(), None);
    assert_eq!(session.target_rows(), vec![0, 1, 2]);

    session.remove_target(&"x".to_string(), 3);
    assert!(session.missing_targets().is_empty());
    assert_eq!(session.dirty_since, Some(3));
}
