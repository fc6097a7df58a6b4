use slint_clash::api::{Traffic, Version};
use slint_clash::config::Config;
use slint_clash::controller::Controller;
use slint_clash::monitor::{Monitor, Tick};
use slint_clash::settings::PathProbe;
use slint_clash::startup::Probe;
use slint_clash::ui::{FlagField, TextField, UiUpdate};

fn text(field: TextField, value: &str) -> UiUpdate {
    UiUpdate::Text(field, value.to_owned())
}

fn running() -> Controller<u32> {
    let mut state: Controller<u32> = Controller::bind(Ok(Config::default())).0;
    let startup = state.begin_start().unwrap();
    let readiness = startup.launched(Ok(Ok(()))).unwrap();
    match readiness.answered(Ok(Version { meta: None, version: None })) {
        Probe::Ready(core) => {
            state.accept_start(core, 7, None).unwrap();
        }
        Probe::Waiting(_) => panic!("the core answered"),
    }
    state
}

#[test]
fn a_running_core_is_sampled() {
    let mut state = running();
    let mut monitor = Monitor::new();
    match monitor.tick(&mut state, None) {
        Tick::Sample(request) => assert_eq!(request.url, "http://127.0.0.1:9090/traffic"),
        other => panic!("{other:?}"),
    }
    assert_eq!(
        monitor.sampled(Ok(Traffic { up: 512, down: 1_048_576 })),
        vec![
            text(TextField::TrafficUpload, "512 B/s"),
            text(TextField::TrafficDownload, "1.00 MiB/s"),
            UiUpdate::TogglePulse,
        ]
    );
}

#[test]
fn unavailable_traffic_is_told_once_per_outage() {
    let mut monitor = Monitor::new();
    for attempt in 1..=600_u32 {
        let updates = monitor.sampled(Err(format!("error {attempt}")));
        if attempt == 3 {
            assert_eq!(
                updates,
                vec![text(TextField::ErrorMessage, "Live traffic is unavailable: error 3")]
            );
        } else {
            assert_eq!(updates, vec![]);
        }
    }
    assert_eq!(monitor.failures, 255);
    monitor.sampled(Ok(Traffic { up: 0, down: 0 }));
    assert_eq!(monitor.failures, 0);
    for attempt in 1..=3_u32 {
        let updates = monitor.sampled(Err("again".to_owned()));
        assert_eq!(updates.is_empty(), attempt != 3);
    }
}

#[test]
fn an_idle_monitor_forgets_its_failures() {
    let mut state: Controller<u32> = Controller::bind(Ok(Config::default())).0;
    let mut monitor = Monitor::new();
    monitor.sampled(Err("x".to_owned()));
    assert_eq!(monitor.failures, 1);
    assert!(matches!(monitor.tick(&mut state, None), Tick::Idle));
    assert_eq!(monitor.failures, 0);
    assert!(matches!(monitor.tick(&mut state, Some("exit".to_owned())), Tick::Idle));
}

#[test]
fn a_core_that_ended_is_shown_and_forgotten() {
    let mut state = running();
    let mut monitor = Monitor::new();
    monitor.sampled(Err("x".to_owned()));
    match monitor.tick(&mut state, Some("exit status: 1".to_owned())) {
        Tick::Exited(updates) => assert_eq!(
            updates,
            vec![
                UiUpdate::Flag(FlagField::CoreRunning, false),
                UiUpdate::Flag(FlagField::CoreBusy, false),
                text(TextField::StatusMessage, "Core stopped unexpectedly"),
                text(TextField::ErrorMessage, "Mihomo exited unexpectedly (exit status: 1)"),
                text(TextField::TrafficUpload, "—"),
                text(TextField::TrafficDownload, "—"),
            ]
        ),
        other => panic!("{other:?}"),
    }
    assert_eq!(monitor.failures, 1);
    assert!(state.api().is_none());
    assert!(state.begin_start().is_some());
}

#[test]
fn the_monitor_ends_with_the_application() {
    let mut state = running();
    state.shutdown();
    let mut monitor = Monitor::new();
    assert!(matches!(monitor.tick(&mut state, None), Tick::End));
}

#[test]
fn a_setting_saved_while_the_core_runs_needs_a_restart() {
    let mut state = running();
    let probe = PathProbe { is_file: false, is_dir: false };
    let (_, restart) = state.update_setting(3, "s", probe).unwrap();
    assert!(restart);
}
