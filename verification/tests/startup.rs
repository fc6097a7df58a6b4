use slint_clash::api::Version;
use slint_clash::config::Config;
use slint_clash::path::Location;
use slint_clash::sidecar::SidecarManager;
use slint_clash::startup::{Probe, Readiness, Startup, MAX_PROBES, PROBE_PAUSE_MS};

fn launched(config: Config) -> Readiness {
    Startup::new(config, 3).launched(Ok(Ok(()))).unwrap()
}

fn version(text: Option<&str>) -> Version {
    Version { meta: None, version: text.map(|t| t.to_owned()) }
}

#[test]
fn a_failed_launch_is_told() {
    let startup = Startup::new(Config::default(), 1);
    let error = startup.launched(Ok(Err("no binary".to_owned()))).unwrap_err();
    assert_eq!(error, "no binary");
    let startup = Startup::new(Config::default(), 1);
    let error = startup.launched(Err("panicked".to_owned())).unwrap_err();
    assert_eq!(error, "Mihomo start task failed unexpectedly: panicked");
}

#[test]
fn the_core_is_asked_at_its_address() {
    let config = Config {
        api_port: 1234,
        api_secret: Some("secret".to_owned()),
        ..Config::default()
    };
    let readiness = launched(config);
    let request = readiness.probe();
    assert_eq!(request.url, "http://127.0.0.1:1234/version");
    assert_eq!(request.bearer, Some("secret".to_owned()));
    match readiness.answered(Ok(version(Some("v1")))) {
        Probe::Ready(core) => {
            assert_eq!(core.mode_request().url, "http://127.0.0.1:1234/configs");
            assert_eq!(core.generation(), 3);
            assert_eq!(core.into_parts().1, "v1");
        }
        Probe::Waiting(_) => panic!("the core answered"),
    }
}

#[test]
fn a_silent_core_is_given_up_after_twenty_tries() {
    assert_eq!(MAX_PROBES, 20);
    assert_eq!(PROBE_PAUSE_MS, 250);
    let mut readiness = launched(Config::default());
    for attempt in 1..=20_u32 {
        let pause = match readiness.answered(Err(format!("refused {attempt}"))) {
            Probe::Waiting(pause) => pause,
            Probe::Ready(_) => panic!("the core did not answer"),
        };
        match pause.waited() {
            Ok(next) => {
                assert!(attempt < 20);
                readiness = next;
            }
            Err(message) => {
                assert_eq!(attempt, 20);
                assert_eq!(
                    message,
                    "Mihomo started but its API did not become ready: refused 20"
                );
                return;
            }
        }
    }
    panic!("the core was not given up");
}

#[test]
fn the_last_try_may_succeed() {
    let mut readiness = launched(Config::default());
    for _ in 0..19_u32 {
        readiness = match readiness.answered(Err("refused".to_owned())) {
            Probe::Waiting(pause) => pause.waited().unwrap(),
            Probe::Ready(_) => panic!("the core did not answer"),
        };
    }
    match readiness.answered(Ok(version(None))) {
        Probe::Ready(core) => assert_eq!(core.into_parts().1, "unknown"),
        Probe::Waiting(_) => panic!("the core answered"),
    }
}

#[test]
fn a_core_is_launched_by_the_settings() {
    let config = Config {
        config_dir: Some("/d".to_owned()),
        active_profile: Some("Work".to_owned()),
        ..Config::default()
    };
    let startup = Startup::new(config, 1);
    let binaries = vec!["clash".to_owned()];
    let files = vec!["Work.yaml".to_owned()];
    let core: SidecarManager<u32> = startup.sidecar(false, &binaries, &files);
    assert_eq!(core.binary_path(), "clash");
    assert_eq!(core.work_dir(), &Location::named("/d"));
    assert_eq!(core.config_path(), &Location::named("/d").child("Work.yaml"));

    let startup = Startup::new(Config::default(), 1);
    let core: SidecarManager<u32> = startup.sidecar(false, &binaries, &vec![]);
    assert_eq!(core.config_path(), &core.work_dir().clone().child("config.yaml"));
}
