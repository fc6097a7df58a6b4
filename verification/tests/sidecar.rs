use slint_clash::path::Location;
use slint_clash::sidecar::{
    path_requires_existence_check, stop_actions, Argument, SidecarError, SidecarManager,
    StartProbe, StopAction,
};

fn probe(work_dir: bool, config: bool, binary: bool) -> StartProbe {
    StartProbe {
        work_dir_is_dir: work_dir,
        work_dir_text: "/work".to_owned(),
        config_is_file: config,
        config_text: "/work/config.yaml".to_owned(),
        binary_is_file: binary,
    }
}

fn sidecar(binary: &str) -> SidecarManager<u32> {
    SidecarManager::new(
        binary.to_owned(),
        Location::named("/work"),
        Location::named("/work").child("config.yaml"),
    )
}

#[test]
fn rejects_a_missing_working_directory_before_spawning() {
    let missing = Location::named("/tmp").child("slint-clash-missing-directory");
    let sidecar: SidecarManager<u32> =
        SidecarManager::new("mihomo".to_owned(), missing, Location::named("config.yaml"));
    assert!(sidecar.start(&probe(false, false, false)).is_err());
}

#[test]
fn the_first_missing_thing_is_told() {
    let core = sidecar("bin/mihomo");
    let cases = [
        (probe(false, false, false), "Configuration directory does not exist: /work"),
        (probe(true, false, false), "Configuration file does not exist: /work/config.yaml"),
        (probe(true, true, false), "Mihomo binary does not exist: bin/mihomo"),
    ];
    for (found, message) in cases {
        assert_eq!(core.start(&found).unwrap_err().message(), message);
    }
    assert!(core.start(&probe(true, true, true)).is_ok());
    assert!(sidecar("mihomo").start(&probe(true, true, false)).is_ok());
    assert_eq!(
        sidecar("mihomo").prepare_start(&probe(true, true, false), true),
        Err(SidecarError::NoBinary("mihomo".to_owned()))
    );
    assert!(path_requires_existence_check("bin/mihomo"));
    assert!(!path_requires_existence_check("mihomo"));
}

#[test]
fn the_core_gets_its_directory_and_its_file() {
    let launch = sidecar("mihomo").start(&probe(true, true, false)).unwrap();
    assert_eq!(launch.program, "mihomo");
    assert_eq!(
        launch.arguments,
        vec![
            Argument::Text("-d".to_owned()),
            Argument::WorkDir,
            Argument::Text("-f".to_owned()),
            Argument::ConfigPath,
        ]
    );
    let core = sidecar("mihomo");
    assert_eq!(core.binary_path(), "mihomo");
    assert_eq!(core.work_dir(), &Location::named("/work"));
    assert_eq!(core.config_path(), &Location::named("/work").child("config.yaml"));
}

#[test]
fn a_core_runs_once() {
    let mut core = sidecar("mihomo");
    let failed = core.finish_start(Err("no such file".to_owned())).unwrap_err();
    assert_eq!(
        failed.message(),
        "Failed to start Mihomo binary 'mihomo': no such file"
    );
    assert_eq!(core.stop(), None);
    assert_eq!(core.finish_start(Ok(42)), Ok(()));
    let again = core.start(&probe(true, true, true)).unwrap_err();
    assert_eq!(again, SidecarError::AlreadyRunning);
    assert_eq!(again.message(), "Mihomo core is already running");
    *core.child_mut().unwrap() = 43;
    assert_eq!(core.stop(), Some(43));
    assert_eq!(core.stop(), None);
    assert!(core.child_mut().is_none());
}

#[test]
fn an_ended_process_is_forgotten() {
    let mut core = sidecar("mihomo");
    assert_eq!(core.try_wait(Some("exit 1")), None);
    assert_eq!(core.finish_start(Ok(1)), Ok(()));
    assert_eq!(core.try_wait::<&str>(None), None);
    assert!(core.child_mut().is_some());
    assert_eq!(core.try_wait(Some("exit 1")), Some("exit 1"));
    assert!(core.child_mut().is_none());
}

#[test]
fn a_process_is_killed_only_while_it_runs() {
    assert_eq!(stop_actions(false), vec![StopAction::Kill, StopAction::Wait]);
    assert_eq!(stop_actions(true), vec![StopAction::Wait]);
}
