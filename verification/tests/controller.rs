use slint_clash::api::{Method, Version};
use slint_clash::config::Config;
use slint_clash::controller::{
    mode_index, mode_switched, profile_reloaded, profile_selected, report_start_failure,
    set_busy_status, set_error, show_starting, show_stopped, show_stopping, startup_mode_index,
    toggle_core, Controller, ProfileChoice, ToggleAction,
};
use slint_clash::path::Location;
use slint_clash::profiles::DirectoryListing;
use slint_clash::startup::{Probe, ReadyCore, Startup};
use slint_clash::ui::{FlagField, NumberField, TextField, UiUpdate};

fn text(field: TextField, value: &str) -> UiUpdate {
    UiUpdate::Text(field, value.to_owned())
}

fn flag(field: FlagField, on: bool) -> UiUpdate {
    UiUpdate::Flag(field, on)
}

fn names(items: &[&str]) -> Vec<String> {
    items.iter().map(|item| item.to_string()).collect()
}

fn controller(config: Config) -> Controller<u32> {
    Controller::bind(Ok(config)).0
}

fn ready(startup: Startup) -> ReadyCore {
    let readiness = startup.launched(Ok(Ok(()))).unwrap();
    let version = Version { meta: Some(true), version: Some("1.19.0".to_owned()) };
    match readiness.answered(Ok(version)) {
        Probe::Ready(core) => core,
        Probe::Waiting(_) => panic!("the core answered"),
    }
}

fn running(config: Config) -> Controller<u32> {
    let mut state = controller(config);
    let core = ready(state.begin_start().unwrap());
    state.accept_start(core, 7, Some("rule")).unwrap();
    state
}

#[test]
fn maps_runtime_modes_to_the_ui() {
    assert_eq!(mode_index("rule"), 0);
    assert_eq!(mode_index("GLOBAL"), 1);
    assert_eq!(mode_index("direct"), 2);
}

#[test]
fn unknown_modes_are_shown_as_the_first() {
    assert_eq!(mode_index(""), 0);
    assert_eq!(mode_index("script"), 0);
    assert_eq!(mode_index("Direct"), 2);
    assert_eq!(startup_mode_index(None), 0);
    assert_eq!(startup_mode_index(Some("global")), 1);
}

#[test]
fn the_switch_is_dead_while_the_core_is_busy() {
    assert_eq!(toggle_core(true, false), ToggleAction::Ignore);
    assert_eq!(toggle_core(true, true), ToggleAction::Ignore);
    assert_eq!(toggle_core(false, true), ToggleAction::Stop);
    assert_eq!(toggle_core(false, false), ToggleAction::Start);
}

#[test]
fn settings_that_cannot_be_read_are_told() {
    let (state, error) = Controller::<u32>::bind(Err("expected value".to_owned()));
    assert_eq!(state.config(), &Config::default());
    assert_eq!(
        error,
        Some("Could not load application settings: expected value".to_owned())
    );
    let updates = state.initialize_ui(error, DirectoryListing::NotFound, "/d");
    assert_eq!(
        updates.last(),
        Some(&text(
            TextField::ErrorMessage,
            "Could not load application settings: expected value"
        ))
    );
    let (_, none) = Controller::<u32>::bind(Ok(Config::default()));
    assert_eq!(none, None);
}

#[test]
fn the_window_shows_the_settings_at_the_start() {
    let config = Config {
        clash_binary_path: Some("core".to_owned()),
        config_dir: Some("/d".to_owned()),
        active_profile: Some("Work".to_owned()),
        api_secret: Some("s".to_owned()),
        ..Config::default()
    };
    let listing = DirectoryListing::Entries(names(&["b.yaml", "a.yml", "x.txt"]));
    let updates = controller(config).initialize_ui(None, listing, "/d");
    assert_eq!(
        updates,
        vec![
            text(TextField::SettingBinaryPath, "core"),
            text(TextField::SettingConfigDir, "/d"),
            UiUpdate::Number(NumberField::SettingApiPort, 9090),
            text(TextField::SettingApiPortText, "9090"),
            text(TextField::SettingApiSecret, "s"),
            text(TextField::ActiveProfile, "Work"),
            text(TextField::StatusMessage, "Core is stopped"),
            UiUpdate::Profiles(names(&["a", "b"])),
            flag(FlagField::ProfilesLoaded, true),
        ]
    );
}

#[test]
fn an_error_in_listing_profiles_comes_first() {
    let listing = DirectoryListing::Failed("denied".to_owned());
    let updates =
        controller(Config::default()).initialize_ui(Some("settings".to_owned()), listing, "/d");
    let errors: Vec<&UiUpdate> = updates
        .iter()
        .filter(|update| matches!(update, UiUpdate::Text(TextField::ErrorMessage, _)))
        .collect();
    assert_eq!(
        errors,
        vec![&text(
            TextField::ErrorMessage,
            "Could not read configuration directory '/d': denied"
        )]
    );
}

#[test]
fn a_core_is_started_once() {
    let mut state = controller(Config::default());
    let startup = state.begin_start().unwrap();
    assert_eq!(startup.config(), &Config::default());
    let updates = state.accept_start(ready(startup), 7, Some("Global")).unwrap();
    assert_eq!(
        updates,
        vec![
            flag(FlagField::CoreRunning, true),
            flag(FlagField::CoreBusy, false),
            text(TextField::ClashVersion, "1.19.0"),
            UiUpdate::Number(NumberField::ClashModeIndex, 1),
            text(TextField::StatusMessage, "Mihomo core is running"),
        ]
    );
    assert!(state.api().is_some());
    assert!(state.begin_start().is_none());
    assert_eq!(state.begin_stop(), Some(7));
    assert!(state.api().is_none());
    assert!(state.begin_start().is_some());
}

#[test]
fn a_stop_overtakes_a_start() {
    let mut state = controller(Config::default());
    let startup = state.begin_start().unwrap();
    assert_eq!(state.begin_stop(), None);
    assert_eq!(state.accept_start(ready(startup), 7, None), Err(7));
    assert!(state.api().is_none());
}

#[test]
fn the_later_of_two_starts_counts() {
    let mut state = controller(Config::default());
    let first = state.begin_start().unwrap();
    let second = state.begin_start().unwrap();
    assert_eq!(state.accept_start(ready(first), 1, None), Err(1));
    assert!(state.accept_start(ready(second), 2, None).is_ok());
    assert_eq!(state.begin_stop(), Some(2));
}

#[test]
fn nothing_starts_once_the_application_ends() {
    let mut state = controller(Config::default());
    let startup = state.begin_start().unwrap();
    assert_eq!(state.shutdown(), None);
    assert!(state.is_shutting_down());
    assert_eq!(state.accept_start(ready(startup), 7, None), Err(7));
    assert!(state.begin_start().is_none());

    let mut other = running(Config::default());
    assert_eq!(other.shutdown(), Some(7));
    assert!(other.api().is_none());
    assert!(other.begin_start().is_none());
}

#[test]
fn the_window_follows_the_start_and_the_stop() {
    assert_eq!(
        show_starting(),
        vec![
            flag(FlagField::CoreBusy, true),
            text(TextField::ErrorMessage, ""),
            text(TextField::StatusMessage, "Starting Mihomo core…"),
        ]
    );
    assert_eq!(
        report_start_failure("why"),
        vec![
            flag(FlagField::CoreRunning, false),
            flag(FlagField::CoreBusy, false),
            text(TextField::StatusMessage, "Core failed to start"),
            text(TextField::ErrorMessage, "why"),
        ]
    );
    assert_eq!(
        show_stopping(),
        vec![
            flag(FlagField::CoreBusy, true),
            text(TextField::StatusMessage, "Stopping Mihomo core…"),
        ]
    );
    let stopped = vec![
        flag(FlagField::CoreRunning, false),
        flag(FlagField::CoreBusy, false),
        text(TextField::ClashVersion, ""),
        text(TextField::TrafficUpload, "—"),
        text(TextField::TrafficDownload, "—"),
        text(TextField::StatusMessage, "Core is stopped"),
    ];
    assert_eq!(show_stopped(None), stopped);
    let failed = show_stopped(Some("busy".to_owned()));
    assert_eq!(&failed[..6], &stopped[..]);
    assert_eq!(
        &failed[6..],
        &[text(TextField::ErrorMessage, "Could not stop Mihomo cleanly: busy")]
    );
    assert_eq!(
        set_busy_status(false, "x"),
        vec![flag(FlagField::CoreBusy, false), text(TextField::StatusMessage, "x")]
    );
    assert_eq!(set_error("e"), vec![text(TextField::ErrorMessage, "e")]);
}

#[test]
fn modes_change_only_while_the_core_runs() {
    let stopped = controller(Config::default());
    assert_eq!(stopped.select_mode(3).unwrap_err(), "Unknown proxy mode");
    assert_eq!(stopped.select_mode(-1).unwrap_err(), "Unknown proxy mode");
    assert_eq!(
        stopped.select_mode(0).unwrap_err(),
        "Start the Mihomo core before changing mode"
    );
    let state = running(Config::default());
    assert_eq!(state.select_mode(9).unwrap_err(), "Unknown proxy mode");
    for (index, mode) in [(0_i32, "rule"), (1, "global"), (2, "direct")] {
        let change = state.select_mode(index).unwrap();
        assert_eq!(change.mode, mode);
        assert_eq!(change.request.method, Method::Patch);
        assert_eq!(change.request.url, "http://127.0.0.1:9090/configs");
        assert_eq!(change.request.json.unwrap().value, mode);
        assert_eq!(
            change.updates,
            vec![
                flag(FlagField::CoreBusy, true),
                text(TextField::StatusMessage, &format!("Switching to {mode} mode…")),
            ]
        );
        assert_eq!(mode_index(mode), index);
    }
    assert_eq!(
        mode_switched(2, "direct", None),
        vec![
            flag(FlagField::CoreBusy, false),
            UiUpdate::Number(NumberField::ClashModeIndex, 2),
            text(TextField::StatusMessage, "Proxy mode: direct"),
            text(TextField::ErrorMessage, ""),
        ]
    );
    assert_eq!(
        mode_switched(2, "direct", Some("timeout".to_owned())),
        vec![
            flag(FlagField::CoreBusy, false),
            text(TextField::StatusMessage, "Mode switch failed"),
            text(TextField::ErrorMessage, "timeout"),
        ]
    );
}

#[test]
fn a_profile_is_chosen_where_it_exists() {
    let config = Config { config_dir: Some("/d".to_owned()), ..Config::default() };
    let on_disk = names(&["Work.yml"]);
    let stopped = controller(config.clone());
    match stopped.select_profile("gone", &on_disk) {
        ProfileChoice::Missing(error) => assert_eq!(error, "Profile no longer exists: gone"),
        _ => panic!("there is no such profile"),
    }
    assert!(matches!(stopped.select_profile("Work", &on_disk), ProfileChoice::Activate));
    assert!(matches!(stopped.select_profile("../Work", &on_disk), ProfileChoice::Missing(_)));
    match running(config).select_profile("Work", &on_disk) {
        ProfileChoice::Reload { place, updates } => {
            assert_eq!(place, Location::named("/d").child("Work.yml"));
            assert_eq!(
                updates,
                vec![
                    flag(FlagField::CoreBusy, true),
                    text(TextField::StatusMessage, "Activating Work…"),
                ]
            );
        }
        _ => panic!("the core reads the profile"),
    }
}

#[test]
fn a_refused_profile_does_not_become_active() {
    let mut state = controller(Config::default());
    assert_eq!(
        state.finish_profile_selection("Work", Err("bad".to_owned())),
        Err("bad".to_owned())
    );
    assert_eq!(state.config().active_profile, None);
    let saved = state.finish_profile_selection("Work", Ok(())).unwrap();
    assert_eq!(saved.active_profile, Some("Work".to_owned()));
    assert_eq!(state.config(), &saved);
    assert_eq!(
        profile_selected("Work", None),
        vec![
            flag(FlagField::CoreBusy, false),
            text(TextField::ActiveProfile, "Work"),
            text(TextField::StatusMessage, "Profile “Work” is active"),
            text(TextField::ErrorMessage, ""),
        ]
    );
    assert_eq!(
        profile_selected("Work", Some("bad".to_owned())),
        vec![
            flag(FlagField::CoreBusy, false),
            text(TextField::StatusMessage, "Profile activation failed"),
            text(TextField::ErrorMessage, "bad"),
        ]
    );
}

#[test]
fn reloading_lists_the_profiles_and_tells_a_running_core() {
    let config = Config {
        config_dir: Some("/d".to_owned()),
        active_profile: Some("Work".to_owned()),
        ..Config::default()
    };
    let entries = || DirectoryListing::Entries(names(&["Work.yaml"]));
    let shown = vec![
        UiUpdate::Profiles(names(&["Work"])),
        flag(FlagField::ProfilesLoaded, true),
    ];
    let on_disk = names(&["Work.yaml"]);

    let plan = controller(config.clone()).begin_reload(entries(), "/d", &on_disk);
    assert_eq!(plan.place, None);
    assert_eq!(&plan.updates[..2], &shown[..]);
    assert_eq!(
        &plan.updates[2..],
        &[text(TextField::StatusMessage, "Profile list refreshed")]
    );

    let plan = running(config.clone()).begin_reload(entries(), "/d", &on_disk);
    assert_eq!(plan.place, Some(Location::named("/d").child("Work.yaml")));
    assert_eq!(&plan.updates[..2], &shown[..]);
    assert_eq!(
        &plan.updates[2..],
        &[
            flag(FlagField::CoreBusy, true),
            text(TextField::StatusMessage, "Reloading active profile…"),
        ]
    );

    let failed = DirectoryListing::Failed("denied".to_owned());
    let plan = running(config).begin_reload(failed, "/d", &on_disk);
    assert_eq!(plan.place, None);
    assert_eq!(
        plan.updates,
        vec![
            UiUpdate::Profiles(vec![]),
            flag(FlagField::ProfilesLoaded, true),
            text(
                TextField::ErrorMessage,
                "Could not read configuration directory '/d': denied"
            ),
        ]
    );

    assert_eq!(
        profile_reloaded(None),
        vec![
            flag(FlagField::CoreBusy, false),
            text(TextField::StatusMessage, "Active profile reloaded"),
        ]
    );
    assert_eq!(
        profile_reloaded(Some("bad".to_owned())),
        vec![
            flag(FlagField::CoreBusy, false),
            text(TextField::ErrorMessage, "bad"),
            text(TextField::StatusMessage, "Profile reload failed"),
        ]
    );
}

#[test]
fn the_running_core_can_be_looked_at() {
    let mut state = running(Config::default());
    *state.sidecar_mut().unwrap() = 8;
    assert_eq!(state.begin_stop(), Some(8));
    assert!(state.sidecar_mut().is_none());
}

#[test]
fn an_overtaken_start_stays_refused() {
    let mut state = controller(Config::default());
    let first = state.begin_start().unwrap();
    for _ in 0..5_u32 {
        state.begin_stop();
        assert!(state.begin_start().is_some());
    }
    assert_eq!(state.accept_start(ready(first), 7, None), Err(7));
}
