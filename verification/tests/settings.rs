use slint_clash::config::Config;
use slint_clash::controller::Controller;
use slint_clash::profiles::DirectoryListing;
use slint_clash::settings::{
    apply_setting, cancel_edit, change_setting, dismiss_error, needs_rescan, save_failed,
    setting_saved, start_edit, PathProbe, SettingError,
};
use slint_clash::ui::{FlagField, NumberField, TextField, UiUpdate};

const NOTHING: PathProbe = PathProbe { is_file: false, is_dir: false };
const EVERYTHING: PathProbe = PathProbe { is_file: true, is_dir: true };

fn text(field: TextField, value: &str) -> UiUpdate {
    UiUpdate::Text(field, value.to_owned())
}

fn filled() -> Config {
    Config {
        clash_binary_path: Some("bin/core".to_owned()),
        config_dir: Some("/d".to_owned()),
        active_profile: Some("Work".to_owned()),
        api_port: 8080,
        api_secret: Some("secret".to_owned()),
        subscriptions: vec![],
    }
}

fn edited(config: &Config, index: i32) -> String {
    match start_edit(config, index).swap_remove(0) {
        UiUpdate::Text(TextField::EditValue, value) => value,
        _ => panic!("the value comes first"),
    }
}

#[test]
fn a_field_is_edited_as_it_is() {
    let config = filled();
    let values = ["bin/core", "/d", "8080", "secret", ""];
    for (index, value) in values.iter().enumerate() {
        assert_eq!(
            start_edit(&config, index as i32),
            vec![
                text(TextField::EditValue, value),
                UiUpdate::Number(NumberField::EditingFieldIndex, index as i32),
                UiUpdate::Flag(FlagField::ShowEditUi, true),
            ]
        );
    }
    assert_eq!(edited(&Config::default(), 0), "");
    assert_eq!(edited(&Config::default(), 2), "9090");
}

#[test]
fn saving_a_field_unchanged_changes_nothing() {
    let config = filled();
    for index in 0..4_i32 {
        let value = edited(&config, index);
        assert_eq!(change_setting(&config, index, &value, EVERYTHING), Ok(config.clone()));
    }
}

#[test]
fn a_program_has_to_exist_unless_it_is_a_bare_name() {
    let config = Config::default();
    assert_eq!(
        change_setting(&config, 0, "bin/core", NOTHING),
        Err(SettingError::NoBinary("bin/core".to_owned()))
    );
    let bare = change_setting(&config, 0, "core", NOTHING).unwrap();
    assert_eq!(bare.clash_binary_path, Some("core".to_owned()));
    let cleared = change_setting(&filled(), 0, "", NOTHING).unwrap();
    assert_eq!(cleared.clash_binary_path, None);
    assert_eq!(
        apply_setting(&config, 0, "core", true, NOTHING),
        Err(SettingError::NoBinary("core".to_owned()))
    );
    assert_eq!(
        SettingError::NoBinary("x".to_owned()).message(),
        "Mihomo binary does not exist: x"
    );
}

#[test]
fn a_directory_has_to_exist() {
    let config = Config::default();
    assert_eq!(
        change_setting(&config, 1, "d", NOTHING),
        Err(SettingError::NoDirectory("d".to_owned()))
    );
    let chosen = change_setting(&config, 1, "d", EVERYTHING).unwrap();
    assert_eq!(chosen.config_dir, Some("d".to_owned()));
    assert_eq!(change_setting(&chosen, 1, "", NOTHING).unwrap().config_dir, None);
    assert_eq!(
        SettingError::NoDirectory("x".to_owned()).message(),
        "Configuration directory does not exist: x"
    );
}

#[test]
fn a_port_is_a_number_in_range() {
    let config = Config::default();
    for value in ["", "0", "65536", "-1", "port", "80 "] {
        assert_eq!(change_setting(&config, 2, value, NOTHING), Err(SettingError::BadPort));
    }
    assert_eq!(change_setting(&config, 2, "1", NOTHING).unwrap().api_port, 1);
    assert_eq!(change_setting(&config, 2, "+65535", NOTHING).unwrap().api_port, 65535);
    assert_eq!(SettingError::BadPort.message(), "API port must be between 1 and 65535");
}

#[test]
fn a_secret_may_be_cleared() {
    let changed = change_setting(&filled(), 3, "", NOTHING).unwrap();
    assert_eq!(changed.api_secret, None);
    let mut expected = filled();
    expected.api_secret = None;
    assert_eq!(changed, expected);
}

#[test]
fn unknown_fields_are_refused() {
    for index in [-1_i32, 4, i32::MAX] {
        assert_eq!(
            change_setting(&filled(), index, "x", EVERYTHING),
            Err(SettingError::UnknownField)
        );
    }
    assert_eq!(SettingError::UnknownField.message(), "Unknown setting field");
}

#[test]
fn a_refused_setting_leaves_the_state() {
    let mut state: Controller<u32> = Controller::bind(Ok(filled())).0;
    assert_eq!(state.update_setting(2, "0", EVERYTHING), Err(SettingError::BadPort));
    assert_eq!(state.config(), &filled());
    let (config, restart) = state.update_setting(2, "1", EVERYTHING).unwrap();
    assert_eq!(config.api_port, 1);
    assert!(!restart);
    assert_eq!(state.config(), &config);
}

#[test]
fn the_window_shows_a_saved_setting() {
    let config = filled();
    let saved = setting_saved(&config, false, None, "/d");
    let expected = vec![
        text(TextField::SettingBinaryPath, "bin/core"),
        text(TextField::SettingConfigDir, "/d"),
        UiUpdate::Number(NumberField::SettingApiPort, 8080),
        text(TextField::SettingApiPortText, "8080"),
        text(TextField::SettingApiSecret, "secret"),
        UiUpdate::Flag(FlagField::ShowEditUi, false),
        UiUpdate::Number(NumberField::EditingFieldIndex, -1),
        text(TextField::ErrorMessage, ""),
        text(TextField::StatusMessage, "Setting saved"),
    ];
    assert_eq!(saved, expected);
    let restart = setting_saved(&config, true, None, "/d");
    assert_eq!(
        restart[8],
        text(TextField::StatusMessage, "Setting saved; restart the core to apply it")
    );
    let rescanned =
        setting_saved(&config, false, Some(DirectoryListing::Failed("denied".to_owned())), "/d");
    assert_eq!(&rescanned[..9], &expected[..]);
    assert_eq!(
        &rescanned[9..],
        &[
            UiUpdate::Profiles(vec![]),
            UiUpdate::Flag(FlagField::ProfilesLoaded, true),
            text(
                TextField::ErrorMessage,
                "Could not read configuration directory '/d': denied"
            ),
        ]
    );
    assert!(needs_rescan(1));
    assert!(!needs_rescan(0));
}

#[test]
fn other_ends_of_an_edit() {
    assert_eq!(
        cancel_edit(),
        vec![
            UiUpdate::Flag(FlagField::ShowEditUi, false),
            UiUpdate::Number(NumberField::EditingFieldIndex, -1),
            text(TextField::EditValue, ""),
        ]
    );
    assert_eq!(dismiss_error(), vec![text(TextField::ErrorMessage, "")]);
    assert_eq!(
        save_failed("disk full"),
        vec![text(TextField::ErrorMessage, "Could not save settings: disk full")]
    );
}

#[test]
fn a_setting_is_saved_without_white_space_at_its_ends() {
    let mut state: Controller<u32> = Controller::bind(Ok(filled())).0;
    let (config, _) = state.save_setting(3, " \tnew secret\u{3000}\n", NOTHING).unwrap();
    assert_eq!(config.api_secret, Some("new secret".to_owned()));
    assert_eq!(state.config(), &config);
    let (config, _) = state.save_setting(2, " 81 ", NOTHING).unwrap();
    assert_eq!(config.api_port, 81);
    let (config, _) = state.save_setting(0, " \t ", NOTHING).unwrap();
    assert_eq!(config.clash_binary_path, None);
    assert_eq!(
        state.save_setting(1, " /gone ", NOTHING),
        Err(SettingError::NoDirectory("/gone".to_owned()))
    );
    assert_eq!(state.config(), &config);
}
