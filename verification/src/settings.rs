//! Editing the settings.
use vstd::prelude::*;
use vstd::string::*;

use crate::config::{Config, ConfigView};
use crate::controller::{error_shown, set_error};
use crate::number::{decimal, decimal_text, parse_u16, parsed_u16, u16_reads_back};
use crate::path::{may_require_file, path_requires_file};
use crate::profiles::{scan_error, scan_profiles_into, scan_shown, DirectoryListing};
use crate::text::{
    copy_non_empty, copy_or_empty, join2, non_empty, text_or_empty, trimmed,
    trimming_keeps_the_inner_text,
};
use crate::ui::{
    append_updates, last_flag, last_number, last_profiles, last_text, later_changes_count,
    settings_are_shown_as_they_are, settings_shown, show, show_settings, switch, views, FlagField,
    NumberField, TextField, UiUpdate, UpdateView,
};

verus! {

/// The position that stands for no field.
pub const NO_FIELD: i32 = -1;

/// Why a setting is not accepted.
#[derive(Debug, PartialEq, Eq)]
pub enum SettingError {
    /// The core's program is missing.
    NoBinary(String),
    /// The directory of the profiles is missing.
    NoDirectory(String),
    /// The port is not a number in range.
    BadPort,
    /// There is no such field.
    UnknownField,
}

/// The model of `SettingError`.
pub enum SettingErrorView {
    NoBinary(Seq<char>),
    NoDirectory(Seq<char>),
    BadPort,
    UnknownField,
}

impl View for SettingError {
    type V = SettingErrorView;

    open spec fn view(&self) -> SettingErrorView {
        match *self {
            SettingError::NoBinary(value) => SettingErrorView::NoBinary(value@),
            SettingError::NoDirectory(value) => SettingErrorView::NoDirectory(value@),
            SettingError::BadPort => SettingErrorView::BadPort,
            SettingError::UnknownField => SettingErrorView::UnknownField,
        }
    }
}

impl SettingErrorView {
    /// The error in words.
    pub open spec fn text(self) -> Seq<char> {
        match self {
            SettingErrorView::NoBinary(value) => "Mihomo binary does not exist: "@ + value,
            SettingErrorView::NoDirectory(value) => "Configuration directory does not exist: "@
                + value,
            SettingErrorView::BadPort => "API port must be between 1 and 65535"@,
            SettingErrorView::UnknownField => "Unknown setting field"@,
        }
    }
}

impl SettingError {
    /// The error in words.
    pub fn message(&self) -> (text: String)
        ensures
            text@ == self@.text(),
    {
        match self {
            SettingError::NoBinary(value) => join2(
                "Mihomo binary does not exist: ",
                value.as_str(),
            ),
            SettingError::NoDirectory(value) => join2(
                "Configuration directory does not exist: ",
                value.as_str(),
            ),
            SettingError::BadPort => "API port must be between 1 and 65535".to_owned(),
            SettingError::UnknownField => "Unknown setting field".to_owned(),
        }
    }
}

/// What the disk holds at a path.
#[derive(Debug, Clone, Copy, PartialEq, Eq, Structural)]
pub struct PathProbe {
    pub is_file: bool,
    pub is_dir: bool,
}

/// The text of a field while it is edited.
pub open spec fn setting_value(config: ConfigView, index: i32) -> Seq<char> {
    if index == 0 {
        text_or_empty(config.clash_binary_path)
    } else if index == 1 {
        text_or_empty(config.config_dir)
    } else if index == 2 {
        decimal(config.api_port as nat)
    } else if index == 3 {
        text_or_empty(config.api_secret)
    } else {
        Seq::empty()
    }
}

/// What the window shows when a field is to be edited.
pub open spec fn edit_shown(config: ConfigView, index: i32) -> Seq<UpdateView> {
    seq![
        UpdateView::Text(TextField::EditValue, setting_value(config, index)),
        UpdateView::Number(NumberField::EditingFieldIndex, index),
        UpdateView::Flag(FlagField::ShowEditUi, true),
    ]
}

/// Begins to edit a field.
pub fn start_edit(config: &Config, index: i32) -> (updates: Vec<UiUpdate>)
    ensures
        views(updates@) == edit_shown(config@, index),
{
    let value = if index == 0 {
        copy_or_empty(&config.clash_binary_path)
    } else if index == 1 {
        copy_or_empty(&config.config_dir)
    } else if index == 2 {
        decimal_text(config.api_port as u128)
    } else if index == 3 {
        copy_or_empty(&config.api_secret)
    } else {
        String::new()
    };
    let mut updates: Vec<UiUpdate> = Vec::new();
    updates.push(UiUpdate::Text(TextField::EditValue, value));
    updates.push(UiUpdate::Number(NumberField::EditingFieldIndex, index));
    updates.push(switch(FlagField::ShowEditUi, true));
    assert(views(updates@) =~= edit_shown(config@, index));
    updates
}

/// The settings with a new value in a field, or why the value is not accepted.
/// An empty text takes the field back to its default; a path has to exist, and
/// that of the program only where `needs_file` says so.
pub open spec fn setting_applied(
    config: ConfigView,
    index: i32,
    value: Seq<char>,
    needs_file: bool,
    probe: PathProbe,
) -> Result<ConfigView, SettingErrorView> {
    if index == 0 {
        if value.len() > 0 && needs_file && !probe.is_file {
            Err(SettingErrorView::NoBinary(value))
        } else {
            Ok(ConfigView { clash_binary_path: non_empty(value), ..config })
        }
    } else if index == 1 {
        if value.len() > 0 && !probe.is_dir {
            Err(SettingErrorView::NoDirectory(value))
        } else {
            Ok(ConfigView { config_dir: non_empty(value), ..config })
        }
    } else if index == 2 {
        match parsed_u16(value) {
            Some(port) => if port == 0 {
                Err(SettingErrorView::BadPort)
            } else {
                Ok(ConfigView { api_port: port, ..config })
            },
            None => Err(SettingErrorView::BadPort),
        }
    } else if index == 3 {
        Ok(ConfigView { api_secret: non_empty(value), ..config })
    } else {
        Err(SettingErrorView::UnknownField)
    }
}

/// The settings with a new value in a field, given whether the value as a
/// program has to exist as a file.
pub fn apply_setting(
    config: &Config,
    index: i32,
    value: &str,
    needs_file: bool,
    probe: PathProbe,
) -> (applied: Result<Config, SettingError>)
    ensures
        match applied {
            Ok(c) => setting_applied(config@, index, value@, needs_file, probe) == Ok::<
                ConfigView,
                SettingErrorView,
            >(c@),
            Err(e) => setting_applied(config@, index, value@, needs_file, probe) == Err::<
                ConfigView,
                SettingErrorView,
            >(e@),
        },
{
    let mut changed = config.clone();
    let chosen = copy_non_empty(value);
    if index == 0 {
        if chosen.is_some() && needs_file && !probe.is_file {
            return Err(SettingError::NoBinary(value.to_owned()));
        }
        changed.clash_binary_path = chosen;
    } else if index == 1 {
        if chosen.is_some() && !probe.is_dir {
            return Err(SettingError::NoDirectory(value.to_owned()));
        }
        changed.config_dir = chosen;
    } else if index == 2 {
        match parse_u16(value) {
            Some(port) => {
                if port == 0 {
                    return Err(SettingError::BadPort);
                }
                changed.api_port = port;
            },
            None => {
                return Err(SettingError::BadPort);
            },
        }
    } else if index == 3 {
        changed.api_secret = chosen;
    } else {
        return Err(SettingError::UnknownField);
    }
    Ok(changed)
}

/// The settings with a new value in a field. Whether a program has to exist as
/// a file depends on how the platform reads its path.
pub fn change_setting(config: &Config, index: i32, value: &str, probe: PathProbe) -> (applied:
    Result<Config, SettingError>)
    ensures
        exists|needs_file: bool|
            may_require_file(value@, needs_file) && (match applied {
                Ok(c) => #[trigger] setting_applied(config@, index, value@, needs_file, probe)
                    == Ok::<ConfigView, SettingErrorView>(c@),
                Err(e) => setting_applied(config@, index, value@, needs_file, probe) == Err::<
                    ConfigView,
                    SettingErrorView,
                >(e@),
            }),
{
    let needs_file = path_requires_file(value);
    apply_setting(config, index, value, needs_file, probe)
}

/// Whether the profiles have to be listed again once a field was saved.
pub fn needs_rescan(index: i32) -> (rescan: bool)
    ensures
        rescan == (index == 1),
{
    index == 1
}

/// What the window shows once a setting was saved.
pub open spec fn saved_shown(config: ConfigView, restart: bool) -> Seq<UpdateView> {
    settings_shown(config) + seq![
        UpdateView::Flag(FlagField::ShowEditUi, false),
        UpdateView::Number(NumberField::EditingFieldIndex, NO_FIELD),
        UpdateView::Text(TextField::ErrorMessage, Seq::empty()),
        UpdateView::Text(
            TextField::StatusMessage,
            if restart {
                "Setting saved; restart the core to apply it"@
            } else {
                "Setting saved"@
            },
        ),
    ]
}

/// What the window shows of the profiles once they were listed again, if they
/// were.
pub open spec fn rescan_shown(listing: Option<DirectoryListing>, directory: Seq<char>) -> Seq<
    UpdateView,
> {
    match listing {
        None => Seq::empty(),
        Some(listing) => scan_shown(listing) + (match scan_error(listing, directory) {
            Some(error) => error_shown(error),
            None => Seq::empty(),
        }),
    }
}

/// Shows that a setting was saved. `listing` is what the directory of the
/// profiles holds, where they have to be listed again, and `directory` how it
/// is shown to the user.
pub fn setting_saved(
    config: &Config,
    restart: bool,
    listing: Option<DirectoryListing>,
    directory: &str,
) -> (updates: Vec<UiUpdate>)
    ensures
        views(updates@) == saved_shown(config@, restart) + rescan_shown(listing, directory@),
{
    let mut updates = show_settings(config);
    let mut more: Vec<UiUpdate> = Vec::new();
    more.push(switch(FlagField::ShowEditUi, false));
    more.push(UiUpdate::Number(NumberField::EditingFieldIndex, NO_FIELD));
    more.push(UiUpdate::Text(TextField::ErrorMessage, String::new()));
    more.push(
        show(
            TextField::StatusMessage,
            if restart {
                "Setting saved; restart the core to apply it"
            } else {
                "Setting saved"
            },
        ),
    );
    append_updates(&mut updates, more);
    assert(views(updates@) =~= saved_shown(config@, restart));
    if let Some(listing) = listing {
        let scan = scan_profiles_into(listing, directory);
        append_updates(&mut updates, scan.updates);
        if let Some(error) = &scan.error {
            append_updates(&mut updates, set_error(error.as_str()));
        }
    }
    assert(views(updates@) =~= saved_shown(config@, restart) + rescan_shown(listing, directory@));
    updates
}

/// Shows that the settings could not be saved.
pub fn save_failed(error: &str) -> (updates: Vec<UiUpdate>)
    ensures
        views(updates@) == error_shown("Could not save settings: "@ + error@),
{
    set_error(join2("Could not save settings: ", error).as_str())
}

/// Stops editing without a change.
pub fn cancel_edit() -> (updates: Vec<UiUpdate>)
    ensures
        views(updates@) == seq![
            UpdateView::Flag(FlagField::ShowEditUi, false),
            UpdateView::Number(NumberField::EditingFieldIndex, NO_FIELD),
            UpdateView::Text(TextField::EditValue, Seq::empty()),
        ],
{
    let mut updates: Vec<UiUpdate> = Vec::new();
    updates.push(switch(FlagField::ShowEditUi, false));
    updates.push(UiUpdate::Number(NumberField::EditingFieldIndex, NO_FIELD));
    updates.push(UiUpdate::Text(TextField::EditValue, String::new()));
    assert(views(updates@) =~= seq![
        UpdateView::Flag(FlagField::ShowEditUi, false),
        UpdateView::Number(NumberField::EditingFieldIndex, NO_FIELD),
        UpdateView::Text(TextField::EditValue, Seq::empty()),
    ]);
    updates
}

/// Takes an error off the window.
pub fn dismiss_error() -> (updates: Vec<UiUpdate>)
    ensures
        views(updates@) == error_shown(Seq::empty()),
{
    let updates = set_error("");
    proof {
        reveal_strlit("");
    }
    assert(""@ =~= Seq::<char>::empty());
    updates
}

/// To save a field as it is shown for editing changes nothing, where the paths
/// exist. Left out are settings that no edit gives: an empty text in a field,
/// and the port zero.
pub proof fn saving_unchanged_keeps_the_settings(config: ConfigView, index: i32, needs_file: bool)
    requires
        0 <= index <= 3,
        config.clash_binary_path is Some ==> config.clash_binary_path->0.len() > 0,
        config.config_dir is Some ==> config.config_dir->0.len() > 0,
        config.api_secret is Some ==> config.api_secret->0.len() > 0,
        config.api_port > 0,
    ensures
        setting_applied(
            config,
            index,
            setting_value(config, index),
            needs_file,
            PathProbe { is_file: true, is_dir: true },
        ) == Ok::<ConfigView, SettingErrorView>(config),
{
    u16_reads_back(config.api_port);
    let applied = setting_applied(
        config,
        index,
        setting_value(config, index),
        needs_file,
        PathProbe { is_file: true, is_dir: true },
    );
    assert(applied is Ok);
    assert(applied->Ok_0 =~= config);
}

/// An accepted value is what the field shows afterwards, a port in its plain
/// form. The other fields, the active profile and the subscriptions stay as
/// they are.
pub proof fn accepted_setting_is_shown(
    config: ConfigView,
    index: i32,
    value: Seq<char>,
    needs_file: bool,
    probe: PathProbe,
    other: i32,
)
    ensures
        setting_applied(config, index, value, needs_file, probe) matches Ok(changed) ==> {
            &&& 0 <= index <= 3
            &&& setting_value(changed, index) == (if index == 2 {
                decimal(parsed_u16(value)->0 as nat)
            } else {
                value
            })
            &&& other != index ==> setting_value(changed, other) == setting_value(config, other)
            &&& changed.active_profile == config.active_profile
            &&& changed.subscriptions == config.subscriptions
            &&& index == 2 ==> 1 <= changed.api_port <= 65535
        },
{
    if value.len() == 0 {
        assert(value =~= Seq::empty());
    }
}

/// A text that was entered and accepted is shown without the white space at
/// its ends, and has none there to take off.
pub proof fn saved_text_is_trimmed(
    config: ConfigView,
    index: i32,
    raw: Seq<char>,
    needs_file: bool,
    probe: PathProbe,
)
    requires
        index != 2,
    ensures
        setting_applied(config, index, trimmed(raw), needs_file, probe) matches Ok(changed) ==> {
            &&& setting_value(changed, index) == trimmed(raw)
            &&& trimmed(setting_value(changed, index)) == setting_value(changed, index)
        },
{
    accepted_setting_is_shown(config, index, trimmed(raw), needs_file, probe, index);
    trimming_keeps_the_inner_text(raw);
}

/// What is accepted for each field: for the program anything but a path that
/// has to be a file and is none; for the directory just what is a directory,
/// whatever else the disk says; for the port a number from 1 to 65535; for the
/// secret anything. An empty text takes a field back to its default, but the
/// port.
pub proof fn fields_accept_what_fits(
    config: ConfigView,
    index: i32,
    value: Seq<char>,
    needs_file: bool,
    probe: PathProbe,
)
    ensures
        setting_applied(config, 0, value, needs_file, probe) is Ok <==> value.len() == 0
            || !needs_file || probe.is_file,
        setting_applied(config, 1, value, needs_file, probe) is Ok <==> value.len() == 0
            || probe.is_dir,
        setting_applied(config, 2, value, needs_file, probe) is Ok <==> (parsed_u16(
            value,
        ) matches Some(port) && port >= 1),
        setting_applied(config, 3, value, needs_file, probe) is Ok,
        index < 0 || index > 3 ==> setting_applied(config, index, value, needs_file, probe) == Err::<
            ConfigView,
            SettingErrorView,
        >(SettingErrorView::UnknownField),
        setting_applied(config, 0, value, needs_file, probe) matches Err(e) ==> e
            == SettingErrorView::NoBinary(value),
        setting_applied(config, 1, value, needs_file, probe) matches Err(e) ==> e
            == SettingErrorView::NoDirectory(value),
        setting_applied(config, 2, value, needs_file, probe) matches Err(e) ==> e
            == SettingErrorView::BadPort,
{
}

/// An accepted value is stored as it is, in its own field: a text that is not
/// empty as that text, an empty one as none, and a port as its number.
pub proof fn accepted_values_are_stored(
    config: ConfigView,
    value: Seq<char>,
    needs_file: bool,
    probe: PathProbe,
)
    ensures
        setting_applied(config, 0, value, needs_file, probe) matches Ok(c) ==> {
            &&& value.len() > 0 ==> c.clash_binary_path == Some(value)
            &&& value.len() == 0 ==> c.clash_binary_path is None
            &&& c.config_dir == config.config_dir && c.api_port == config.api_port && c.api_secret
                == config.api_secret
        },
        setting_applied(config, 1, value, needs_file, probe) matches Ok(c) ==> {
            &&& value.len() > 0 ==> c.config_dir == Some(value)
            &&& value.len() == 0 ==> c.config_dir is None
            &&& c.clash_binary_path == config.clash_binary_path && c.api_port == config.api_port
                && c.api_secret == config.api_secret
        },
        setting_applied(config, 2, value, needs_file, probe) matches Ok(c) ==> {
            &&& Some(c.api_port) == parsed_u16(value)
            &&& c.clash_binary_path == config.clash_binary_path && c.config_dir == config.config_dir
                && c.api_secret == config.api_secret
        },
        setting_applied(config, 3, value, needs_file, probe) matches Ok(c) ==> {
            &&& value.len() > 0 ==> c.api_secret == Some(value)
            &&& value.len() == 0 ==> c.api_secret is None
            &&& c.clash_binary_path == config.clash_binary_path && c.config_dir == config.config_dir
                && c.api_port == config.api_port
        },
{
}

/// A field is edited from the text that the settings hold for it.
pub proof fn fields_are_edited_as_they_are(config: ConfigView, index: i32)
    ensures
        config.clash_binary_path matches Some(text) ==> setting_value(config, 0) == text,
        config.config_dir matches Some(text) ==> setting_value(config, 1) == text,
        config.api_secret matches Some(text) ==> setting_value(config, 3) == text,
        config.clash_binary_path is None ==> setting_value(config, 0).len() == 0,
        config.config_dir is None ==> setting_value(config, 1).len() == 0,
        config.api_secret is None ==> setting_value(config, 3).len() == 0,
        setting_value(config, 2) == decimal(config.api_port as nat),
        index < 0 || index > 3 ==> setting_value(config, index).len() == 0,
        last_text(edit_shown(config, index), TextField::EditValue) == Some(
            setting_value(config, index),
        ),
        last_number(edit_shown(config, index), NumberField::EditingFieldIndex) == Some(index),
        last_flag(edit_shown(config, index), FlagField::ShowEditUi) == Some(true),
        last_text(edit_shown(config, index), TextField::ErrorMessage) is None,
{
    reveal_with_fuel(last_text, 4);
    reveal_with_fuel(last_number, 4);
    reveal_with_fuel(last_flag, 4);
}

/// Once a setting was saved, the window shows the settings, has left the
/// editing, shows no error, and says whether the core has to be started anew.
pub proof fn saved_settings_are_shown(config: ConfigView, restart: bool)
    ensures
        ({
            let shown = saved_shown(config, restart);
            &&& last_flag(shown, FlagField::ShowEditUi) == Some(false)
            &&& last_number(shown, NumberField::EditingFieldIndex) == Some(NO_FIELD)
            &&& last_text(shown, TextField::ErrorMessage) == Some(Seq::<char>::empty())
            &&& restart ==> last_text(shown, TextField::StatusMessage) == Some(
                "Setting saved; restart the core to apply it"@,
            )
            &&& !restart ==> last_text(shown, TextField::StatusMessage) == Some("Setting saved"@)
            &&& last_text(shown, TextField::SettingBinaryPath) == Some(
                text_or_empty(config.clash_binary_path),
            )
            &&& last_text(shown, TextField::SettingConfigDir) == Some(
                text_or_empty(config.config_dir),
            )
            &&& last_text(shown, TextField::SettingApiSecret) == Some(
                text_or_empty(config.api_secret),
            )
            &&& last_text(shown, TextField::SettingApiPortText) == Some(
                decimal(config.api_port as nat),
            )
            &&& last_number(shown, NumberField::SettingApiPort) == Some(config.api_port as i32)
            &&& last_flag(shown, FlagField::CoreBusy) is None
            &&& last_flag(shown, FlagField::CoreRunning) is None
        }),
{
    let first = settings_shown(config);
    let shown = saved_shown(config, restart);
    let second = shown.skip(first.len() as int);
    assert(shown =~= first + second);
    settings_are_shown_as_they_are(config);
    reveal_with_fuel(last_text, 5);
    reveal_with_fuel(last_number, 5);
    reveal_with_fuel(last_flag, 5);
    assert(second.len() == 4);
    later_changes_count(
        first,
        second,
        TextField::ErrorMessage,
        FlagField::ShowEditUi,
        NumberField::EditingFieldIndex,
    );
    later_changes_count(
        first,
        second,
        TextField::StatusMessage,
        FlagField::CoreBusy,
        NumberField::SettingApiPort,
    );
    later_changes_count(
        first,
        second,
        TextField::SettingBinaryPath,
        FlagField::CoreRunning,
        NumberField::SettingApiPort,
    );
    later_changes_count(
        first,
        second,
        TextField::SettingConfigDir,
        FlagField::CoreRunning,
        NumberField::SettingApiPort,
    );
    later_changes_count(
        first,
        second,
        TextField::SettingApiSecret,
        FlagField::CoreRunning,
        NumberField::SettingApiPort,
    );
    later_changes_count(
        first,
        second,
        TextField::SettingApiPortText,
        FlagField::CoreRunning,
        NumberField::SettingApiPort,
    );
}

/// Where the profiles were listed again, the window shows them, and an error
/// in doing so; where they were not, nothing more is shown.
pub proof fn rescans_are_shown(listing: DirectoryListing, directory: Seq<char>)
    ensures
        rescan_shown(None, directory).len() == 0,
        last_profiles(rescan_shown(Some(listing), directory)) == last_profiles(scan_shown(listing)),
        scan_error(listing, directory) matches Some(error) ==> last_text(
            rescan_shown(Some(listing), directory),
            TextField::ErrorMessage,
        ) == Some(error),
        scan_error(listing, directory) is None ==> last_text(
            rescan_shown(Some(listing), directory),
            TextField::ErrorMessage,
        ) == last_text(scan_shown(listing), TextField::ErrorMessage),
{
    let first = scan_shown(listing);
    let second = match scan_error(listing, directory) {
        Some(error) => error_shown(error),
        None => Seq::empty(),
    };
    assert(rescan_shown(Some(listing), directory) =~= first + second);
    later_changes_count(
        first,
        second,
        TextField::ErrorMessage,
        FlagField::CoreBusy,
        NumberField::SettingApiPort,
    );
    reveal_with_fuel(last_text, 2);
    reveal_with_fuel(last_profiles, 2);
}

/// An error names the value that it is about.
pub proof fn setting_errors_name_their_cause(value: Seq<char>)
    ensures
        SettingErrorView::NoBinary(value).text() == "Mihomo binary does not exist: "@ + value,
        SettingErrorView::NoDirectory(value).text() == "Configuration directory does not exist: "@
            + value,
        SettingErrorView::BadPort.text() == "API port must be between 1 and 65535"@,
        SettingErrorView::UnknownField.text() == "Unknown setting field"@,
{
}

/// The model of an error holds what the error does.
pub proof fn setting_error_model_is_faithful(error: SettingError)
    ensures
        error matches SettingError::NoBinary(value) ==> error@ == SettingErrorView::NoBinary(
            value@,
        ),
        error matches SettingError::NoDirectory(value) ==> error@ == SettingErrorView::NoDirectory(
            value@,
        ),
        error is BadPort <==> error@ is BadPort,
        error is UnknownField <==> error@ is UnknownField,
{
}

/// The window changes in as many places as there is something to show.
pub proof fn nothing_more_is_shown_of_an_edit(
    config: ConfigView,
    index: i32,
    restart: bool,
    listing: DirectoryListing,
    directory: Seq<char>,
)
    ensures
        edit_shown(config, index).len() == 3,
        saved_shown(config, restart).len() == 9,
        rescan_shown(Some(listing), directory).len() == (if scan_error(listing, directory) is None {
            2int
        } else {
            3
        }),
{
}

} // verus!
