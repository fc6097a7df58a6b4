//! Changes to what the window shows.
use vstd::prelude::*;

use crate::config::{Config, ConfigView};
use crate::number::{decimal, decimal_text};
use crate::text::{copy_or_empty, text_or_empty, texts};

verus! {

/// A text of the window.
#[derive(Debug, Clone, Copy, PartialEq, Eq, Structural)]
pub enum TextField {
    SettingBinaryPath,
    SettingConfigDir,
    SettingApiPortText,
    SettingApiSecret,
    ActiveProfile,
    StatusMessage,
    ErrorMessage,
    ClashVersion,
    TrafficUpload,
    TrafficDownload,
    EditValue,
}

/// A switch of the window.
#[derive(Debug, Clone, Copy, PartialEq, Eq, Structural)]
pub enum FlagField {
    CoreBusy,
    CoreRunning,
    ShowEditUi,
    ProfilesLoaded,
}

/// A number of the window.
#[derive(Debug, Clone, Copy, PartialEq, Eq, Structural)]
pub enum NumberField {
    SettingApiPort,
    ClashModeIndex,
    EditingFieldIndex,
}

/// One change to what the window shows.
#[derive(Debug, PartialEq, Eq)]
pub enum UiUpdate {
    Text(TextField, String),
    Flag(FlagField, bool),
    Number(NumberField, i32),
    /// The list of profiles.
    Profiles(Vec<String>),
    /// Turns the sign of life beside the traffic over.
    TogglePulse,
}

/// The model of `UiUpdate`.
#[verifier::ext_equal]
pub enum UpdateView {
    Text(TextField, Seq<char>),
    Flag(FlagField, bool),
    Number(NumberField, i32),
    Profiles(Seq<Seq<char>>),
    TogglePulse,
}

impl View for UiUpdate {
    type V = UpdateView;

    open spec fn view(&self) -> UpdateView {
        match *self {
            UiUpdate::Text(field, text) => UpdateView::Text(field, text@),
            UiUpdate::Flag(field, on) => UpdateView::Flag(field, on),
            UiUpdate::Number(field, number) => UpdateView::Number(field, number),
            UiUpdate::Profiles(names) => UpdateView::Profiles(texts(names@)),
            UiUpdate::TogglePulse => UpdateView::TogglePulse,
        }
    }
}

/// The models of a sequence of changes.
pub open spec fn views(updates: Seq<UiUpdate>) -> Seq<UpdateView> {
    updates.map_values(|update: UiUpdate| update@)
}

/// Shows a text.
pub fn show(field: TextField, text: &str) -> (update: UiUpdate)
    ensures
        update@ == UpdateView::Text(field, text@),
{
    UiUpdate::Text(field, text.to_owned())
}

/// Sets a switch.
pub fn switch(field: FlagField, on: bool) -> (update: UiUpdate)
    ensures
        update@ == UpdateView::Flag(field, on),
{
    UiUpdate::Flag(field, on)
}

/// Adds changes behind others.
pub fn append_updates(updates: &mut Vec<UiUpdate>, more: Vec<UiUpdate>)
    ensures
        views(final(updates)@) == views(old(updates)@) + views(more@),
{
    let mut rest = more;
    updates.append(&mut rest);
    assert(views(updates@) =~= views(old(updates)@) + views(more@));
}

/// The settings as the window shows them.
pub open spec fn settings_shown(config: ConfigView) -> Seq<UpdateView> {
    seq![
        UpdateView::Text(
            TextField::SettingBinaryPath,
            text_or_empty(config.clash_binary_path),
        ),
        UpdateView::Text(TextField::SettingConfigDir, text_or_empty(config.config_dir)),
        UpdateView::Number(NumberField::SettingApiPort, config.api_port as i32),
        UpdateView::Text(TextField::SettingApiPortText, decimal(config.api_port as nat)),
        UpdateView::Text(TextField::SettingApiSecret, text_or_empty(config.api_secret)),
    ]
}

/// Shows the settings.
pub fn show_settings(config: &Config) -> (updates: Vec<UiUpdate>)
    ensures
        views(updates@) == settings_shown(config@),
{
    let mut updates: Vec<UiUpdate> = Vec::new();
    updates.push(
        UiUpdate::Text(TextField::SettingBinaryPath, copy_or_empty(&config.clash_binary_path)),
    );
    updates.push(UiUpdate::Text(TextField::SettingConfigDir, copy_or_empty(&config.config_dir)));
    updates.push(UiUpdate::Number(NumberField::SettingApiPort, config.api_port as i32));
    updates.push(
        UiUpdate::Text(TextField::SettingApiPortText, decimal_text(config.api_port as u128)),
    );
    updates.push(UiUpdate::Text(TextField::SettingApiSecret, copy_or_empty(&config.api_secret)));
    assert(views(updates@) =~= settings_shown(config@));
    updates
}

/// The value that a switch has last been set to by a sequence of changes.
pub open spec fn last_flag(updates: Seq<UpdateView>, field: FlagField) -> Option<bool>
    decreases updates.len(),
{
    if updates.len() == 0 {
        None
    } else {
        match updates.last() {
            UpdateView::Flag(f, on) => if f == field {
                Some(on)
            } else {
                last_flag(updates.drop_last(), field)
            },
            _ => last_flag(updates.drop_last(), field),
        }
    }
}

/// The text that a field last shows after a sequence of changes.
pub open spec fn last_text(updates: Seq<UpdateView>, field: TextField) -> Option<Seq<char>>
    decreases updates.len(),
{
    if updates.len() == 0 {
        None
    } else {
        match updates.last() {
            UpdateView::Text(f, text) => if f == field {
                Some(text)
            } else {
                last_text(updates.drop_last(), field)
            },
            _ => last_text(updates.drop_last(), field),
        }
    }
}

/// The number that a field last shows after a sequence of changes.
pub open spec fn last_number(updates: Seq<UpdateView>, field: NumberField) -> Option<i32>
    decreases updates.len(),
{
    if updates.len() == 0 {
        None
    } else {
        match updates.last() {
            UpdateView::Number(f, number) => if f == field {
                Some(number)
            } else {
                last_number(updates.drop_last(), field)
            },
            _ => last_number(updates.drop_last(), field),
        }
    }
}

/// The list of profiles that is last shown by a sequence of changes.
pub open spec fn last_profiles(updates: Seq<UpdateView>) -> Option<Seq<Seq<char>>>
    decreases updates.len(),
{
    if updates.len() == 0 {
        None
    } else {
        match updates.last() {
            UpdateView::Profiles(names) => Some(names),
            _ => last_profiles(updates.drop_last()),
        }
    }
}

/// Of two sequences of changes, one after the other, the second shows last
/// what it shows, and leaves the rest to the first.
pub proof fn later_changes_count(
    first: Seq<UpdateView>,
    second: Seq<UpdateView>,
    text: TextField,
    flag: FlagField,
    number: NumberField,
)
    ensures
        last_text(first + second, text) == (match last_text(second, text) {
            Some(shown) => Some(shown),
            None => last_text(first, text),
        }),
        last_flag(first + second, flag) == (match last_flag(second, flag) {
            Some(shown) => Some(shown),
            None => last_flag(first, flag),
        }),
        last_number(first + second, number) == (match last_number(second, number) {
            Some(shown) => Some(shown),
            None => last_number(first, number),
        }),
        last_profiles(first + second) == (match last_profiles(second) {
            Some(shown) => Some(shown),
            None => last_profiles(first),
        }),
    decreases second.len(),
{
    let all = first + second;
    if second.len() == 0 {
        assert(all =~= first);
    } else {
        assert(all.drop_last() =~= first + second.drop_last());
        assert(all.last() == second.last());
        later_changes_count(first, second.drop_last(), text, flag, number);
    }
}

/// The window shows every setting as it is, and a missing one as an empty
/// text.
pub proof fn settings_are_shown_as_they_are(config: ConfigView)
    ensures
        ({
            let shown = settings_shown(config);
            &&& last_text(shown, TextField::SettingBinaryPath) == Some(
                text_or_empty(config.clash_binary_path),
            )
            &&& last_text(shown, TextField::SettingConfigDir) == Some(
                text_or_empty(config.config_dir),
            )
            &&& last_text(shown, TextField::SettingApiSecret) == Some(
                text_or_empty(config.api_secret),
            )
            &&& last_text(shown, TextField::SettingApiPortText) == Some(
                decimal(config.api_port as nat),
            )
            &&& last_number(shown, NumberField::SettingApiPort) == Some(config.api_port as i32)
            &&& last_text(shown, TextField::ErrorMessage) is None
            &&& last_text(shown, TextField::StatusMessage) is None
            &&& last_text(shown, TextField::ActiveProfile) is None
            &&& last_flag(shown, FlagField::CoreBusy) is None
            &&& last_flag(shown, FlagField::CoreRunning) is None
        }),
{
    reveal_with_fuel(last_text, 7);
    reveal_with_fuel(last_number, 7);
    reveal_with_fuel(last_flag, 7);
}

/// The model of a change holds what the change does.
pub proof fn change_models_are_faithful(updates: Seq<UiUpdate>)
    ensures
        views(updates).len() == updates.len(),
        forall|i: int|
            #![trigger views(updates)[i]]
            0 <= i < updates.len() ==> match updates[i] {
                UiUpdate::Text(field, text) => views(updates)[i] == UpdateView::Text(field, text@),
                UiUpdate::Flag(field, on) => views(updates)[i] == UpdateView::Flag(field, on),
                UiUpdate::Number(field, number) => views(updates)[i] == UpdateView::Number(
                    field,
                    number,
                ),
                UiUpdate::Profiles(names) => views(updates)[i] == UpdateView::Profiles(
                    texts(names@),
                ),
                UiUpdate::TogglePulse => views(updates)[i] == UpdateView::TogglePulse,
            },
{
}

/// The settings are shown in five places and nowhere else.
pub proof fn settings_are_shown_in_five_places(config: ConfigView)
    ensures
        settings_shown(config).len() == 5,
{
}

} // verus!
