//! What the application decides: when the core is started and stopped, which
//! profile and mode it works with, and what the window shows.
use std::path::PathBuf;
use vstd::prelude::*;
use vstd::string::*;

use crate::api::{is_mode, ApiRequest, ClashApi, ClashApiView, Method};
use crate::config::{first_present, profile_candidates, Config, ConfigView};
use crate::number::decimal;
use crate::path::{may_require_file, plain_file_name, single_component, Location};
use crate::profiles::{scan_error, scan_profiles_into, scan_shown, DirectoryListing};
use crate::settings::{
    change_setting, setting_applied, PathProbe, SettingError, SettingErrorView,
};
use crate::startup::{ReadyCore, Startup};
use crate::text::{
    ascii_lower, copy_or_empty, join2, join3, opt_text, same_text, text_or_empty, texts,
    to_ascii_lower, trim, trimmed,
};
use crate::ui::{
    append_updates, last_flag, last_number, last_profiles, last_text, later_changes_count,
    settings_are_shown_as_they_are, settings_shown, show, show_settings, switch, views, FlagField,
    NumberField, TextField, UiUpdate, UpdateView,
};

verus! {

/// The state of the application. `S` is a running core.
#[derive(Debug)]
pub struct Controller<S> {
    config: Config,
    core: Option<RunningCore<S>>,
    generation: u64,
    shutting_down: bool,
}

/// A running core and its control interface.
#[derive(Debug)]
struct RunningCore<S> {
    sidecar: S,
    api: ClashApi,
}

/// The model of `Controller`.
#[verifier::ext_equal]
pub struct ControllerView<S> {
    pub config: ConfigView,
    pub sidecar: Option<S>,
    pub api: Option<ClashApiView>,
    pub generation: u64,
    pub shutting_down: bool,
}

impl<S> View for Controller<S> {
    type V = ControllerView<S>;

    closed spec fn view(&self) -> ControllerView<S> {
        ControllerView {
            config: self.config@,
            sidecar: match self.core {
                Some(core) => Some(core.sidecar),
                None => None,
            },
            api: match self.core {
                Some(core) => Some(core.api@),
                None => None,
            },
            generation: self.generation,
            shutting_down: self.shutting_down,
        }
    }
}

/// The number after a generation; the last one is followed by zero.
pub open spec fn next_generation(generation: u64) -> u64 {
    if generation == u64::MAX {
        0
    } else {
        (generation + 1) as u64
    }
}

impl<S> ControllerView<S> {
    /// What holds in every state: the core's control interface is known just
    /// while the core runs.
    pub open spec fn wf(self) -> bool {
        self.sidecar is Some <==> self.api is Some
    }

    /// The state at the start.
    pub open spec fn initial(config: ConfigView) -> ControllerView<S> {
        ControllerView {
            config,
            sidecar: None,
            api: None,
            generation: 0,
            shutting_down: false,
        }
    }

    /// Whether the core may be started.
    pub open spec fn may_start(self) -> bool {
        !self.shutting_down && self.sidecar is None
    }

    /// The state once a start of the core is under way.
    pub open spec fn starting(self) -> ControllerView<S> {
        ControllerView { generation: next_generation(self.generation), ..self }
    }

    /// Whether a core that was started in the given generation is still
    /// wanted.
    pub open spec fn still_wants(self, generation: u64) -> bool {
        self.generation == generation && !self.shutting_down
    }

    /// The state with a running core.
    pub open spec fn running(self, sidecar: S, api: ClashApiView) -> ControllerView<S> {
        ControllerView { sidecar: Some(sidecar), api: Some(api), ..self }
    }

    /// The state without a core, in a new generation.
    pub open spec fn stopped(self) -> ControllerView<S> {
        ControllerView {
            sidecar: None,
            api: None,
            generation: next_generation(self.generation),
            ..self
        }
    }

    /// The state while the application ends.
    pub open spec fn ending(self) -> ControllerView<S> {
        ControllerView { shutting_down: true, ..self.stopped() }
    }

    /// The state with other settings.
    pub open spec fn with_config(self, config: ConfigView) -> ControllerView<S> {
        ControllerView { config, ..self }
    }
}

/// What pressing the core's switch does.
#[derive(Debug, Clone, Copy, PartialEq, Eq, Structural)]
pub enum ToggleAction {
    Ignore,
    Start,
    Stop,
}

/// What pressing the core's switch does: nothing while it is busy, else it
/// stops a running core and starts a stopped one.
pub fn toggle_core(core_busy: bool, core_running: bool) -> (action: ToggleAction)
    ensures
        action == (if core_busy {
            ToggleAction::Ignore
        } else if core_running {
            ToggleAction::Stop
        } else {
            ToggleAction::Start
        }),
{
    if core_busy {
        ToggleAction::Ignore
    } else if core_running {
        ToggleAction::Stop
    } else {
        ToggleAction::Start
    }
}

// Modes.

/// The name of the mode at a position of the window's list.
pub open spec fn mode_name(index: i32) -> Option<Seq<char>> {
    if index == 0 {
        Some("rule"@)
    } else if index == 1 {
        Some("global"@)
    } else if index == 2 {
        Some("direct"@)
    } else {
        None
    }
}

/// The position of a mode in the window's list; an unknown one is shown as the
/// first.
pub open spec fn mode_position(mode: Seq<char>) -> i32 {
    if ascii_lower(mode) == "global"@ {
        1
    } else if ascii_lower(mode) == "direct"@ {
        2
    } else {
        0
    }
}

/// The position of a mode in the window's list. Letter case is disregarded, and
/// an unknown mode is shown as the first.
pub fn mode_index(mode: &str) -> (index: i32)
    ensures
        index == mode_position(mode@),
{
    let lower = to_ascii_lower(mode);
    if same_text(lower.as_str(), "global") {
        1
    } else if same_text(lower.as_str(), "direct") {
        2
    } else {
        0
    }
}

/// The position of the mode that the core reports at its start; the first one
/// if it reports none.
pub fn startup_mode_index(mode: Option<&str>) -> (index: i32)
    ensures
        index == (match mode {
            Some(m) => mode_position(m@),
            None => 0,
        }),
{
    match mode {
        Some(m) => mode_index(m),
        None => 0,
    }
}

/// A change of mode that is asked for.
#[derive(Debug)]
pub struct ModeSwitch {
    pub mode: String,
    pub request: ApiRequest,
    /// What the window shows meanwhile.
    pub updates: Vec<UiUpdate>,
}

/// What the window shows while the core is at work.
pub open spec fn busy_shown(busy: bool, status: Seq<char>) -> Seq<UpdateView> {
    seq![
        UpdateView::Flag(FlagField::CoreBusy, busy),
        UpdateView::Text(TextField::StatusMessage, status),
    ]
}

/// Shows whether the core is at work, and at what.
pub fn set_busy_status(busy: bool, status: &str) -> (updates: Vec<UiUpdate>)
    ensures
        views(updates@) == busy_shown(busy, status@),
{
    let mut updates: Vec<UiUpdate> = Vec::new();
    updates.push(switch(FlagField::CoreBusy, busy));
    updates.push(show(TextField::StatusMessage, status));
    assert(views(updates@) =~= busy_shown(busy, status@));
    updates
}

/// What the window shows of an error.
pub open spec fn error_shown(message: Seq<char>) -> Seq<UpdateView> {
    seq![UpdateView::Text(TextField::ErrorMessage, message)]
}

/// Shows an error.
pub fn set_error(message: &str) -> (updates: Vec<UiUpdate>)
    ensures
        views(updates@) == error_shown(message@),
{
    let mut updates: Vec<UiUpdate> = Vec::new();
    updates.push(show(TextField::ErrorMessage, message));
    assert(views(updates@) =~= error_shown(message@));
    updates
}

/// What the window shows once the core has answered a change of mode.
pub open spec fn mode_switched_shown(
    index: i32,
    mode: Seq<char>,
    failure: Option<Seq<char>>,
) -> Seq<UpdateView> {
    match failure {
        None => seq![
            UpdateView::Flag(FlagField::CoreBusy, false),
            UpdateView::Number(NumberField::ClashModeIndex, index),
            UpdateView::Text(TextField::StatusMessage, "Proxy mode: "@ + mode),
            UpdateView::Text(TextField::ErrorMessage, Seq::empty()),
        ],
        Some(error) => seq![
            UpdateView::Flag(FlagField::CoreBusy, false),
            UpdateView::Text(TextField::StatusMessage, "Mode switch failed"@),
            UpdateView::Text(TextField::ErrorMessage, error),
        ],
    }
}

/// Shows what became of a change of mode.
pub fn mode_switched(index: i32, mode: &str, failure: Option<String>) -> (updates: Vec<UiUpdate>)
    ensures
        views(updates@) == mode_switched_shown(index, mode@, opt_text(failure)),
{
    let mut updates: Vec<UiUpdate> = Vec::new();
    updates.push(switch(FlagField::CoreBusy, false));
    match &failure {
        None => {
            updates.push(UiUpdate::Number(NumberField::ClashModeIndex, index));
            updates.push(
                UiUpdate::Text(TextField::StatusMessage, join2("Proxy mode: ", mode)),
            );
            updates.push(UiUpdate::Text(TextField::ErrorMessage, String::new()));
        },
        Some(error) => {
            updates.push(show(TextField::StatusMessage, "Mode switch failed"));
            updates.push(show(TextField::ErrorMessage, error.as_str()));
        },
    }
    assert(views(updates@) =~= mode_switched_shown(index, mode@, opt_text(failure)));
    updates
}

// Starting and stopping.

/// What the window shows while the core starts.
pub open spec fn starting_shown() -> Seq<UpdateView> {
    seq![
        UpdateView::Flag(FlagField::CoreBusy, true),
        UpdateView::Text(TextField::ErrorMessage, Seq::empty()),
        UpdateView::Text(TextField::StatusMessage, "Starting Mihomo core…"@),
    ]
}

/// Shows that the core starts.
pub fn show_starting() -> (updates: Vec<UiUpdate>)
    ensures
        views(updates@) == starting_shown(),
{
    let mut updates: Vec<UiUpdate> = Vec::new();
    updates.push(switch(FlagField::CoreBusy, true));
    updates.push(UiUpdate::Text(TextField::ErrorMessage, String::new()));
    updates.push(show(TextField::StatusMessage, "Starting Mihomo core…"));
    assert(views(updates@) =~= starting_shown());
    updates
}

/// What the window shows once the core runs.
pub open spec fn running_shown(version: Seq<char>, mode: i32) -> Seq<UpdateView> {
    seq![
        UpdateView::Flag(FlagField::CoreRunning, true),
        UpdateView::Flag(FlagField::CoreBusy, false),
        UpdateView::Text(TextField::ClashVersion, version),
        UpdateView::Number(NumberField::ClashModeIndex, mode),
        UpdateView::Text(TextField::StatusMessage, "Mihomo core is running"@),
    ]
}

/// Shows that the core runs.
pub fn show_running(version: &str, mode: i32) -> (updates: Vec<UiUpdate>)
    ensures
        views(updates@) == running_shown(version@, mode),
{
    let mut updates: Vec<UiUpdate> = Vec::new();
    updates.push(switch(FlagField::CoreRunning, true));
    updates.push(switch(FlagField::CoreBusy, false));
    updates.push(show(TextField::ClashVersion, version));
    updates.push(UiUpdate::Number(NumberField::ClashModeIndex, mode));
    updates.push(show(TextField::StatusMessage, "Mihomo core is running"));
    assert(views(updates@) =~= running_shown(version@, mode));
    updates
}

/// What the window shows where the core did not start.
pub open spec fn start_failure_shown(message: Seq<char>) -> Seq<UpdateView> {
    seq![
        UpdateView::Flag(FlagField::CoreRunning, false),
        UpdateView::Flag(FlagField::CoreBusy, false),
        UpdateView::Text(TextField::StatusMessage, "Core failed to start"@),
        UpdateView::Text(TextField::ErrorMessage, message),
    ]
}

/// Shows that the core did not start.
pub fn report_start_failure(message: &str) -> (updates: Vec<UiUpdate>)
    ensures
        views(updates@) == start_failure_shown(message@),
{
    let mut updates: Vec<UiUpdate> = Vec::new();
    updates.push(switch(FlagField::CoreRunning, false));
    updates.push(switch(FlagField::CoreBusy, false));
    updates.push(show(TextField::StatusMessage, "Core failed to start"));
    updates.push(show(TextField::ErrorMessage, message));
    assert(views(updates@) =~= start_failure_shown(message@));
    updates
}

/// What the window shows while the core stops.
pub open spec fn stopping_shown() -> Seq<UpdateView> {
    busy_shown(true, "Stopping Mihomo core…"@)
}

/// Shows that the core stops.
pub fn show_stopping() -> (updates: Vec<UiUpdate>)
    ensures
        views(updates@) == stopping_shown(),
{
    set_busy_status(true, "Stopping Mihomo core…")
}

/// What the window shows once the core has stopped.
pub open spec fn stopped_shown(failure: Option<Seq<char>>) -> Seq<UpdateView> {
    let shown = seq![
        UpdateView::Flag(FlagField::CoreRunning, false),
        UpdateView::Flag(FlagField::CoreBusy, false),
        UpdateView::Text(TextField::ClashVersion, Seq::empty()),
        UpdateView::Text(TextField::TrafficUpload, "—"@),
        UpdateView::Text(TextField::TrafficDownload, "—"@),
        UpdateView::Text(TextField::StatusMessage, "Core is stopped"@),
    ];
    match failure {
        Some(error) => shown.push(
            UpdateView::Text(
                TextField::ErrorMessage,
                "Could not stop Mihomo cleanly: "@ + error,
            ),
        ),
        None => shown,
    }
}

/// Shows that the core has stopped, and what went wrong in doing so, if
/// anything did.
pub fn show_stopped(failure: Option<String>) -> (updates: Vec<UiUpdate>)
    ensures
        views(updates@) == stopped_shown(opt_text(failure)),
{
    let mut updates: Vec<UiUpdate> = Vec::new();
    updates.push(switch(FlagField::CoreRunning, false));
    updates.push(switch(FlagField::CoreBusy, false));
    updates.push(UiUpdate::Text(TextField::ClashVersion, String::new()));
    updates.push(show(TextField::TrafficUpload, "—"));
    updates.push(show(TextField::TrafficDownload, "—"));
    updates.push(show(TextField::StatusMessage, "Core is stopped"));
    if let Some(error) = &failure {
        updates.push(
            UiUpdate::Text(
                TextField::ErrorMessage,
                join2("Could not stop Mihomo cleanly: ", error.as_str()),
            ),
        );
    }
    assert(views(updates@) =~= stopped_shown(opt_text(failure)));
    updates
}

// Profiles.

/// What choosing a profile leads to.
#[derive(Debug)]
pub enum ProfileChoice {
    /// The profile is not there; the error in words.
    Missing(String),
    /// The core is told to read the profile's file; what the window shows
    /// meanwhile.
    Reload { place: Location, updates: Vec<UiUpdate> },
    /// No core runs: the profile is active at once.
    Activate,
}

/// What the window shows once a profile was chosen and the core and the disk
/// had their say.
pub open spec fn profile_selected_shown(
    profile: Seq<char>,
    failure: Option<Seq<char>>,
) -> Seq<UpdateView> {
    match failure {
        None => seq![
            UpdateView::Flag(FlagField::CoreBusy, false),
            UpdateView::Text(TextField::ActiveProfile, profile),
            UpdateView::Text(TextField::StatusMessage, "Profile “"@ + profile + "” is active"@),
            UpdateView::Text(TextField::ErrorMessage, Seq::empty()),
        ],
        Some(error) => seq![
            UpdateView::Flag(FlagField::CoreBusy, false),
            UpdateView::Text(TextField::StatusMessage, "Profile activation failed"@),
            UpdateView::Text(TextField::ErrorMessage, error),
        ],
    }
}

/// Shows what became of the choice of a profile.
pub fn profile_selected(profile: &str, failure: Option<String>) -> (updates: Vec<UiUpdate>)
    ensures
        views(updates@) == profile_selected_shown(profile@, opt_text(failure)),
{
    let mut updates: Vec<UiUpdate> = Vec::new();
    updates.push(switch(FlagField::CoreBusy, false));
    match &failure {
        None => {
            updates.push(show(TextField::ActiveProfile, profile));
            updates.push(
                UiUpdate::Text(
                    TextField::StatusMessage,
                    join3("Profile “", profile, "” is active"),
                ),
            );
            updates.push(UiUpdate::Text(TextField::ErrorMessage, String::new()));
        },
        Some(error) => {
            updates.push(show(TextField::StatusMessage, "Profile activation failed"));
            updates.push(show(TextField::ErrorMessage, error.as_str()));
        },
    }
    assert(views(updates@) =~= profile_selected_shown(profile@, opt_text(failure)));
    updates
}

/// What reloading leads to.
#[derive(Debug)]
pub struct ReloadPlan {
    /// What the window shows.
    pub updates: Vec<UiUpdate>,
    /// The file that the core is told to read once more, if it is.
    pub place: Option<Location>,
}

/// What the window shows when reloading begins: the list of profiles, then the
/// error in reading it, or else what is done.
pub open spec fn reload_shown(
    listing: DirectoryListing,
    directory: Seq<char>,
    core_runs: bool,
) -> Seq<UpdateView> {
    scan_shown(listing) + (match scan_error(listing, directory) {
        Some(error) => error_shown(error),
        None => if core_runs {
            busy_shown(true, "Reloading active profile…"@)
        } else {
            seq![UpdateView::Text(TextField::StatusMessage, "Profile list refreshed"@)]
        },
    })
}

/// What the window shows once the core has read its file once more.
pub open spec fn reloaded_shown(failure: Option<Seq<char>>) -> Seq<UpdateView> {
    match failure {
        None => busy_shown(false, "Active profile reloaded"@),
        Some(error) => seq![
            UpdateView::Flag(FlagField::CoreBusy, false),
            UpdateView::Text(TextField::ErrorMessage, error),
            UpdateView::Text(TextField::StatusMessage, "Profile reload failed"@),
        ],
    }
}

/// Shows what became of reloading.
pub fn profile_reloaded(failure: Option<String>) -> (updates: Vec<UiUpdate>)
    ensures
        views(updates@) == reloaded_shown(opt_text(failure)),
{
    match &failure {
        None => set_busy_status(false, "Active profile reloaded"),
        Some(error) => {
            let mut updates: Vec<UiUpdate> = Vec::new();
            updates.push(switch(FlagField::CoreBusy, false));
            updates.push(show(TextField::ErrorMessage, error.as_str()));
            updates.push(show(TextField::StatusMessage, "Profile reload failed"));
            assert(views(updates@) =~= reloaded_shown(opt_text(failure)));
            updates
        },
    }
}

/// What the window shows at the start. `directory` is how the directory of
/// the profiles is shown to the user.
pub open spec fn initial_shown(
    config: ConfigView,
    load_error: Option<Seq<char>>,
    listing: DirectoryListing,
    directory: Seq<char>,
) -> Seq<UpdateView> {
    let shown = settings_shown(config) + seq![
        UpdateView::Text(TextField::ActiveProfile, text_or_empty(config.active_profile)),
        UpdateView::Text(TextField::StatusMessage, "Core is stopped"@),
    ] + scan_shown(listing);
    match scan_error(listing, directory) {
        Some(error) => shown + error_shown(error),
        None => match load_error {
            Some(error) => shown + error_shown(error),
            None => shown,
        },
    }
}

impl<S> Controller<S> {
    /// The state at the start, from what loading the settings gave. Where that
    /// failed, the initial settings are used, and the error is told.
    pub fn bind(loaded: Result<Config, String>) -> (bound: (Controller<S>, Option<String>))
        ensures
            loaded matches Ok(config) ==> bound.0@ == ControllerView::<S>::initial(config@)
                && bound.1 is None,
            loaded matches Err(error) ==> bound.0@ == ControllerView::<S>::initial(
                ConfigView::initial(),
            ) && opt_text(bound.1) == Some("Could not load application settings: "@ + error@),
    {
        let (config, load_error) = match loaded {
            Ok(config) => (config, None),
            Err(error) => (
                Config::default(),
                Some(join2("Could not load application settings: ", error.as_str())),
            ),
        };
        (
            Controller { config, core: None, generation: 0, shutting_down: false },
            load_error,
        )
    }

    /// The settings.
    pub fn config(&self) -> (config: &Config)
        ensures
            config@ == self@.config,
    {
        &self.config
    }

    /// The core's control interface, if the core runs.
    pub fn api(&self) -> (api: Option<&ClashApi>)
        ensures
            api is Some <==> self@.api is Some,
            api matches Some(a) ==> self@.api == Some(a@),
    {
        match &self.core {
            Some(core) => Some(&core.api),
            None => None,
        }
    }

    /// The running core, if there is one.
    pub fn sidecar_mut(&mut self) -> (sidecar: Option<&mut S>)
        ensures
            sidecar is Some <==> old(self)@.sidecar is Some,
            sidecar matches Some(s) ==> *s == old(self)@.sidecar->0 && final(self)@ == (
            ControllerView { sidecar: Some(*final(s)), ..old(self)@ }),
            sidecar is None ==> final(self)@ == old(self)@,
    {
        match &mut self.core {
            Some(core) => Some(&mut core.sidecar),
            None => None,
        }
    }

    fn advance(&mut self)
        ensures
            final(self)@ == old(self)@.starting(),
    {
        self.generation = if self.generation == u64::MAX {
            0
        } else {
            self.generation + 1
        };
        assert(self@ =~= old(self)@.starting());
    }

    /// Shows the state at the start.
    pub fn initialize_ui(
        &self,
        load_error: Option<String>,
        listing: DirectoryListing,
        directory: &str,
    ) -> (updates: Vec<UiUpdate>)
        ensures
            views(updates@) == initial_shown(
                self@.config,
                opt_text(load_error),
                listing,
                directory@,
            ),
    {
        let mut updates = show_settings(&self.config);
        let mut more: Vec<UiUpdate> = Vec::new();
        more.push(
            UiUpdate::Text(TextField::ActiveProfile, copy_or_empty(&self.config.active_profile)),
        );
        more.push(show(TextField::StatusMessage, "Core is stopped"));
        assert(views(more@) =~= seq![
            UpdateView::Text(
                TextField::ActiveProfile,
                text_or_empty(self@.config.active_profile),
            ),
            UpdateView::Text(TextField::StatusMessage, "Core is stopped"@),
        ]);
        append_updates(&mut updates, more);
        let scan = scan_profiles_into(listing, directory);
        append_updates(&mut updates, scan.updates);
        match &scan.error {
            Some(error) => {
                append_updates(&mut updates, set_error(error.as_str()));
            },
            None => match &load_error {
                Some(error) => {
                    append_updates(&mut updates, set_error(error.as_str()));
                },
                None => {},
            },
        }
        updates
    }

    /// Begins a start of the core, unless one runs or the application ends.
    pub fn begin_start(&mut self) -> (startup: Option<Startup>)
        ensures
            startup is Some <==> old(self)@.may_start(),
            startup matches Some(s) ==> {
                &&& final(self)@ == old(self)@.starting()
                &&& s@.generation == final(self)@.generation
                &&& s@.config == old(self)@.config
            },
            startup is None ==> final(self)@ == old(self)@,
    {
        if self.shutting_down || self.core.is_some() {
            return None;
        }
        self.advance();
        Some(Startup::new(self.config.clone(), self.generation))
    }

    /// Takes in a core that answers, if it is still wanted, and shows that it
    /// runs. `mode` is the mode it reported, if it did. A core that is not
    /// wanted any more is handed back to be stopped.
    pub fn accept_start(&mut self, ready: ReadyCore, sidecar: S, mode: Option<&str>) -> (accepted:
        Result<Vec<UiUpdate>, S>)
        ensures
            accepted is Ok <==> old(self)@.still_wants(ready@.generation),
            accepted matches Ok(updates) ==> final(self)@ == old(self)@.running(
                sidecar,
                ready@.api,
            ) && views(updates@) == running_shown(
                ready@.version,
                match mode {
                    Some(m) => mode_position(m@),
                    None => 0,
                },
            ),
            accepted matches Err(s) ==> s == sidecar && final(self)@ == old(self)@,
    {
        if self.generation == ready.generation() && !self.shutting_down {
            let (api, version) = ready.into_parts();
            self.core = Some(RunningCore { sidecar, api });
            assert(self@ =~= old(self)@.running(sidecar, ready@.api));
            Ok(show_running(version.as_str(), startup_mode_index(mode)))
        } else {
            Err(sidecar)
        }
    }

    /// Gives up the core, to be stopped if there is one. A start that is under
    /// way is no longer wanted.
    pub fn begin_stop(&mut self) -> (sidecar: Option<S>)
        ensures
            sidecar == old(self)@.sidecar,
            final(self)@ == old(self)@.stopped(),
    {
        self.advance();
        let sidecar = match self.core.take() {
            Some(core) => Some(core.sidecar),
            None => None,
        };
        assert(self@ =~= old(self)@.stopped());
        sidecar
    }

    /// Ends the application: gives up the core, to be stopped if there is one,
    /// and lets none start any more.
    pub fn shutdown(&mut self) -> (sidecar: Option<S>)
        ensures
            sidecar == old(self)@.sidecar,
            final(self)@ == old(self)@.ending(),
    {
        let sidecar = self.begin_stop();
        self.shutting_down = true;
        assert(self@ =~= old(self)@.ending());
        sidecar
    }

    /// Begins a change to the mode at a position of the window's list. The
    /// error is one in words.
    pub fn select_mode(&self, index: i32) -> (switch: Result<ModeSwitch, String>)
        ensures
            switch is Ok <==> mode_name(index) is Some && self@.api is Some,
            switch matches Ok(s) ==> {
                &&& mode_name(index) == Some(s.mode@)
                &&& s.request@ == self@.api->0.request(
                    Method::Patch,
                    "/configs"@,
                    5000,
                ).with_json("mode"@, s.mode@)
                &&& views(s.updates@) == busy_shown(
                    true,
                    "Switching to "@ + s.mode@ + " mode…"@,
                )
            },
            switch matches Err(e) ==> e@ == (if mode_name(index) is None {
                "Unknown proxy mode"@
            } else {
                "Start the Mihomo core before changing mode"@
            }),
    {
        let mode = if index == 0 {
            "rule"
        } else if index == 1 {
            "global"
        } else if index == 2 {
            "direct"
        } else {
            return Err("Unknown proxy mode".to_owned());
        };
        let api = match self.api() {
            Some(api) => api,
            None => {
                return Err("Start the Mihomo core before changing mode".to_owned());
            },
        };
        match api.set_mode(mode) {
            Ok(request) => Ok(
                ModeSwitch {
                    mode: mode.to_owned(),
                    request,
                    updates: set_busy_status(
                        true,
                        join3("Switching to ", mode, " mode…").as_str(),
                    ),
                },
            ),
            Err(error) => Err(error.message()),
        }
    }

    /// Begins the choice of a profile. `found` is where it lies, if it does.
    pub fn choose_profile(&self, profile: &str, found: Option<Location>) -> (choice: ProfileChoice)
        ensures
            match choice {
                ProfileChoice::Missing(error) => found is None && error@
                    == "Profile no longer exists: "@ + profile@,
                ProfileChoice::Reload { place, updates } => found == Some(place)
                    && self@.api is Some && views(updates@) == busy_shown(
                    true,
                    "Activating "@ + profile@ + "…"@,
                ),
                ProfileChoice::Activate => found is Some && self@.api is None,
            },
    {
        match found {
            None => ProfileChoice::Missing(join2("Profile no longer exists: ", profile)),
            Some(place) => {
                if self.core.is_some() {
                    ProfileChoice::Reload {
                        place,
                        updates: set_busy_status(true, join3("Activating ", profile, "…").as_str()),
                    }
                } else {
                    ProfileChoice::Activate
                }
            },
        }
    }

    /// Begins the choice of a profile. `files` says which of its candidates are
    /// files in the directory of the profiles.
    pub fn select_profile(&self, profile: &str, files: &Vec<String>) -> (choice: ProfileChoice)
        ensures
            choice !is Missing ==> single_component(profile@) && first_present(
                profile_candidates(profile@),
                texts(files@),
            ) is Some,
            plain_file_name(profile@) && first_present(
                profile_candidates(profile@),
                texts(files@),
            ) is Some ==> choice !is Missing,
            match choice {
                ProfileChoice::Missing(error) => error@ == "Profile no longer exists: "@ + profile@,
                ProfileChoice::Reload { place, updates } => self@.api is Some && views(updates@)
                    == busy_shown(true, "Activating "@ + profile@ + "…"@) && exists|
                    platform: Option<PathBuf>,
                |
                    place@ == (#[trigger] self@.config.directory(platform)).child(
                        first_present(profile_candidates(profile@), texts(files@))->0,
                    ),
                ProfileChoice::Activate => self@.api is None,
            },
    {
        self.choose_profile(profile, self.config.profile_path(profile, files))
    }

    /// Makes a profile the active one, unless the core refused it for the
    /// given reason. The result are the settings to be saved.
    pub fn finish_profile_selection(&mut self, profile: &str, reload: Result<(), String>) -> (saved:
        Result<Config, String>)
        ensures
            reload matches Err(e) ==> saved == Err::<Config, String>(e) && final(self)@
                == old(self)@,
            reload is Ok ==> {
                &&& saved is Ok
                &&& final(self)@ == old(self)@.with_config(
                    ConfigView { active_profile: Some(profile@), ..old(self)@.config },
                )
                &&& saved->Ok_0@ == final(self)@.config
            },
    {
        match reload {
            Err(error) => Err(error),
            Ok(()) => {
                self.config.active_profile = Some(profile.to_owned());
                assert(self@ =~= old(self)@.with_config(
                    ConfigView { active_profile: Some(profile@), ..old(self)@.config },
                ));
                Ok(self.config.clone())
            },
        }
    }

    /// Begins to reload: shows the profiles, and has a running core read its
    /// file once more unless they cannot be listed. `files` says which of the
    /// active profile's candidates are files in the directory of the profiles.
    pub fn begin_reload(
        &self,
        listing: DirectoryListing,
        directory: &str,
        files: &Vec<String>,
    ) -> (plan: ReloadPlan)
        ensures
            views(plan.updates@) == reload_shown(listing, directory@, self@.api is Some),
            plan.place is Some <==> scan_error(listing, directory@) is None && self@.api is Some,
            plan.place matches Some(place) ==> exists|platform: Option<PathBuf>| #[trigger]
                self@.config.reads_from(place@, texts(files@), platform),
    {
        let scan = scan_profiles_into(listing, directory);
        let mut updates = scan.updates;
        match &scan.error {
            Some(error) => {
                append_updates(&mut updates, set_error(error.as_str()));
                ReloadPlan { updates, place: None }
            },
            None => {
                if self.core.is_some() {
                    append_updates(
                        &mut updates,
                        set_busy_status(true, "Reloading active profile…"),
                    );
                    ReloadPlan { updates, place: Some(self.config.active_config_path(files)) }
                } else {
                    let mut more: Vec<UiUpdate> = Vec::new();
                    more.push(show(TextField::StatusMessage, "Profile list refreshed"));
                    assert(views(more@) =~= seq![
                        UpdateView::Text(TextField::StatusMessage, "Profile list refreshed"@),
                    ]);
                    append_updates(&mut updates, more);
                    ReloadPlan { updates, place: None }
                }
            },
        }
    }

    /// Forgets a core that has ended by itself.
    pub fn note_exit(&mut self)
        ensures
            final(self)@ == old(self)@.stopped(),
    {
        self.core = None;
        self.advance();
        assert(self@ =~= old(self)@.stopped());
    }

    /// Whether the application ends.
    pub fn is_shutting_down(&self) -> (ending: bool)
        ensures
            ending == self@.shutting_down,
    {
        self.shutting_down
    }

    /// Sets a field of the settings. The result are the settings to be saved,
    /// and whether the core has to be started anew for them.
    pub fn update_setting(&mut self, index: i32, value: &str, probe: PathProbe) -> (updated: Result<
        (Config, bool),
        SettingError,
    >)
        ensures
            exists|needs_file: bool|
                may_require_file(value@, needs_file) && (match updated {
                    Ok((config, restart)) => {
                        &&& #[trigger] setting_applied(
                            old(self)@.config,
                            index,
                            value@,
                            needs_file,
                            probe,
                        ) == Ok::<ConfigView, SettingErrorView>(config@)
                        &&& restart == (old(self)@.sidecar is Some)
                        &&& final(self)@ == old(self)@.with_config(config@)
                    },
                    Err(error) => {
                        &&& setting_applied(
                            old(self)@.config,
                            index,
                            value@,
                            needs_file,
                            probe,
                        ) == Err::<ConfigView, SettingErrorView>(error@)
                        &&& final(self)@ == old(self)@
                    },
                }),
    {
        match change_setting(&self.config, index, value, probe) {
            Ok(config) => {
                self.config = config.clone();
                assert(self@ =~= old(self)@.with_config(config@));
                Ok((config, self.core.is_some()))
            },
            Err(error) => Err(error),
        }
    }

    /// Saves an edited field: sets it to the text as it was entered, without
    /// the white space at both ends. `probe` is what the disk holds at the text
    /// that is left. The result is that of `update_setting`.
    pub fn save_setting(&mut self, index: i32, raw: &str, probe: PathProbe) -> (updated: Result<
        (Config, bool),
        SettingError,
    >)
        ensures
            exists|needs_file: bool|
                may_require_file(trimmed(raw@), needs_file) && (match updated {
                    Ok((config, restart)) => {
                        &&& #[trigger] setting_applied(
                            old(self)@.config,
                            index,
                            trimmed(raw@),
                            needs_file,
                            probe,
                        ) == Ok::<ConfigView, SettingErrorView>(config@)
                        &&& restart == (old(self)@.sidecar is Some)
                        &&& final(self)@ == old(self)@.with_config(config@)
                    },
                    Err(error) => {
                        &&& setting_applied(
                            old(self)@.config,
                            index,
                            trimmed(raw@),
                            needs_file,
                            probe,
                        ) == Err::<ConfigView, SettingErrorView>(error@)
                        &&& final(self)@ == old(self)@
                    },
                }),
    {
        let value = trim(raw);
        self.update_setting(index, value.as_str(), probe)
    }
}

// What holds of the state as a whole.

/// In every state the core's control interface is known just while the core
/// runs.
pub proof fn interface_is_known_while_running<S>(controller: Controller<S>)
    ensures
        controller@.wf(),
{
}

/// A core whose start was overtaken by a stop is not taken in.
pub proof fn stop_overtakes_a_start<S>(state: ControllerView<S>)
    ensures
        !state.starting().stopped().still_wants(state.starting().generation),
        !state.stopped().still_wants(state.generation),
{
}

/// Of two starts only the later one is taken in.
pub proof fn later_start_overtakes<S>(state: ControllerView<S>)
    ensures
        state.starting().starting().still_wants(state.starting().generation) == false,
        !state.shutting_down ==> state.starting().still_wants(state.starting().generation),
{
}

/// The generation after the given number of starts, stops and ends of the core.
pub open spec fn generation_after(generation: u64, n: nat) -> u64
    decreases n,
{
    if n == 0 {
        generation
    } else {
        next_generation(generation_after(generation, (n - 1) as nat))
    }
}

proof fn generations_count_up(generation: u64, n: nat)
    requires
        n <= u64::MAX,
    ensures
        generation_after(generation, n) == (if generation + n <= u64::MAX {
            generation + n
        } else {
            generation + n - u64::MAX - 1
        }),
    decreases n,
{
    if n > 0 {
        generations_count_up(generation, (n - 1) as nat);
    }
}

/// However many starts, stops and ends of the core come after a start, up to
/// the number of generations, its core is not taken in any more.
pub proof fn overtaken_starts_stay_refused<S>(
    state: ControllerView<S>,
    later: ControllerView<S>,
    n: nat,
)
    requires
        0 < n <= u64::MAX,
        later.generation == generation_after(state.generation, n),
    ensures
        !later.still_wants(state.generation),
{
    generations_count_up(state.generation, n);
}

/// Once the application ends, no core is started or taken in any more, and
/// nothing that happens changes that.
pub proof fn ending_is_final<S>(state: ControllerView<S>, generation: u64, config: ConfigView)
    ensures
        state.ending().shutting_down,
        state.shutting_down ==> {
            &&& !state.may_start()
            &&& !state.still_wants(generation)
            &&& state.stopped().shutting_down
            &&& state.ending().shutting_down
            &&& state.with_config(config).shutting_down
        },
{
}

/// The modes of the window's list are just those that the core has, and each
/// is shown at its own position.
pub proof fn modes_are_shown_where_they_are_chosen(index: i32)
    ensures
        mode_name(index) is Some <==> 0 <= index <= 2,
        mode_name(index) matches Some(mode) ==> is_mode(mode) && mode_position(mode) == index,
{
    reveal_strlit("rule");
    reveal_strlit("global");
    reveal_strlit("direct");
    if index == 0 {
        assert(ascii_lower("rule"@).len() == 4);
        assert("global"@.len() == 6 && "direct"@.len() == 6);
    } else if index == 1 {
        assert(ascii_lower("global"@) =~= "global"@);
    } else if index == 2 {
        assert(ascii_lower("direct"@) =~= "direct"@);
        assert("direct"@[0] != "global"@[0]);
    }
}

/// Whatever the core was asked to do, the window no longer shows it as busy
/// once the outcome is known, and a failure is always told.
pub proof fn outcomes_end_the_work(
    version: Seq<char>,
    mode: i32,
    name: Seq<char>,
    failure: Option<Seq<char>>,
    error: Seq<char>,
)
    ensures
        last_flag(running_shown(version, mode), FlagField::CoreBusy) == Some(false),
        last_flag(start_failure_shown(error), FlagField::CoreBusy) == Some(false),
        last_flag(stopped_shown(failure), FlagField::CoreBusy) == Some(false),
        last_flag(mode_switched_shown(mode, name, failure), FlagField::CoreBusy) == Some(false),
        last_flag(profile_selected_shown(name, failure), FlagField::CoreBusy) == Some(false),
        last_flag(reloaded_shown(failure), FlagField::CoreBusy) == Some(false),
        last_text(start_failure_shown(error), TextField::ErrorMessage) == Some(error),
        failure matches Some(e) ==> {
            &&& last_text(mode_switched_shown(mode, name, failure), TextField::ErrorMessage)
                == Some(e)
            &&& last_text(profile_selected_shown(name, failure), TextField::ErrorMessage)
                == Some(e)
            &&& last_text(reloaded_shown(failure), TextField::ErrorMessage) == Some(e)
            &&& last_text(stopped_shown(failure), TextField::ErrorMessage) == Some(
                "Could not stop Mihomo cleanly: "@ + e,
            )
        },
{
    reveal_with_fuel(last_flag, 8);
    reveal_with_fuel(last_text, 8);
}

// What the changes of state and of the window come to.

/// A change of state changes what it is for and nothing else: a start the
/// generation, a running core what is held of it, a stop both, the end also
/// that nothing starts any more, and new settings the settings.
pub proof fn states_change_in_what_they_are_for<S>(
    state: ControllerView<S>,
    sidecar: S,
    api: ClashApiView,
    config: ConfigView,
)
    ensures
        ({
            let next: int = if state.generation == u64::MAX {
                0
            } else {
                state.generation + 1
            };
            &&& state.starting().generation == next
            &&& state.starting().config == state.config && state.starting().sidecar
                == state.sidecar && state.starting().api == state.api
                && state.starting().shutting_down == state.shutting_down
            &&& state.running(sidecar, api).sidecar == Some(sidecar)
            &&& state.running(sidecar, api).api == Some(api)
            &&& state.running(sidecar, api).config == state.config && state.running(
                sidecar,
                api,
            ).generation == state.generation && state.running(sidecar, api).shutting_down
                == state.shutting_down
            &&& state.stopped().sidecar is None && state.stopped().api is None
            &&& state.stopped().generation == next && state.stopped().config == state.config
                && state.stopped().shutting_down == state.shutting_down
            &&& state.ending().sidecar is None && state.ending().api is None
                && state.ending().shutting_down
            &&& state.ending().generation == next && state.ending().config == state.config
            &&& state.with_config(config).config == config
            &&& state.with_config(config).sidecar == state.sidecar && state.with_config(config).api
                == state.api && state.with_config(config).generation == state.generation
                && state.with_config(config).shutting_down == state.shutting_down
        }),
{
}

/// The application starts with the settings it was given, without a core, and
/// a core may be started just while none runs and the application does not
/// end. A core is wanted just in the generation of its start.
pub proof fn cores_start_where_none_runs<S>(
    state: ControllerView<S>,
    config: ConfigView,
    generation: u64,
)
    ensures
        ControllerView::<S>::initial(config).config == config,
        ControllerView::<S>::initial(config).may_start(),
        state.may_start() <==> state.sidecar is None && !state.shutting_down,
        state.still_wants(generation) <==> state.generation == generation && !state.shutting_down,
        state.may_start() ==> state.starting().still_wants(state.starting().generation),
        state.starting().generation != state.generation,
{
}

/// A mode is shown by its name in any letter case, and an unknown one as the
/// first.
pub proof fn modes_are_shown_in_any_case(mode: Seq<char>)
    ensures
        ascii_lower(mode) == "global"@ ==> mode_position(mode) == 1,
        ascii_lower(mode) == "direct"@ ==> mode_position(mode) == 2,
        ascii_lower(mode) != "global"@ && ascii_lower(mode) != "direct"@ ==> mode_position(mode)
            == 0,
        mode_name(0) == Some("rule"@),
        mode_name(1) == Some("global"@),
        mode_name(2) == Some("direct"@),
{
    reveal_strlit("global");
    reveal_strlit("direct");
    assert("global"@[0] != "direct"@[0]);
}

/// A core that runs is shown as running, with its version and its mode; one
/// that did not start, with the reason.
pub proof fn starts_are_shown(version: Seq<char>, mode: i32, error: Seq<char>)
    ensures
        ({
            let begun = starting_shown();
            &&& last_flag(begun, FlagField::CoreBusy) == Some(true)
            &&& last_text(begun, TextField::ErrorMessage) == Some(Seq::<char>::empty())
            &&& last_text(begun, TextField::StatusMessage) == Some("Starting Mihomo core…"@)
            &&& last_flag(begun, FlagField::CoreRunning) is None
        }),
        ({
            let shown = running_shown(version, mode);
            &&& last_flag(shown, FlagField::CoreRunning) == Some(true)
            &&& last_text(shown, TextField::ClashVersion) == Some(version)
            &&& last_number(shown, NumberField::ClashModeIndex) == Some(mode)
            &&& last_text(shown, TextField::StatusMessage) == Some("Mihomo core is running"@)
            &&& last_text(shown, TextField::ErrorMessage) is None
        }),
        ({
            let failed = start_failure_shown(error);
            &&& last_flag(failed, FlagField::CoreRunning) == Some(false)
            &&& last_text(failed, TextField::StatusMessage) == Some("Core failed to start"@)
            &&& last_text(failed, TextField::ErrorMessage) == Some(error)
        }),
{
    reveal_with_fuel(last_text, 6);
    reveal_with_fuel(last_flag, 6);
    reveal_with_fuel(last_number, 6);
}

/// A core that was stopped is shown without a version and without rates, and
/// an error only where stopping it failed.
pub proof fn stops_are_shown(failure: Option<Seq<char>>)
    ensures
        ({
            let begun = stopping_shown();
            let shown = stopped_shown(failure);
            &&& last_flag(begun, FlagField::CoreBusy) == Some(true)
            &&& last_text(begun, TextField::StatusMessage) == Some("Stopping Mihomo core…"@)
            &&& last_flag(shown, FlagField::CoreRunning) == Some(false)
            &&& last_flag(shown, FlagField::CoreBusy) == Some(false)
            &&& last_text(shown, TextField::ClashVersion) == Some(Seq::<char>::empty())
            &&& last_text(shown, TextField::TrafficUpload) == Some("—"@)
            &&& last_text(shown, TextField::TrafficDownload) == Some("—"@)
            &&& last_text(shown, TextField::StatusMessage) == Some("Core is stopped"@)
            &&& failure is None ==> last_text(shown, TextField::ErrorMessage) is None
            &&& failure matches Some(error) ==> last_text(shown, TextField::ErrorMessage) == Some(
                "Could not stop Mihomo cleanly: "@ + error,
            )
        }),
{
    reveal_with_fuel(last_text, 8);
    reveal_with_fuel(last_flag, 8);
    let shown = stopped_shown(failure);
    if failure is Some {
        assert(shown.drop_last() =~= stopped_shown(None));
    }
}

/// A new mode is shown once the core took it, and only then.
pub proof fn mode_changes_are_shown(index: i32, mode: Seq<char>, error: Seq<char>)
    ensures
        ({
            let taken = mode_switched_shown(index, mode, None);
            let refused = mode_switched_shown(index, mode, Some(error));
            &&& last_number(taken, NumberField::ClashModeIndex) == Some(index)
            &&& last_text(taken, TextField::StatusMessage) == Some("Proxy mode: "@ + mode)
            &&& last_text(taken, TextField::ErrorMessage) == Some(Seq::<char>::empty())
            &&& last_number(refused, NumberField::ClashModeIndex) is None
            &&& last_text(refused, TextField::StatusMessage) == Some("Mode switch failed"@)
            &&& last_text(refused, TextField::ErrorMessage) == Some(error)
        }),
{
    reveal_with_fuel(last_text, 5);
    reveal_with_fuel(last_number, 5);
}

/// A profile is shown as the active one once it was taken, and only then.
pub proof fn profile_changes_are_shown(profile: Seq<char>, error: Seq<char>)
    ensures
        ({
            let taken = profile_selected_shown(profile, None);
            let refused = profile_selected_shown(profile, Some(error));
            &&& last_text(taken, TextField::ActiveProfile) == Some(profile)
            &&& last_text(taken, TextField::StatusMessage) == Some(
                "Profile “"@ + profile + "” is active"@,
            )
            &&& last_text(taken, TextField::ErrorMessage) == Some(Seq::<char>::empty())
            &&& last_text(refused, TextField::ActiveProfile) is None
            &&& last_text(refused, TextField::StatusMessage) == Some("Profile activation failed"@)
            &&& last_text(refused, TextField::ErrorMessage) == Some(error)
            &&& last_text(reloaded_shown(None), TextField::StatusMessage) == Some(
                "Active profile reloaded"@,
            )
            &&& last_text(reloaded_shown(None), TextField::ErrorMessage) is None
            &&& last_text(reloaded_shown(Some(error)), TextField::StatusMessage) == Some(
                "Profile reload failed"@,
            )
            &&& last_text(reloaded_shown(Some(error)), TextField::ErrorMessage) == Some(error)
        }),
{
    reveal_with_fuel(last_text, 5);
}

/// What is shown of an error is its text, and of the core's work whether it is
/// at it and at what.
pub proof fn messages_are_shown_as_they_are(message: Seq<char>, busy: bool, status: Seq<char>)
    ensures
        last_text(error_shown(message), TextField::ErrorMessage) == Some(message),
        last_text(error_shown(message), TextField::StatusMessage) is None,
        last_flag(busy_shown(busy, status), FlagField::CoreBusy) == Some(busy),
        last_text(busy_shown(busy, status), TextField::StatusMessage) == Some(status),
        last_text(busy_shown(busy, status), TextField::ErrorMessage) is None,
        last_flag(busy_shown(busy, status), FlagField::CoreRunning) is None,
{
    reveal_with_fuel(last_text, 3);
    reveal_with_fuel(last_flag, 3);
}

/// Reloading shows the profiles of the directory. An error in listing them is
/// told and ends it; else a running core is shown at work, and without one
/// only the list was refreshed.
pub proof fn reloads_are_shown(listing: DirectoryListing, directory: Seq<char>, core_runs: bool)
    ensures
        ({
            let shown = reload_shown(listing, directory, core_runs);
            let error = scan_error(listing, directory);
            &&& last_profiles(shown) == last_profiles(scan_shown(listing))
            &&& error matches Some(e) ==> last_text(shown, TextField::ErrorMessage) == Some(e)
                && last_flag(shown, FlagField::CoreBusy) == last_flag(
                scan_shown(listing),
                FlagField::CoreBusy,
            )
            &&& error is None && core_runs ==> last_flag(shown, FlagField::CoreBusy) == Some(true)
                && last_text(shown, TextField::StatusMessage) == Some("Reloading active profile…"@)
            &&& error is None && !core_runs ==> last_text(shown, TextField::StatusMessage) == Some(
                "Profile list refreshed"@,
            ) && last_flag(shown, FlagField::CoreBusy) == last_flag(
                scan_shown(listing),
                FlagField::CoreBusy,
            )
        }),
{
    let first = scan_shown(listing);
    let shown = reload_shown(listing, directory, core_runs);
    let second = shown.skip(first.len() as int);
    assert(shown =~= first + second);
    assert(second.len() == 1 || second.len() == 2);
    reveal_with_fuel(last_text, 3);
    reveal_with_fuel(last_flag, 3);
    reveal_with_fuel(last_profiles, 3);
    later_changes_count(
        first,
        second,
        TextField::ErrorMessage,
        FlagField::CoreBusy,
        NumberField::ClashModeIndex,
    );
    later_changes_count(
        first,
        second,
        TextField::StatusMessage,
        FlagField::CoreBusy,
        NumberField::ClashModeIndex,
    );
}

/// At the start the window shows the settings, the active profile, the
/// profiles of the directory, and that the core is stopped. An error in
/// listing the profiles is told before one in loading the settings.
pub proof fn start_is_shown(
    config: ConfigView,
    load_error: Option<Seq<char>>,
    listing: DirectoryListing,
    directory: Seq<char>,
)
    ensures
        ({
            let shown = initial_shown(config, load_error, listing, directory);
            let scan = scan_error(listing, directory);
            &&& last_profiles(shown) == last_profiles(scan_shown(listing))
            &&& last_text(shown, TextField::ActiveProfile) == Some(
                text_or_empty(config.active_profile),
            )
            &&& last_text(shown, TextField::StatusMessage) == Some("Core is stopped"@)
            &&& last_text(shown, TextField::SettingBinaryPath) == Some(
                text_or_empty(config.clash_binary_path),
            )
            &&& last_text(shown, TextField::SettingConfigDir) == Some(
                text_or_empty(config.config_dir),
            )
            &&& last_text(shown, TextField::SettingApiSecret) == Some(
                text_or_empty(config.api_secret),
            )
            &&& last_text(shown, TextField::SettingApiPortText) == Some(
                decimal(config.api_port as nat),
            )
            &&& last_number(shown, NumberField::SettingApiPort) == Some(config.api_port as i32)
            &&& scan matches Some(e) ==> last_text(shown, TextField::ErrorMessage) == Some(e)
            &&& scan is None && load_error is Some ==> last_text(shown, TextField::ErrorMessage)
                == load_error
            &&& scan is None && load_error is None ==> last_text(shown, TextField::ErrorMessage)
                is None
        }),
{
    let settings = settings_shown(config);
    let state = seq![
        UpdateView::Text(TextField::ActiveProfile, text_or_empty(config.active_profile)),
        UpdateView::Text(TextField::StatusMessage, "Core is stopped"@),
    ];
    let scan = scan_shown(listing);
    let error = match scan_error(listing, directory) {
        Some(e) => error_shown(e),
        None => match load_error {
            Some(e) => error_shown(e),
            None => Seq::empty(),
        },
    };
    let shown = initial_shown(config, load_error, listing, directory);
    assert(shown =~= settings + state + scan + error);
    settings_are_shown_as_they_are(config);
    reveal_with_fuel(last_text, 3);
    reveal_with_fuel(last_flag, 3);
    reveal_with_fuel(last_profiles, 3);
    reveal_with_fuel(last_number, 3);
    start_field(settings, state, scan, error, TextField::ActiveProfile);
    start_field(settings, state, scan, error, TextField::StatusMessage);
    start_field(settings, state, scan, error, TextField::SettingBinaryPath);
    start_field(settings, state, scan, error, TextField::SettingConfigDir);
    start_field(settings, state, scan, error, TextField::SettingApiSecret);
    start_field(settings, state, scan, error, TextField::SettingApiPortText);
    start_field(settings, state, scan, error, TextField::ErrorMessage);
}

proof fn start_field(
    a: Seq<UpdateView>,
    b: Seq<UpdateView>,
    c: Seq<UpdateView>,
    d: Seq<UpdateView>,
    field: TextField,
)
    ensures
        last_text(a + b + c + d, field) == (match last_text(d, field) {
            Some(shown) => Some(shown),
            None => match last_text(c, field) {
                Some(shown) => Some(shown),
                None => match last_text(b, field) {
                    Some(shown) => Some(shown),
                    None => last_text(a, field),
                },
            },
        }),
        last_profiles(a + b + c + d) == (match last_profiles(d) {
            Some(shown) => Some(shown),
            None => match last_profiles(c) {
                Some(shown) => Some(shown),
                None => match last_profiles(b) {
                    Some(shown) => Some(shown),
                    None => last_profiles(a),
                },
            },
        }),
        last_number(a + b + c + d, NumberField::SettingApiPort) == (match last_number(
            d,
            NumberField::SettingApiPort,
        ) {
            Some(shown) => Some(shown),
            None => match last_number(c, NumberField::SettingApiPort) {
                Some(shown) => Some(shown),
                None => match last_number(b, NumberField::SettingApiPort) {
                    Some(shown) => Some(shown),
                    None => last_number(a, NumberField::SettingApiPort),
                },
            },
        }),
{
    let flag = FlagField::CoreBusy;
    let number = NumberField::SettingApiPort;
    later_changes_count(a, b, field, flag, number);
    later_changes_count(a + b, c, field, flag, number);
    later_changes_count(a + b + c, d, field, flag, number);
}

/// The window changes in as many places as there is something to tell, and in
/// no others.
pub proof fn nothing_more_is_shown(
    version: Seq<char>,
    mode: i32,
    name: Seq<char>,
    error: Seq<char>,
    busy: bool,
)
    ensures
        starting_shown().len() == 3,
        running_shown(version, mode).len() == 5,
        start_failure_shown(error).len() == 4,
        stopping_shown().len() == 2,
        stopped_shown(None).len() == 6,
        stopped_shown(Some(error)).len() == 7,
        mode_switched_shown(mode, name, None).len() == 4,
        mode_switched_shown(mode, name, Some(error)).len() == 3,
        profile_selected_shown(name, None).len() == 4,
        profile_selected_shown(name, Some(error)).len() == 3,
        reloaded_shown(None).len() == 2,
        reloaded_shown(Some(error)).len() == 3,
        busy_shown(busy, name).len() == 2,
        error_shown(error).len() == 1,
{
}

/// The same holds where the profiles are listed: besides the list, one or two
/// places when reloading, and the settings, the profile, the status and at
/// most one error at the start.
pub proof fn nothing_more_is_shown_with_a_list(
    listing: DirectoryListing,
    directory: Seq<char>,
    config: ConfigView,
    load_error: Option<Seq<char>>,
    core_runs: bool,
)
    ensures
        scan_shown(listing).len() == 2,
        reload_shown(listing, directory, core_runs).len() == (if scan_error(listing, directory)
            is None && core_runs {
            4int
        } else {
            3
        }),
        initial_shown(config, load_error, listing, directory).len() == (if scan_error(
            listing,
            directory,
        ) is Some || load_error is Some {
            10int
        } else {
            9
        }),
{
}

} // verus!
