//! The core as a process of its own.
use vstd::prelude::*;
use vstd::string::*;

use crate::path::{may_require_file, path_requires_file, Location, LocationView};
use crate::text::{join2, join3};

verus! {

/// The core's process, if it runs, and what it is started with. `C` is the
/// handle of a running process.
#[derive(Debug)]
pub struct SidecarManager<C> {
    child: Option<C>,
    binary_path: String,
    work_dir: Location,
    config_path: Location,
}

/// The model of `SidecarManager`.
pub struct SidecarView<C> {
    pub child: Option<C>,
    pub binary_path: Seq<char>,
    pub work_dir: LocationView,
    pub config_path: LocationView,
}

impl<C> View for SidecarManager<C> {
    type V = SidecarView<C>;

    closed spec fn view(&self) -> SidecarView<C> {
        SidecarView {
            child: self.child,
            binary_path: self.binary_path@,
            work_dir: self.work_dir@,
            config_path: self.config_path@,
        }
    }
}

/// What is on disk when the core is to be started, and how the places are
/// shown to the user.
#[derive(Debug)]
pub struct StartProbe {
    pub work_dir_is_dir: bool,
    pub work_dir_text: String,
    pub config_is_file: bool,
    pub config_text: String,
    pub binary_is_file: bool,
}

/// An argument of the core's command line.
#[derive(Debug, PartialEq, Eq)]
pub enum Argument {
    /// The given text.
    Text(String),
    /// The directory that the core works in.
    WorkDir,
    /// The file that the core reads.
    ConfigPath,
}

/// The model of `Argument`.
pub enum ArgumentView {
    Text(Seq<char>),
    WorkDir,
    ConfigPath,
}

impl View for Argument {
    type V = ArgumentView;

    open spec fn view(&self) -> ArgumentView {
        match *self {
            Argument::Text(text) => ArgumentView::Text(text@),
            Argument::WorkDir => ArgumentView::WorkDir,
            Argument::ConfigPath => ArgumentView::ConfigPath,
        }
    }
}

/// The core's command line: it works in its directory, without input or
/// output.
#[derive(Debug, PartialEq, Eq)]
pub struct Launch {
    pub program: String,
    pub arguments: Vec<Argument>,
}

/// The arguments that the core is started with.
pub open spec fn launch_arguments() -> Seq<ArgumentView> {
    seq![
        ArgumentView::Text("-d"@),
        ArgumentView::WorkDir,
        ArgumentView::Text("-f"@),
        ArgumentView::ConfigPath,
    ]
}

/// Why the core is not started.
#[derive(Debug, PartialEq, Eq)]
pub enum SidecarError {
    /// It runs already.
    AlreadyRunning,
    /// The directory is missing.
    NoDirectory(String),
    /// The configuration file is missing.
    NoConfig(String),
    /// The program is missing.
    NoBinary(String),
    /// The system did not start the program, for the given reason.
    NotSpawned { binary: String, reason: String },
}

/// The model of `SidecarError`.
pub enum SidecarErrorView {
    AlreadyRunning,
    NoDirectory(Seq<char>),
    NoConfig(Seq<char>),
    NoBinary(Seq<char>),
    NotSpawned { binary: Seq<char>, reason: Seq<char> },
}

impl View for SidecarError {
    type V = SidecarErrorView;

    open spec fn view(&self) -> SidecarErrorView {
        match *self {
            SidecarError::AlreadyRunning => SidecarErrorView::AlreadyRunning,
            SidecarError::NoDirectory(text) => SidecarErrorView::NoDirectory(text@),
            SidecarError::NoConfig(text) => SidecarErrorView::NoConfig(text@),
            SidecarError::NoBinary(text) => SidecarErrorView::NoBinary(text@),
            SidecarError::NotSpawned { binary, reason } => SidecarErrorView::NotSpawned {
                binary: binary@,
                reason: reason@,
            },
        }
    }
}

impl SidecarErrorView {
    /// The error in words.
    pub open spec fn text(self) -> Seq<char> {
        match self {
            SidecarErrorView::AlreadyRunning => "Mihomo core is already running"@,
            SidecarErrorView::NoDirectory(text) => "Configuration directory does not exist: "@
                + text,
            SidecarErrorView::NoConfig(text) => "Configuration file does not exist: "@ + text,
            SidecarErrorView::NoBinary(text) => "Mihomo binary does not exist: "@ + text,
            SidecarErrorView::NotSpawned { binary, reason } => "Failed to start Mihomo binary '"@
                + binary + "': "@ + reason,
        }
    }
}

impl SidecarError {
    /// The error in words.
    pub fn message(&self) -> (text: String)
        ensures
            text@ == self@.text(),
    {
        match self {
            SidecarError::AlreadyRunning => "Mihomo core is already running".to_owned(),
            SidecarError::NoDirectory(text) => join2(
                "Configuration directory does not exist: ",
                text.as_str(),
            ),
            SidecarError::NoConfig(text) => join2(
                "Configuration file does not exist: ",
                text.as_str(),
            ),
            SidecarError::NoBinary(text) => join2(
                "Mihomo binary does not exist: ",
                text.as_str(),
            ),
            SidecarError::NotSpawned { binary, reason } => join3(
                "Failed to start Mihomo binary '",
                binary.as_str(),
                "': ",
            ).concat(reason.as_str()),
        }
    }
}

/// What keeps the core from being started, if anything does; the first of the
/// reasons counts. `needs_file` says whether its program has to exist as a
/// file.
pub open spec fn start_check(
    running: bool,
    probe: StartProbe,
    binary: Seq<char>,
    needs_file: bool,
) -> Option<SidecarErrorView> {
    if running {
        Some(SidecarErrorView::AlreadyRunning)
    } else if !probe.work_dir_is_dir {
        Some(SidecarErrorView::NoDirectory(probe.work_dir_text@))
    } else if !probe.config_is_file {
        Some(SidecarErrorView::NoConfig(probe.config_text@))
    } else if needs_file && !probe.binary_is_file {
        Some(SidecarErrorView::NoBinary(binary))
    } else {
        None
    }
}

/// Whether the given program path has to exist as a file before it is started.
pub fn path_requires_existence_check(path: &str) -> (required: bool)
    ensures
        may_require_file(path@, required),
{
    path_requires_file(path)
}

/// What has to be done to end a process.
#[derive(Debug, Clone, Copy, PartialEq, Eq, Structural)]
pub enum StopAction {
    Kill,
    Wait,
}

/// What has to be done to end a process, given whether it has ended by itself:
/// it is killed if it has not, and waited for in any case.
pub fn stop_actions(exited: bool) -> (actions: Vec<StopAction>)
    ensures
        actions@ == (if exited {
            seq![StopAction::Wait]
        } else {
            seq![StopAction::Kill, StopAction::Wait]
        }),
{
    let mut actions: Vec<StopAction> = Vec::new();
    if !exited {
        actions.push(StopAction::Kill);
    }
    actions.push(StopAction::Wait);
    assert(actions@ =~= (if exited {
        seq![StopAction::Wait]
    } else {
        seq![StopAction::Kill, StopAction::Wait]
    }));
    actions
}

impl<C> SidecarManager<C> {
    /// The core with the given program, directory and configuration file. It
    /// does not run yet.
    pub fn new(binary_path: String, work_dir: Location, config_path: Location) -> (sidecar: Self)
        ensures
            sidecar@ == (SidecarView::<C> {
                child: None,
                binary_path: binary_path@,
                work_dir: work_dir@,
                config_path: config_path@,
            }),
    {
        SidecarManager { child: None, binary_path, work_dir, config_path }
    }

    /// The core's program.
    pub fn binary_path(&self) -> (path: &str)
        ensures
            path@ == self@.binary_path,
    {
        self.binary_path.as_str()
    }

    /// The directory that the core works in.
    pub fn work_dir(&self) -> (place: &Location)
        ensures
            place@ == self@.work_dir,
    {
        &self.work_dir
    }

    /// The file that the core reads.
    pub fn config_path(&self) -> (place: &Location)
        ensures
            place@ == self@.config_path,
    {
        &self.config_path
    }

    /// The command line to start the core with, given whether its program has
    /// to exist as a file.
    pub fn prepare_start(&self, probe: &StartProbe, needs_file: bool) -> (launch: Result<
        Launch,
        SidecarError,
    >)
        ensures
            launch is Ok <==> start_check(
                self@.child is Some,
                *probe,
                self@.binary_path,
                needs_file,
            ) is None,
            launch matches Err(e) ==> start_check(
                self@.child is Some,
                *probe,
                self@.binary_path,
                needs_file,
            ) == Some(e@),
            launch matches Ok(l) ==> l.program@ == self@.binary_path && l.arguments@.map_values(
                |a: Argument| a@,
            ) == launch_arguments(),
    {
        if self.child.is_some() {
            return Err(SidecarError::AlreadyRunning);
        }
        if !probe.work_dir_is_dir {
            return Err(SidecarError::NoDirectory(probe.work_dir_text.as_str().to_owned()));
        }
        if !probe.config_is_file {
            return Err(SidecarError::NoConfig(probe.config_text.as_str().to_owned()));
        }
        if needs_file && !probe.binary_is_file {
            return Err(SidecarError::NoBinary(self.binary_path.as_str().to_owned()));
        }
        let mut arguments: Vec<Argument> = Vec::new();
        arguments.push(Argument::Text("-d".to_owned()));
        arguments.push(Argument::WorkDir);
        arguments.push(Argument::Text("-f".to_owned()));
        arguments.push(Argument::ConfigPath);
        assert(arguments@.map_values(|a: Argument| a@) =~= launch_arguments());
        Ok(Launch { program: self.binary_path.as_str().to_owned(), arguments })
    }

    /// The command line to start the core with, unless it runs already or
    /// something that it needs is missing.
    pub fn start(&self, probe: &StartProbe) -> (launch: Result<Launch, SidecarError>)
        ensures
            exists|needs_file: bool|
                may_require_file(self@.binary_path, needs_file) && (match launch {
                    Err(e) => #[trigger] start_check(
                        self@.child is Some,
                        *probe,
                        self@.binary_path,
                        needs_file,
                    ) == Some(e@),
                    Ok(_) => start_check(
                        self@.child is Some,
                        *probe,
                        self@.binary_path,
                        needs_file,
                    ) is None,
                }),
            launch matches Ok(l) ==> l.program@ == self@.binary_path && l.arguments@.map_values(
                |a: Argument| a@,
            ) == launch_arguments(),
    {
        let needs_file = path_requires_existence_check(self.binary_path.as_str());
        self.prepare_start(probe, needs_file)
    }

    /// Notes what became of the command line: the process, or the reason why
    /// the system did not start it.
    pub fn finish_start(&mut self, spawned: Result<C, String>) -> (outcome: Result<
        (),
        SidecarError,
    >)
        ensures
            outcome is Ok <==> spawned is Ok,
            outcome matches Err(e) ==> e@ == (SidecarErrorView::NotSpawned {
                binary: old(self)@.binary_path,
                reason: spawned->Err_0@,
            }),
            final(self)@ == (SidecarView {
                child: match spawned {
                    Ok(child) => Some(child),
                    Err(_) => old(self)@.child,
                },
                ..old(self)@
            }),
    {
        match spawned {
            Ok(child) => {
                self.child = Some(child);
                Ok(())
            },
            Err(reason) => Err(
                SidecarError::NotSpawned {
                    binary: self.binary_path.as_str().to_owned(),
                    reason,
                },
            ),
        }
    }

    /// Gives up the process, to be ended if there is one.
    pub fn stop(&mut self) -> (child: Option<C>)
        ensures
            child == old(self)@.child,
            final(self)@ == (SidecarView { child: None, ..old(self)@ }),
    {
        self.child.take()
    }

    /// The process, if the core runs.
    pub fn child_mut(&mut self) -> (child: Option<&mut C>)
        ensures
            child is Some <==> old(self)@.child is Some,
            child matches Some(c) ==> *c == old(self)@.child->0 && final(self)@ == (SidecarView {
                child: Some(*final(c)),
                ..old(self)@
            }),
            child is None ==> final(self)@ == old(self)@,
    {
        match &mut self.child {
            Some(c) => Some(c),
            None => None,
        }
    }

    /// Notes whether the process has ended, and how. Without a process nothing
    /// has; one that has ended is forgotten.
    pub fn try_wait<S>(&mut self, status: Option<S>) -> (ended: Option<S>)
        ensures
            ended == (if old(self)@.child is Some {
                status
            } else {
                None
            }),
            final(self)@ == (SidecarView {
                child: if status is Some {
                    None
                } else {
                    old(self)@.child
                },
                ..old(self)@
            }),
    {
        if self.child.is_none() {
            return None;
        }
        if status.is_some() {
            self.child = None;
        }
        status
    }
}

/// Whatever keeps the core from being started, it is not started twice, and
/// not where its directory or its configuration file is missing.
pub proof fn nothing_starts_without_its_files(
    running: bool,
    probe: StartProbe,
    binary: Seq<char>,
    needs_file: bool,
)
    ensures
        start_check(running, probe, binary, needs_file) is None <==> !running
            && probe.work_dir_is_dir && probe.config_is_file && (needs_file
            ==> probe.binary_is_file),
{
}

/// What keeps the core from being started is told in this order: that it runs,
/// that its directory is missing, its file, its program. The place or the
/// program that is missing is named.
pub proof fn first_missing_thing_is_told(
    running: bool,
    probe: StartProbe,
    binary: Seq<char>,
    needs_file: bool,
)
    ensures
        ({
            let told = start_check(running, probe, binary, needs_file);
            &&& running ==> told == Some(SidecarErrorView::AlreadyRunning)
            &&& !running && !probe.work_dir_is_dir ==> told == Some(
                SidecarErrorView::NoDirectory(probe.work_dir_text@),
            )
            &&& !running && probe.work_dir_is_dir && !probe.config_is_file ==> told == Some(
                SidecarErrorView::NoConfig(probe.config_text@),
            )
            &&& !running && probe.work_dir_is_dir && probe.config_is_file && needs_file
                && !probe.binary_is_file ==> told == Some(SidecarErrorView::NoBinary(binary))
            &&& !running && probe.work_dir_is_dir && probe.config_is_file && (!needs_file
                || probe.binary_is_file) ==> told is None
        }),
{
}

/// The core is started with its directory behind `-d` and its file behind
/// `-f`, and with nothing else.
pub proof fn core_gets_its_places()
    ensures
        launch_arguments().len() == 4,
        launch_arguments()[0] == ArgumentView::Text("-d"@),
        launch_arguments()[1] is WorkDir,
        launch_arguments()[2] == ArgumentView::Text("-f"@),
        launch_arguments()[3] is ConfigPath,
{
}

/// An error names what it is about.
pub proof fn start_errors_name_their_cause(name: Seq<char>, reason: Seq<char>)
    ensures
        SidecarErrorView::NoDirectory(name).text() == "Configuration directory does not exist: "@
            + name,
        SidecarErrorView::NoConfig(name).text() == "Configuration file does not exist: "@ + name,
        SidecarErrorView::NoBinary(name).text() == "Mihomo binary does not exist: "@ + name,
        (SidecarErrorView::NotSpawned { binary: name, reason }).text()
            == "Failed to start Mihomo binary '"@ + name + "': "@ + reason,
{
}

/// The models of an error and of an argument hold what those do.
pub proof fn core_models_are_faithful(error: SidecarError, argument: Argument)
    ensures
        error is AlreadyRunning <==> error@ is AlreadyRunning,
        error matches SidecarError::NoDirectory(text) ==> error@ == SidecarErrorView::NoDirectory(
            text@,
        ),
        error matches SidecarError::NoConfig(text) ==> error@ == SidecarErrorView::NoConfig(text@),
        error matches SidecarError::NoBinary(text) ==> error@ == SidecarErrorView::NoBinary(text@),
        error matches SidecarError::NotSpawned { binary, reason } ==> error@ == (
        SidecarErrorView::NotSpawned { binary: binary@, reason: reason@ }),
        argument matches Argument::Text(text) ==> argument@ == ArgumentView::Text(text@),
        argument is WorkDir <==> argument@ is WorkDir,
        argument is ConfigPath <==> argument@ is ConfigPath,
{
}

} // verus!
