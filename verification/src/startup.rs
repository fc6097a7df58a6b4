//! A start of the core, from its first step until it answers.
use std::path::PathBuf;
use vstd::prelude::*;
use vstd::string::*;

use crate::api::{
    addresses_have_no_end_slash, ApiRequest, ClashApi, ClashApiView, Method, Version,
};
use crate::config::{
    binary_candidates, default_binary, default_program_is_there, Config, ConfigView,
};
use crate::number::{decimal, decimal_reads_back, is_digit};
use crate::sidecar::SidecarManager;
use crate::text::{copy_opt, join2, opt_text, texts};

verus! {

/// How often the core is asked before it is given up.
pub const MAX_PROBES: u32 = 20;

/// How long to wait after the core did not answer, in milliseconds.
pub const PROBE_PAUSE_MS: u64 = 250;

/// A start that is under way; the core was not launched yet.
#[derive(Debug)]
pub struct Startup {
    config: Config,
    generation: u64,
}

/// The model of `Startup`: the settings it goes by, and the generation that it
/// belongs to.
pub struct StartupView {
    pub config: ConfigView,
    pub generation: u64,
}

impl View for Startup {
    type V = StartupView;

    closed spec fn view(&self) -> StartupView {
        StartupView { config: self.config@, generation: self.generation }
    }
}

/// A core that was launched and is to be asked whether it answers.
#[derive(Debug)]
pub struct Readiness {
    generation: u64,
    api: ClashApi,
    failures: u32,
}

/// The model of `Readiness`.
#[verifier::ext_equal]
pub struct ReadinessView {
    pub generation: u64,
    pub api: ClashApiView,
    /// How often the core did not answer.
    pub failures: nat,
}

impl View for Readiness {
    type V = ReadinessView;

    closed spec fn view(&self) -> ReadinessView {
        ReadinessView {
            generation: self.generation,
            api: self.api@,
            failures: self.failures as nat,
        }
    }
}

/// A core that did not answer, until the next time that it is asked.
#[derive(Debug)]
pub struct Pause {
    generation: u64,
    api: ClashApi,
    failures: u32,
    last_error: String,
}

/// The model of `Pause`.
#[verifier::ext_equal]
pub struct PauseView {
    /// The core, with the failures up to now.
    pub readiness: ReadinessView,
    /// Why the core did not answer.
    pub last_error: Seq<char>,
}

impl View for Pause {
    type V = PauseView;

    closed spec fn view(&self) -> PauseView {
        PauseView {
            readiness: ReadinessView {
                generation: self.generation,
                api: self.api@,
                failures: self.failures as nat,
            },
            last_error: self.last_error@,
        }
    }
}

/// A core that answers.
#[derive(Debug)]
pub struct ReadyCore {
    generation: u64,
    api: ClashApi,
    version: String,
}

/// The model of `ReadyCore`.
#[verifier::ext_equal]
pub struct ReadyView {
    pub generation: u64,
    pub api: ClashApiView,
    pub version: Seq<char>,
}

impl View for ReadyCore {
    type V = ReadyView;

    closed spec fn view(&self) -> ReadyView {
        ReadyView { generation: self.generation, api: self.api@, version: self.version@ }
    }
}

/// What came of asking the core.
#[derive(Debug)]
pub enum Probe {
    Ready(ReadyCore),
    Waiting(Pause),
}

/// The model of `Probe`.
pub enum ProbeView {
    Ready(ReadyView),
    Waiting(PauseView),
}

impl View for Probe {
    type V = ProbeView;

    open spec fn view(&self) -> ProbeView {
        match *self {
            Probe::Ready(core) => ProbeView::Ready(core@),
            Probe::Waiting(pause) => ProbeView::Waiting(pause@),
        }
    }
}

/// The model of the core's answer: its version, if it tells one, or why there
/// was no answer.
pub open spec fn answer_view(answer: Result<Version, String>) -> Result<
    Option<Seq<char>>,
    Seq<char>,
> {
    match answer {
        Ok(version) => Ok(opt_text(version.version)),
        Err(error) => Err(error@),
    }
}

impl ReadinessView {
    /// What comes of an answer. A core without a version counts as unknown.
    pub open spec fn answered(self, answer: Result<Option<Seq<char>>, Seq<char>>) -> ProbeView {
        match answer {
            Ok(version) => ProbeView::Ready(
                ReadyView {
                    generation: self.generation,
                    api: self.api,
                    version: shown_version(version),
                },
            ),
            Err(error) => ProbeView::Waiting(
                PauseView {
                    readiness: ReadinessView { failures: self.failures + 1, ..self },
                    last_error: error,
                },
            ),
        }
    }
}

impl PauseView {
    /// What comes after the pause: the core is asked once more, or given up
    /// with the last of the errors.
    pub open spec fn waited(self) -> Result<ReadinessView, Seq<char>> {
        if self.readiness.failures < MAX_PROBES {
            Ok(self.readiness)
        } else {
            Err(not_ready(self.last_error))
        }
    }
}

impl ConfigView {
    /// The core's control interface.
    pub open spec fn interface(self) -> ClashApiView {
        ClashApiView::at(
            "http://127.0.0.1:"@ + decimal(self.api_port as nat),
            self.api_secret,
        )
    }

    /// The core's program. `files` are the candidates that are files in the
    /// current directory.
    pub open spec fn program(self, windows: bool, files: Seq<Seq<char>>) -> Seq<char> {
        match self.clash_binary_path {
            Some(chosen) => chosen,
            None => default_binary(windows, files),
        }
    }
}

/// What is shown where the core could not be launched: the reason, where one
/// was given, or that the launch broke off.
pub open spec fn launch_failure(outcome: Result<Result<(), String>, String>) -> Option<Seq<char>> {
    match outcome {
        Ok(Ok(())) => None,
        Ok(Err(reason)) => Some(reason@),
        Err(reason) => Some("Mihomo start task failed unexpectedly: "@ + reason@),
    }
}

/// What is shown where the core was given up.
pub open spec fn not_ready(last_error: Seq<char>) -> Seq<char> {
    "Mihomo started but its API did not become ready: "@ + last_error
}

/// The version that is shown for what the core answered.
pub open spec fn shown_version(version: Option<Seq<char>>) -> Seq<char> {
    match version {
        Some(text) => text,
        None => "unknown"@,
    }
}

impl Startup {
    /// A start with the given settings, in the given generation.
    pub fn new(config: Config, generation: u64) -> (startup: Startup)
        ensures
            startup@ == (StartupView { config: config@, generation }),
    {
        Startup { config, generation }
    }

    /// The settings it goes by.
    pub fn config(&self) -> (config: &Config)
        ensures
            config@ == self@.config,
    {
        &self.config
    }

    /// The core as it is to be launched. `binaries` are the candidates for its
    /// program that are files in the current directory, `files` those for the
    /// active profile that are files in the directory of the profiles.
    pub fn sidecar<C>(
        &self,
        windows: bool,
        binaries: &Vec<String>,
        files: &Vec<String>,
    ) -> (sidecar: SidecarManager<C>)
        ensures
            sidecar@.child is None,
            sidecar@.binary_path == self@.config.program(windows, texts(binaries@)),
            exists|platform: Option<PathBuf>|
                sidecar@.work_dir == self@.config.directory(platform)
                    && #[trigger] self@.config.reads_from(
                    sidecar@.config_path,
                    texts(files@),
                    platform,
                ),
    {
        let program = self.config.clash_binary(windows, binaries);
        let work_dir = self.config.config_dir();
        let ghost platform = choose|platform: Option<PathBuf>|
            work_dir@ == #[trigger] self@.config.directory(platform);
        let config_path = self.config.active_config_path_at(work_dir.clone(), files);
        assert(self@.config.reads_from(config_path@, texts(files@), platform));
        SidecarManager::new(program, work_dir, config_path)
    }

    /// Goes on once the core was launched, or ends with what is shown where it
    /// was not. The outer error is that of a launch that broke off.
    pub fn launched(self, outcome: Result<Result<(), String>, String>) -> (next: Result<
        Readiness,
        String,
    >)
        ensures
            next is Ok <==> launch_failure(outcome) is None,
            next matches Ok(readiness) ==> readiness@ == (ReadinessView {
                generation: self@.generation,
                api: self@.config.interface(),
                failures: 0,
            }),
            next matches Err(message) ==> launch_failure(outcome) == Some(message@),
    {
        match outcome {
            Ok(Ok(())) => {
                let api = ClashApi::new(self.config.api_url(), copy_opt(&self.config.api_secret));
                Ok(Readiness { generation: self.generation, api, failures: 0 })
            },
            Ok(Err(reason)) => Err(reason),
            Err(reason) => Err(
                join2("Mihomo start task failed unexpectedly: ", reason.as_str()),
            ),
        }
    }
}

impl Readiness {
    #[verifier::type_invariant]
    spec fn inv(self) -> bool {
        self.failures < MAX_PROBES
    }

    /// The request that the core is asked with.
    pub fn probe(&self) -> (request: ApiRequest)
        ensures
            request@ == self@.api.request(Method::Get, "/version"@, 5000),
    {
        self.api.version()
    }

    /// Notes the core's answer, or why there was none. A core without a
    /// version counts as unknown.
    pub fn answered(self, answer: Result<Version, String>) -> (probe: Probe)
        ensures
            probe@ == self@.answered(answer_view(answer)),
    {
        match answer {
            Ok(version) => {
                let text = match version.version {
                    Some(text) => text,
                    None => "unknown".to_owned(),
                };
                Probe::Ready(
                    ReadyCore { generation: self.generation, api: self.api, version: text },
                )
            },
            Err(error) => {
                proof {
                    use_type_invariant(&self);
                }
                Probe::Waiting(
                    Pause {
                        generation: self.generation,
                        api: self.api,
                        failures: self.failures + 1,
                        last_error: error,
                    },
                )
            },
        }
    }
}

impl Pause {
    /// Goes on after the pause: the core is asked once more, or given up with
    /// the last of the errors.
    pub fn waited(self) -> (next: Result<Readiness, String>)
        ensures
            match next {
                Ok(readiness) => self@.waited() == Ok::<ReadinessView, Seq<char>>(readiness@),
                Err(message) => self@.waited() == Err::<ReadinessView, Seq<char>>(message@),
            },
    {
        if self.failures < MAX_PROBES {
            Ok(
                Readiness {
                    generation: self.generation,
                    api: self.api,
                    failures: self.failures,
                },
            )
        } else {
            Err(
                join2(
                    "Mihomo started but its API did not become ready: ",
                    self.last_error.as_str(),
                ),
            )
        }
    }
}

impl ReadyCore {
    /// The request for the mode that the core runs in.
    pub fn mode_request(&self) -> (request: ApiRequest)
        ensures
            request@ == self@.api.request(Method::Get, "/configs"@, 5000),
    {
        self.api.runtime_config()
    }

    /// The generation that the start belongs to.
    pub fn generation(&self) -> (generation: u64)
        ensures
            generation == self@.generation,
    {
        self.generation
    }

    /// The core's control interface and its version.
    pub fn into_parts(self) -> (parts: (ClashApi, String))
        ensures
            parts.0@ == self@.api,
            parts.1@ == self@.version,
    {
        (self.api, self.version)
    }
}

/// How asking the core comes out.
pub enum PollView {
    /// It answered.
    Ready(ReadyView),
    /// It was given up, with the given message.
    GivenUp(Seq<char>),
    /// It is to be asked once more.
    Asking(ReadinessView),
}

/// How asking the core comes out, where it gives these answers one after the
/// other.
pub open spec fn poll(
    readiness: ReadinessView,
    answers: Seq<Result<Option<Seq<char>>, Seq<char>>>,
) -> PollView
    decreases answers.len(),
{
    if answers.len() == 0 {
        PollView::Asking(readiness)
    } else {
        match readiness.answered(answers[0]) {
            ProbeView::Ready(core) => PollView::Ready(core),
            ProbeView::Waiting(pause) => match pause.waited() {
                Ok(next) => poll(next, answers.drop_first()),
                Err(message) => PollView::GivenUp(message),
            },
        }
    }
}

proof fn poll_passes_failures(
    readiness: ReadinessView,
    answers: Seq<Result<Option<Seq<char>>, Seq<char>>>,
    n: nat,
)
    requires
        n <= answers.len(),
        readiness.failures + n < MAX_PROBES,
        forall|i: int| 0 <= i < n ==> (#[trigger] answers[i]) is Err,
    ensures
        poll(readiness, answers) == poll(
            ReadinessView { failures: readiness.failures + n, ..readiness },
            answers.skip(n as int),
        ),
    decreases n,
{
    if n == 0 {
        assert(answers.skip(0) =~= answers);
    } else {
        assert(answers[0] is Err);
        let rest = answers.drop_first();
        assert forall|i: int| 0 <= i < n - 1 implies (#[trigger] rest[i]) is Err by {
            assert(rest[i] == answers[i + 1]);
        }
        let next = ReadinessView { failures: readiness.failures + 1, ..readiness };
        poll_passes_failures(next, rest, (n - 1) as nat);
        assert(rest.skip(n - 1) =~= answers.skip(n as int));
    }
}

/// The first answer of a core that was just launched decides, if it comes
/// within the allowed number of tries.
pub proof fn first_answer_counts(
    readiness: ReadinessView,
    answers: Seq<Result<Option<Seq<char>>, Seq<char>>>,
    n: nat,
)
    requires
        readiness.failures == 0,
        n < answers.len(),
        n < MAX_PROBES,
        forall|i: int| 0 <= i < n ==> (#[trigger] answers[i]) is Err,
        answers[n as int] is Ok,
    ensures
        poll(readiness, answers) == PollView::Ready(
            ReadyView {
                generation: readiness.generation,
                api: readiness.api,
                version: shown_version(answers[n as int]->Ok_0),
            },
        ),
{
    poll_passes_failures(readiness, answers, n);
    assert(answers.skip(n as int)[0] == answers[n as int]);
}

/// A core that was just launched and does not answer is given up after the
/// allowed number of tries and not before, and the last error is told.
pub proof fn silent_core_is_given_up(
    readiness: ReadinessView,
    answers: Seq<Result<Option<Seq<char>>, Seq<char>>>,
)
    requires
        readiness.failures == 0,
        forall|i: int| 0 <= i < answers.len() ==> (#[trigger] answers[i]) is Err,
    ensures
        answers.len() < MAX_PROBES ==> poll(readiness, answers) is Asking,
        answers.len() >= MAX_PROBES ==> poll(readiness, answers) == PollView::GivenUp(
            not_ready(answers[MAX_PROBES - 1]->Err_0),
        ),
{
    if answers.len() < MAX_PROBES {
        poll_passes_failures(readiness, answers, answers.len());
    } else {
        let n = (MAX_PROBES - 1) as nat;
        poll_passes_failures(readiness, answers, n);
        assert(answers.skip(n as int)[0] == answers[n as int]);
    }
}

/// The core is asked at its port on this machine, with the secret of the
/// settings as it is, if there is one.
pub proof fn core_is_asked_at_its_port(config: ConfigView)
    ensures
        config.interface().base_url == "http://127.0.0.1:"@ + decimal(config.api_port as nat),
        config.api_secret matches Some(secret) ==> (secret.len() > 0
            ==> config.interface().secret == Some(secret)),
        config.api_secret matches Some(secret) ==> (secret.len() == 0
            ==> config.interface().secret is None),
        config.api_secret is None ==> config.interface().secret is None,
{
    let url = "http://127.0.0.1:"@ + decimal(config.api_port as nat);
    decimal_reads_back(config.api_port as nat);
    let digits = decimal(config.api_port as nat);
    assert(url.last() == digits[digits.len() - 1]);
    assert(is_digit(digits[digits.len() - 1]));
    addresses_have_no_end_slash(url, config.api_secret);
    let kept = config.interface().base_url;
    if kept.len() < url.len() {
        assert(url[url.len() - 1] == '/');
    }
    assert(url.take(url.len() as int) =~= url);
}

/// The program that is launched is the chosen one; without one it is the first
/// of the usual ones that is there.
pub proof fn chosen_program_is_launched(config: ConfigView, windows: bool, files: Seq<Seq<char>>)
    ensures
        config.clash_binary_path matches Some(chosen) ==> config.program(windows, files) == chosen,
        config.clash_binary_path is None && files.contains(binary_candidates(windows)[0])
            ==> config.program(windows, files) == binary_candidates(windows)[0],
        config.clash_binary_path is None && (exists|i: int|
            0 <= i < 3 && files.contains(#[trigger] binary_candidates(windows)[i]))
            ==> files.contains(config.program(windows, files)),
{
    default_program_is_there(windows, files, 0);
    default_program_is_there(windows, files, 1);
    default_program_is_there(windows, files, 2);
}

/// A launch fails just where it broke off or the core could not be started,
/// and the reason is told.
pub proof fn failed_launches_are_told(reason: String)
    ensures
        launch_failure(Ok(Ok(()))) is None,
        launch_failure(Ok(Err(reason))) == Some(reason@),
        launch_failure(Err(reason)) == Some("Mihomo start task failed unexpectedly: "@ + reason@),
        not_ready(reason@) == "Mihomo started but its API did not become ready: "@ + reason@,
{
}

/// The version that the core tells is shown as it is; one that tells none is
/// unknown. The answer counts just as it came, for the core that was asked.
pub proof fn answers_are_taken_as_they_come(
    readiness: ReadinessView,
    version: Version,
    error: String,
    text: Seq<char>,
)
    ensures
        shown_version(Some(text)) == text,
        shown_version(None) == "unknown"@,
        answer_view(Err(error)) == Err::<Option<Seq<char>>, Seq<char>>(error@),
        version.version matches Some(v) ==> answer_view(Ok(version)) == Ok::<
            Option<Seq<char>>,
            Seq<char>,
        >(Some(v@)),
        version.version is None ==> answer_view(Ok(version)) == Ok::<Option<Seq<char>>, Seq<char>>(
            None,
        ),
        readiness.answered(Ok(Some(text))) matches ProbeView::Ready(core) && core.version == text
            && core.api == readiness.api && core.generation == readiness.generation,
        readiness.answered(Err(text)) matches ProbeView::Waiting(pause) && pause.last_error == text
            && pause.readiness.failures == readiness.failures + 1 && pause.readiness.api
            == readiness.api && pause.readiness.generation == readiness.generation,
{
}

/// The core is asked twenty times, and given up at the twentieth failure.
pub proof fn twenty_failures_are_too_many(pause: PauseView)
    ensures
        pause.readiness.failures < 20 ==> pause.waited() == Ok::<ReadinessView, Seq<char>>(
            pause.readiness,
        ),
        pause.readiness.failures >= 20 ==> pause.waited() == Err::<ReadinessView, Seq<char>>(
            "Mihomo started but its API did not become ready: "@ + pause.last_error,
        ),
{
}

} // verus!
