//! Image tags, and the backends that build an image from an archive.

use vstd::prelude::*;
use vstd::string::StringExecFns;
use crate::build::error::{BuildError, BuildErrorView};
use crate::cli::ContainerBackend;
use crate::config::{BuildConfig, BuildConfigView};
use crate::text::{lemma_trim_end_is_prefix, spaced, spaced_of, trim_end, trim_end_of};

verus! {

/// Version of the tool, as it stands in derived tags.
pub const APP_VERSION: &'static str = "0.1.0";

/// The label of the server variant that offers what a configuration needs.
pub open spec fn variant_label(needs_scripting: bool, needs_webhooks: bool) -> Seq<char> {
    if needs_scripting && needs_webhooks {
        "full"@
    } else if needs_scripting {
        "scripting"@
    } else if needs_webhooks {
        "webhooks"@
    } else {
        "minimal"@
    }
}

/// The tag of the server image for a configuration: the tool's version, a
/// hyphen, and the variant label.
pub open spec fn server_tag_of(cfg: BuildConfigView) -> Seq<char> {
    APP_VERSION@ + "-"@ + variant_label(cfg.needs_scripting(), cfg.needs_webhooks())
}

/// The tag an image gets when none is given: `bslt-` and the
/// configuration's hash.
pub open spec fn default_image_tag_of(cfg: BuildConfigView) -> Seq<char> {
    "bslt-"@ + cfg.hash
}

/// The tag of the image to build: the one given, else the default one.
pub open spec fn image_tag_of(explicit: Option<Seq<char>>, cfg: BuildConfigView) -> Seq<char> {
    match explicit {
        Some(tag) => tag,
        None => default_image_tag_of(cfg),
    }
}

/// The tag of the server image that fits the configuration. It depends on
/// nothing but whether the configuration declares event-handler scripts and
/// whether it declares webhooks.
pub fn get_server_tag(cfg: &BuildConfig) -> (tag: String)
    ensures
        tag@ == server_tag_of(cfg@),
{
    let needs_scripting = cfg.integrations.event_handlers.len() > 0;
    let needs_webhooks = cfg.integrations.webhooks.len() > 0;
    let variant = if needs_scripting && needs_webhooks {
        "full"
    } else if needs_scripting {
        "scripting"
    } else if needs_webhooks {
        "webhooks"
    } else {
        "minimal"
    };
    let mut tag = String::from_str(APP_VERSION);
    tag.append("-");
    tag.append(variant);
    tag
}

/// The tag of the image to build: `explicit` where one is given, else
/// `bslt-` and the configuration's hash.
pub fn image_tag(explicit: Option<String>, cfg: &BuildConfig) -> (tag: String)
    ensures
        tag@ == image_tag_of(explicit.deep_view(), cfg@),
{
    match explicit {
        Some(tag) => tag,
        None => {
            let mut tag = String::from_str("bslt-");
            tag.append(cfg.hash.as_str());
            tag
        },
    }
}

/// The truth table of the variant label: every configuration has exactly
/// one of the four tags, and which one follows from its scripts and
/// webhooks alone.
pub proof fn lemma_server_tag_table(cfg: BuildConfigView)
    ensures
        cfg.needs_scripting() && cfg.needs_webhooks() ==> server_tag_of(cfg) == APP_VERSION@ + "-"@
            + "full"@,
        cfg.needs_scripting() && !cfg.needs_webhooks() ==> server_tag_of(cfg) == APP_VERSION@
            + "-"@ + "scripting"@,
        !cfg.needs_scripting() && cfg.needs_webhooks() ==> server_tag_of(cfg) == APP_VERSION@
            + "-"@ + "webhooks"@,
        !cfg.needs_scripting() && !cfg.needs_webhooks() ==> server_tag_of(cfg) == APP_VERSION@
            + "-"@ + "minimal"@,
{
}

/// Two configurations that agree on whether they declare scripts and on
/// whether they declare webhooks have the same server tag.
pub proof fn lemma_server_tag_deterministic(a: BuildConfigView, b: BuildConfigView)
    requires
        a.needs_scripting() == b.needs_scripting(),
        a.needs_webhooks() == b.needs_webhooks(),
    ensures
        server_tag_of(a) == server_tag_of(b),
{
}

/// The marker that every line of the build log starts with.
pub const BUILD_MARKER: &'static str = "[BUILD]";

/// The program that the subprocess backend runs.
pub const PODMAN: &'static str = "podman";

/// The flag that the probe passes to the program; it does nothing.
pub const PROBE_FLAG: &'static str = "--version";

/// The name of the Dockerfile inside the archive.
pub const DOCKERFILE_NAME: &'static str = "Dockerfile";

/// The prefix of the name of the temporary directory.
pub const TEMP_DIR_PREFIX: &'static str = "basalt-build";

/// A chunk of the daemon's log as one line: trailing white space goes, and
/// every newline and tab that is left becomes one space.
pub open spec fn normalized_of(chunk: Seq<char>) -> Seq<char> {
    spaced_of(trim_end_of(chunk))
}

/// A line of the build log: the marker, a space, the text.
pub open spec fn marked_of(text: Seq<char>) -> Seq<char> {
    BUILD_MARKER@ + " "@ + text
}

/// A normalized chunk is one line: it holds no line break and no tab, and
/// it is no longer than the chunk.
pub proof fn lemma_normalized_is_one_line(chunk: Seq<char>)
    ensures
        forall|i: int|
            0 <= i < normalized_of(chunk).len() ==> (#[trigger] normalized_of(chunk)[i]) != '\n'
                && normalized_of(chunk)[i] != '\t',
        normalized_of(chunk).len() <= chunk.len(),
{
    lemma_trim_end_is_prefix(chunk);
}

/// A chunk of the daemon's log as one line: trailing white space goes, and
/// every newline and tab that is left becomes one space.
pub fn normalize_chunk(chunk: &str) -> (line: String)
    ensures
        line@ == normalized_of(chunk@),
{
    let trimmed = trim_end(chunk);
    spaced(trimmed.as_str())
}

/// A line of the build log: the marker, a space, the text.
pub fn mark_line(text: &str) -> (line: String)
    ensures
        line@ == marked_of(text@),
{
    let mut line = String::from_str(BUILD_MARKER);
    line.append(" ");
    line.append(text);
    line
}

/// Whether the probe of the subprocess backend found it: a probe that
/// failed means that the backend is unavailable, for the reason it gives.
pub fn ensure_podman_accessible(probe: Result<(), String>) -> (r: Result<(), BuildError>)
    ensures
        match probe {
            Ok(()) => r is Ok,
            Err(cause) => r matches Err(e) && e@ == (BuildErrorView::BackendUnavailable {
                cause: cause@,
            }),
        },
{
    match probe {
        Ok(()) => Ok(()),
        Err(cause) => Err(BuildError::BackendUnavailable { cause }),
    }
}

/// Where a build of an image stands.
#[derive(Clone, Copy, Debug, PartialEq, Eq, Structural)]
pub enum Phase {
    /// Daemon: the connection is being made.
    Connecting,
    /// Daemon: the build was submitted and its events are read.
    Streaming,
    /// Subprocess: the program is being probed.
    Probing,
    /// Subprocess: the temporary directory is being made.
    MakingDir,
    /// Subprocess: the archive is being unpacked into the directory.
    Unpacking,
    /// Subprocess: the build command is being started.
    Spawning,
    /// Subprocess: the build command runs and its lines are read.
    Running,
    /// Subprocess: the temporary directory is being removed.
    Removing,
    /// The build has ended.
    Finished,
}

/// The state of a build of an image.
#[derive(Debug)]
pub struct DriverState {
    pub phase: Phase,
    /// The tag that the image gets.
    pub tag: String,
    /// Whether lines of the error stream are passed on.
    pub verbose: bool,
    /// The temporary directory, once it is made.
    pub dir: Option<String>,
    /// The error that ends the build, once there is one.
    pub failure: Option<BuildError>,
}

/// Model of a [`DriverState`].
pub struct DriverView {
    pub phase: Phase,
    pub tag: Seq<char>,
    pub verbose: bool,
    pub dir: Option<Seq<char>>,
    pub failure: Option<BuildErrorView>,
}

impl View for DriverState {
    type V = DriverView;

    open spec fn view(&self) -> DriverView {
        DriverView {
            phase: self.phase,
            tag: self.tag@,
            verbose: self.verbose,
            dir: self.dir.deep_view(),
            failure: self.failure.deep_view(),
        }
    }
}

/// What happened outside, as the backend driver is told.
#[derive(Debug)]
pub enum DriverEvent {
    /// The daemon is connected.
    Connected,
    /// The daemon cannot be reached.
    ConnectFailed(String),
    /// The daemon sent an event; it carries a chunk of the log or none.
    Chunk(Option<String>),
    /// The daemon reported that the build failed.
    StreamFailed(String),
    /// The daemon's events have ended.
    StreamEnded,
    /// The program answered the probe.
    ProbeSucceeded,
    /// The program cannot be invoked.
    ProbeFailed(String),
    /// The temporary directory was made at this path.
    DirCreated(String),
    /// The temporary directory could not be made.
    DirFailed(String),
    /// The archive was unpacked.
    Unpacked,
    /// The archive could not be unpacked.
    UnpackFailed(String),
    /// The build command was started.
    Spawned,
    /// The build command could not be started.
    SpawnFailed(String),
    /// The build command wrote a line to its standard output.
    StdoutLine(String),
    /// The build command wrote a line to its standard error.
    StderrLine(String),
    /// The build command ended, with success or with what it reports.
    Exited(Result<(), String>),
    /// A line could not be written.
    WriteFailed(String),
    /// The temporary directory is removed.
    DirRemoved,
}

/// Model of a [`DriverEvent`].
pub enum DriverEventView {
    Connected,
    ConnectFailed(Seq<char>),
    Chunk(Option<Seq<char>>),
    StreamFailed(Seq<char>),
    StreamEnded,
    ProbeSucceeded,
    ProbeFailed(Seq<char>),
    DirCreated(Seq<char>),
    DirFailed(Seq<char>),
    Unpacked,
    UnpackFailed(Seq<char>),
    Spawned,
    SpawnFailed(Seq<char>),
    StdoutLine(Seq<char>),
    StderrLine(Seq<char>),
    Exited(Result<(), Seq<char>>),
    WriteFailed(Seq<char>),
    DirRemoved,
}

impl View for DriverEvent {
    type V = DriverEventView;

    open spec fn view(&self) -> DriverEventView {
        match *self {
            DriverEvent::Connected => DriverEventView::Connected,
            DriverEvent::ConnectFailed(cause) => DriverEventView::ConnectFailed(cause@),
            DriverEvent::Chunk(chunk) => DriverEventView::Chunk(chunk.deep_view()),
            DriverEvent::StreamFailed(message) => DriverEventView::StreamFailed(message@),
            DriverEvent::StreamEnded => DriverEventView::StreamEnded,
            DriverEvent::ProbeSucceeded => DriverEventView::ProbeSucceeded,
            DriverEvent::ProbeFailed(cause) => DriverEventView::ProbeFailed(cause@),
            DriverEvent::DirCreated(dir) => DriverEventView::DirCreated(dir@),
            DriverEvent::DirFailed(cause) => DriverEventView::DirFailed(cause@),
            DriverEvent::Unpacked => DriverEventView::Unpacked,
            DriverEvent::UnpackFailed(cause) => DriverEventView::UnpackFailed(cause@),
            DriverEvent::Spawned => DriverEventView::Spawned,
            DriverEvent::SpawnFailed(cause) => DriverEventView::SpawnFailed(cause@),
            DriverEvent::StdoutLine(text) => DriverEventView::StdoutLine(text@),
            DriverEvent::StderrLine(text) => DriverEventView::StderrLine(text@),
            DriverEvent::Exited(Ok(())) => DriverEventView::Exited(Ok(())),
            DriverEvent::Exited(Err(message)) => DriverEventView::Exited(Err(message@)),
            DriverEvent::WriteFailed(cause) => DriverEventView::WriteFailed(cause@),
            DriverEvent::DirRemoved => DriverEventView::DirRemoved,
        }
    }
}

/// What the backend driver asks to be done next.
#[derive(Debug)]
pub enum DriverAction {
    /// Connect to the local daemon.
    Connect,
    /// Submit the archive to the daemon as the context of a build.
    Submit { tag: String, dockerfile: String, remove_intermediate: bool },
    /// Run the program with these arguments to see that it can be invoked.
    Probe { program: String, args: Vec<String> },
    /// Make a new temporary directory whose name starts with `prefix`.
    CreateDir { prefix: String },
    /// Unpack the whole archive into the directory, paths kept.
    Unpack { dir: String },
    /// Start the program with these arguments.
    Spawn { program: String, args: Vec<String> },
    /// Write the line to the standard output, then read on.
    Print(String),
    /// Write the line to the standard error, then read on.
    PrintError(String),
    /// Read on.
    Next,
    /// Remove the temporary directory.
    RemoveDir { dir: String },
    /// The build has ended, with success or with this error.
    Finish(Result<(), BuildError>),
}

/// Model of a [`DriverAction`].
pub enum DriverActionView {
    Connect,
    Submit { tag: Seq<char>, dockerfile: Seq<char>, remove_intermediate: bool },
    Probe { program: Seq<char>, args: Seq<Seq<char>> },
    CreateDir { prefix: Seq<char> },
    Unpack { dir: Seq<char> },
    Spawn { program: Seq<char>, args: Seq<Seq<char>> },
    Print(Seq<char>),
    PrintError(Seq<char>),
    Next,
    RemoveDir { dir: Seq<char> },
    Finish(Result<(), BuildErrorView>),
}

impl View for DriverAction {
    type V = DriverActionView;

    open spec fn view(&self) -> DriverActionView {
        match *self {
            DriverAction::Connect => DriverActionView::Connect,
            DriverAction::Submit { tag, dockerfile, remove_intermediate } => DriverActionView::Submit {
                tag: tag@,
                dockerfile: dockerfile@,
                remove_intermediate,
            },
            DriverAction::Probe { program, args } => DriverActionView::Probe {
                program: program@,
                args: args.deep_view(),
            },
            DriverAction::CreateDir { prefix } => DriverActionView::CreateDir { prefix: prefix@ },
            DriverAction::Unpack { dir } => DriverActionView::Unpack { dir: dir@ },
            DriverAction::Spawn { program, args } => DriverActionView::Spawn {
                program: program@,
                args: args.deep_view(),
            },
            DriverAction::Print(line) => DriverActionView::Print(line@),
            DriverAction::PrintError(line) => DriverActionView::PrintError(line@),
            DriverAction::Next => DriverActionView::Next,
            DriverAction::RemoveDir { dir } => DriverActionView::RemoveDir { dir: dir@ },
            DriverAction::Finish(Ok(())) => DriverActionView::Finish(Ok(())),
            DriverAction::Finish(Err(e)) => DriverActionView::Finish(Err(e@)),
        }
    }
}

impl DriverView {
    /// The state in which a build for `backend` starts.
    pub open spec fn start(tag: Seq<char>, backend: ContainerBackend, verbose: bool) -> DriverView {
        DriverView {
            phase: match backend {
                ContainerBackend::Docker => Phase::Connecting,
                ContainerBackend::Podman => Phase::Probing,
            },
            tag,
            verbose,
            dir: None,
            failure: None,
        }
    }

    /// The first thing to do for `backend`.
    pub open spec fn first_action(backend: ContainerBackend) -> DriverActionView {
        match backend {
            ContainerBackend::Docker => DriverActionView::Connect,
            ContainerBackend::Podman => DriverActionView::Probe {
                program: PODMAN@,
                args: seq![PROBE_FLAG@],
            },
        }
    }

    /// The result that the build ends with: the failure, if there is one.
    pub open spec fn result(self) -> Result<(), BuildErrorView> {
        match self.failure {
            Some(e) => Err(e),
            None => Ok(()),
        }
    }

    /// The state with the phase `phase`.
    pub open spec fn at(self, phase: Phase) -> DriverView {
        DriverView { phase, ..self }
    }

    /// The build ends here, with `failure` if there is one.
    pub open spec fn end(self, failure: Option<BuildErrorView>) -> (DriverView, DriverActionView) {
        let done = DriverView { phase: Phase::Finished, failure, ..self };
        (done, DriverActionView::Finish(done.result()))
    }

    /// The build is over but for the temporary directory, which goes first.
    pub open spec fn clean_up(self, failure: Option<BuildErrorView>) -> (
        DriverView,
        DriverActionView,
    ) {
        match self.dir {
            Some(dir) => (
                DriverView { phase: Phase::Removing, failure, ..self },
                DriverActionView::RemoveDir { dir },
            ),
            None => self.end(failure),
        }
    }

    /// The arguments of the build command: `build -t <tag> <dir>`.
    pub open spec fn build_args(self, dir: Seq<char>) -> Seq<Seq<char>> {
        seq!["build"@, "-t"@, self.tag, dir]
    }

    /// The next state and what to do, after `event`.
    ///
    /// An event that the phase does not wait for changes nothing and reads
    /// on; once the build has ended every event is answered with its result.
    pub open spec fn step(self, event: DriverEventView) -> (DriverView, DriverActionView) {
        match (self.phase, event) {
            (Phase::Connecting, DriverEventView::Connected) => (
                self.at(Phase::Streaming),
                DriverActionView::Submit {
                    tag: self.tag,
                    dockerfile: DOCKERFILE_NAME@,
                    remove_intermediate: true,
                },
            ),
            (Phase::Connecting, DriverEventView::ConnectFailed(cause)) => self.end(
                Some(BuildErrorView::BackendUnavailable { cause }),
            ),
            (Phase::Streaming, DriverEventView::Chunk(Some(chunk))) => (
                self,
                DriverActionView::Print(marked_of(normalized_of(chunk))),
            ),
            (Phase::Streaming, DriverEventView::Chunk(None)) => (self, DriverActionView::Next),
            (Phase::Streaming, DriverEventView::StreamFailed(message)) => self.end(
                Some(BuildErrorView::BuildStepFailure { message }),
            ),
            (Phase::Streaming, DriverEventView::StreamEnded) => self.end(None),
            (Phase::Streaming, DriverEventView::WriteFailed(cause)) => self.end(
                Some(BuildErrorView::Io { cause }),
            ),
            (Phase::Probing, DriverEventView::ProbeSucceeded) => (
                self.at(Phase::MakingDir),
                DriverActionView::CreateDir { prefix: TEMP_DIR_PREFIX@ },
            ),
            (Phase::Probing, DriverEventView::ProbeFailed(cause)) => self.end(
                Some(BuildErrorView::BackendUnavailable { cause }),
            ),
            (Phase::MakingDir, DriverEventView::DirCreated(dir)) => (
                DriverView { phase: Phase::Unpacking, dir: Some(dir), ..self },
                DriverActionView::Unpack { dir },
            ),
            (Phase::MakingDir, DriverEventView::DirFailed(cause)) => self.end(
                Some(BuildErrorView::Io { cause }),
            ),
            (Phase::Unpacking, DriverEventView::Unpacked) => match self.dir {
                Some(dir) => (
                    self.at(Phase::Spawning),
                    DriverActionView::Spawn { program: PODMAN@, args: self.build_args(dir) },
                ),
                None => self.end(self.failure),
            },
            (Phase::Unpacking, DriverEventView::UnpackFailed(cause)) => self.clean_up(
                Some(BuildErrorView::Io { cause }),
            ),
            (Phase::Spawning, DriverEventView::Spawned) => (
                self.at(Phase::Running),
                DriverActionView::Next,
            ),
            (Phase::Spawning, DriverEventView::SpawnFailed(cause)) => self.clean_up(
                Some(BuildErrorView::Io { cause }),
            ),
            (Phase::Running, DriverEventView::StdoutLine(text)) => (
                self,
                DriverActionView::Print(marked_of(text)),
            ),
            (Phase::Running, DriverEventView::StderrLine(text)) => if self.verbose {
                (self, DriverActionView::PrintError(marked_of(text)))
            } else {
                (self, DriverActionView::Next)
            },
            (Phase::Running, DriverEventView::Exited(Ok(()))) => self.clean_up(None),
            (Phase::Running, DriverEventView::Exited(Err(message))) => self.clean_up(
                Some(BuildErrorView::BuildStepFailure { message }),
            ),
            (Phase::Running, DriverEventView::WriteFailed(cause)) => self.clean_up(
                Some(BuildErrorView::Io { cause }),
            ),
            (Phase::Removing, DriverEventView::DirRemoved) => self.end(self.failure),
            (Phase::Finished, _) => (self, DriverActionView::Finish(self.result())),
            _ => (self, DriverActionView::Next),
        }
    }
}

impl DriverState {
    /// The state in which a build of an image tagged `tag` starts, and the
    /// first thing to do: to connect to the daemon, or to probe the program.
    pub fn start(tag: String, backend: ContainerBackend, verbose: bool) -> (r: (
        DriverState,
        DriverAction,
    ))
        ensures
            r.0@ == DriverView::start(tag@, backend, verbose),
            r.1@ == DriverView::first_action(backend),
    {
        match backend {
            ContainerBackend::Docker => (
                DriverState { phase: Phase::Connecting, tag, verbose, dir: None, failure: None },
                DriverAction::Connect,
            ),
            ContainerBackend::Podman => {
                let mut args: Vec<String> = Vec::new();
                args.push(String::from_str(PROBE_FLAG));
                let action = DriverAction::Probe { program: String::from_str(PODMAN), args };
                assert(action@ =~= DriverView::first_action(backend)) by {
                    assert(action@->Probe_args =~= seq![PROBE_FLAG@]);
                }
                (
                    DriverState { phase: Phase::Probing, tag, verbose, dir: None, failure: None },
                    action,
                )
            },
        }
    }

    fn at(self, phase: Phase) -> (r: DriverState)
        ensures
            r@ == self@.at(phase),
    {
        DriverState {
            phase,
            tag: self.tag,
            verbose: self.verbose,
            dir: self.dir,
            failure: self.failure,
        }
    }

    fn end(self, failure: Option<BuildError>) -> (r: (DriverState, DriverAction))
        ensures
            (r.0@, r.1@) == self@.end(failure.deep_view()),
    {
        let result = match &failure {
            Some(e) => Err(e.duplicate()),
            None => Ok(()),
        };
        let done = DriverState {
            phase: Phase::Finished,
            tag: self.tag,
            verbose: self.verbose,
            dir: self.dir,
            failure,
        };
        (done, DriverAction::Finish(result))
    }

    fn clean_up(self, failure: Option<BuildError>) -> (r: (DriverState, DriverAction))
        ensures
            (r.0@, r.1@) == self@.clean_up(failure.deep_view()),
    {
        match &self.dir {
            Some(dir) => {
                let action = DriverAction::RemoveDir { dir: dir.clone() };
                (
                    DriverState {
                        phase: Phase::Removing,
                        tag: self.tag,
                        verbose: self.verbose,
                        dir: self.dir,
                        failure,
                    },
                    action,
                )
            },
            None => self.end(failure),
        }
    }

    fn result(&self) -> (r: Result<(), BuildError>)
        ensures
            match r {
                Ok(()) => self@.result() == Ok::<(), BuildErrorView>(()),
                Err(e) => self@.result() == Err::<(), BuildErrorView>(e@),
            },
    {
        match &self.failure {
            Some(e) => Err(e.duplicate()),
            None => Ok(()),
        }
    }
}

/// One step of the build of an image from the archive: takes what happened
/// outside and says what to do next.
///
/// With the daemon: connect; submit the archive as the context of a build
/// under the tag, intermediate layers removed; print one marked, normalized
/// line for every event that carries a chunk of the log. With the
/// subprocess: probe the program before anything touches the file system;
/// make a temporary directory; unpack the archive into it; run the build
/// command on it; print every line of its standard output, marked, and its
/// standard error only if `verbose` is set. The first failure ends the
/// build; once there is a temporary directory it is removed before the
/// build ends, whether it failed or not.
pub fn build_container_image(state: DriverState, event: DriverEvent) -> (r: (
    DriverState,
    DriverAction,
))
    ensures
        (r.0@, r.1@) == state@.step(event@),
{
    match state.phase {
        Phase::Connecting => match event {
            DriverEvent::Connected => {
                let action = DriverAction::Submit {
                    tag: state.tag.clone(),
                    dockerfile: String::from_str(DOCKERFILE_NAME),
                    remove_intermediate: true,
                };
                (state.at(Phase::Streaming), action)
            },
            DriverEvent::ConnectFailed(cause) => state.end(
                Some(BuildError::BackendUnavailable { cause }),
            ),
            _ => (state, DriverAction::Next),
        },
        Phase::Streaming => match event {
            DriverEvent::Chunk(Some(chunk)) => {
                let line = normalize_chunk(chunk.as_str());
                let action = DriverAction::Print(mark_line(line.as_str()));
                (state, action)
            },
            DriverEvent::Chunk(None) => (state, DriverAction::Next),
            DriverEvent::StreamFailed(message) => state.end(
                Some(BuildError::BuildStepFailure { message }),
            ),
            DriverEvent::StreamEnded => state.end(None),
            DriverEvent::WriteFailed(cause) => state.end(Some(BuildError::Io { cause })),
            _ => (state, DriverAction::Next),
        },
        Phase::Probing => match event {
            DriverEvent::ProbeSucceeded => {
                let action = DriverAction::CreateDir { prefix: String::from_str(TEMP_DIR_PREFIX) };
                (state.at(Phase::MakingDir), action)
            },
            DriverEvent::ProbeFailed(cause) => match ensure_podman_accessible(Err(cause)) {
                Ok(()) => (state, DriverAction::Next),
                Err(e) => state.end(Some(e)),
            },
            _ => (state, DriverAction::Next),
        },
        Phase::MakingDir => match event {
            DriverEvent::DirCreated(dir) => {
                let action = DriverAction::Unpack { dir: dir.clone() };
                (
                    DriverState {
                        phase: Phase::Unpacking,
                        tag: state.tag,
                        verbose: state.verbose,
                        dir: Some(dir),
                        failure: state.failure,
                    },
                    action,
                )
            },
            DriverEvent::DirFailed(cause) => state.end(Some(BuildError::Io { cause })),
            _ => (state, DriverAction::Next),
        },
        Phase::Unpacking => match event {
            DriverEvent::Unpacked => match &state.dir {
                Some(dir) => {
                    let mut args: Vec<String> = Vec::new();
                    args.push(String::from_str("build"));
                    args.push(String::from_str("-t"));
                    args.push(state.tag.clone());
                    args.push(dir.clone());
                    assert(args.deep_view() =~= state@.build_args(dir@));
                    let action = DriverAction::Spawn { program: String::from_str(PODMAN), args };
                    (state.at(Phase::Spawning), action)
                },
                None => {
                    let failure = match &state.failure {
                        Some(e) => Some(e.duplicate()),
                        None => None,
                    };
                    state.end(failure)
                },
            },
            DriverEvent::UnpackFailed(cause) => state.clean_up(Some(BuildError::Io { cause })),
            _ => (state, DriverAction::Next),
        },
        Phase::Spawning => match event {
            DriverEvent::Spawned => (state.at(Phase::Running), DriverAction::Next),
            DriverEvent::SpawnFailed(cause) => state.clean_up(Some(BuildError::Io { cause })),
            _ => (state, DriverAction::Next),
        },
        Phase::Running => match event {
            DriverEvent::StdoutLine(text) => {
                let action = DriverAction::Print(mark_line(text.as_str()));
                (state, action)
            },
            DriverEvent::StderrLine(text) => {
                if state.verbose {
                    let action = DriverAction::PrintError(mark_line(text.as_str()));
                    (state, action)
                } else {
                    (state, DriverAction::Next)
                }
            },
            DriverEvent::Exited(Ok(())) => state.clean_up(None),
            DriverEvent::Exited(Err(message)) => state.clean_up(
                Some(BuildError::BuildStepFailure { message }),
            ),
            DriverEvent::WriteFailed(cause) => state.clean_up(Some(BuildError::Io { cause })),
            _ => (state, DriverAction::Next),
        },
        Phase::Removing => match event {
            DriverEvent::DirRemoved => {
                let failure = match &state.failure {
                    Some(e) => Some(e.duplicate()),
                    None => None,
                };
                state.end(failure)
            },
            _ => (state, DriverAction::Next),
        },
        Phase::Finished => {
            let result = state.result();
            (state, DriverAction::Finish(result))
        },
    }
}

impl DriverView {
    /// The state after `events`, and what was asked to be done, one action
    /// for each event.
    pub open spec fn run(self, events: Seq<DriverEventView>) -> (DriverView, Seq<DriverActionView>)
        decreases events.len(),
    {
        if events.len() == 0 {
            (self, Seq::empty())
        } else {
            let (state, actions) = self.run(events.drop_last());
            let (next, action) = state.step(events.last());
            (next, actions.push(action))
        }
    }

    /// The state is one in which a build can be, having started without a
    /// temporary directory: there is a directory only from its unpacking on.
    pub open spec fn reachable(self) -> bool {
        self.dir is Some ==> self.phase == Phase::Unpacking || self.phase == Phase::Spawning
            || self.phase == Phase::Running || self.phase == Phase::Removing || self.phase
            == Phase::Finished
    }
}

/// The action touches the file system or starts the build command.
pub open spec fn touches_files(action: DriverActionView) -> bool {
    action is CreateDir || action is Unpack || action is Spawn || action is RemoveDir
}

/// A run gives one action for each event.
pub proof fn lemma_run_len(state: DriverView, events: Seq<DriverEventView>)
    ensures
        state.run(events).1.len() == events.len(),
    decreases events.len(),
{
    if events.len() > 0 {
        lemma_run_len(state, events.drop_last());
    }
}

/// Once the build has ended it stays ended: every further event is
/// answered with the result of the build, and nothing else is done.
pub proof fn lemma_ended_build_stays_ended(state: DriverView, events: Seq<DriverEventView>)
    requires
        state.phase == Phase::Finished,
    ensures
        state.run(events).0 == state,
        state.run(events).1.len() == events.len(),
        forall|k: int|
            0 <= k < events.len() ==> #[trigger] state.run(events).1[k] == DriverActionView::Finish(
                state.result(),
            ),
    decreases events.len(),
{
    if events.len() > 0 {
        lemma_ended_build_stays_ended(state, events.drop_last());
    }
}

/// The first failure ends the build: the step that reports the end of the
/// build leaves it ended with that result, so that nothing is printed and
/// nothing is done after it.
pub proof fn lemma_end_is_final(
    state: DriverView,
    event: DriverEventView,
    later: Seq<DriverEventView>,
)
    requires
        state.step(event).1 is Finish,
    ensures
        state.step(event).0.phase == Phase::Finished,
        forall|k: int|
            0 <= k < later.len() ==> #[trigger] state.step(event).0.run(later).1[k] == state.step(
                event,
            ).1,
{
    let ended = state.step(event).0;
    lemma_ended_build_stays_ended(ended, later);
}

/// Lines of the error stream are passed on only on request: a build that
/// is not verbose never asks for a line to be written to the standard error.
pub proof fn lemma_quiet_build_prints_no_error_line(
    state: DriverView,
    events: Seq<DriverEventView>,
)
    requires
        !state.verbose,
    ensures
        !state.run(events).0.verbose,
        forall|k: int|
            0 <= k < state.run(events).1.len() ==> !(#[trigger] state.run(
                events,
            ).1[k] is PrintError),
    decreases events.len(),
{
    if events.len() > 0 {
        lemma_quiet_build_prints_no_error_line(state, events.drop_last());
    }
}

/// The probe comes first: until the program has answered the probe, a
/// build by subprocess makes no directory, unpacks nothing and starts
/// nothing.
pub proof fn lemma_nothing_is_touched_before_the_probe(
    tag: Seq<char>,
    verbose: bool,
    events: Seq<DriverEventView>,
)
    requires
        forall|k: int| 0 <= k < events.len() ==> !(#[trigger] events[k] is ProbeSucceeded),
    ensures
        ({
            let (state, actions) = DriverView::start(tag, ContainerBackend::Podman, verbose).run(
                events,
            );
            &&& state.phase == Phase::Probing || state.phase == Phase::Finished
            &&& state.dir is None
            &&& forall|k: int| 0 <= k < actions.len() ==> !touches_files(#[trigger] actions[k])
        }),
    decreases events.len(),
{
    if events.len() > 0 {
        let before = events.drop_last();
        assert forall|k: int| 0 <= k < before.len() implies !(#[trigger] before[k]
            is ProbeSucceeded) by {}
        lemma_nothing_is_touched_before_the_probe(tag, verbose, before);
    }
}

/// A probe that fails ends the build at once, with the backend reported as
/// unavailable for the reason the probe gives.
pub proof fn lemma_failed_probe_ends_build(tag: Seq<char>, verbose: bool, cause: Seq<char>)
    ensures
        DriverView::start(tag, ContainerBackend::Podman, verbose).step(
            DriverEventView::ProbeFailed(cause),
        ).1 == DriverActionView::Finish(
            Err::<(), BuildErrorView>(BuildErrorView::BackendUnavailable { cause }),
        ),
{
}

/// The temporary directory does not outlive the build: a build that has
/// ended after a directory was made has asked for its removal, whether
/// the build failed or not.
pub proof fn lemma_directory_is_removed(state: DriverView, events: Seq<DriverEventView>)
    requires
        state.dir is None,
        state.phase != Phase::Removing,
    ensures
        ({
            let (end, actions) = state.run(events);
            &&& end.reachable()
            &&& (end.phase == Phase::Finished || end.phase == Phase::Removing) && end.dir
                is Some ==> actions.contains(DriverActionView::RemoveDir { dir: end.dir->0 })
        }),
    decreases events.len(),
{
    if events.len() > 0 {
        let before = events.drop_last();
        lemma_directory_is_removed(state, before);
        let (mid, done) = state.run(before);
        let (end, action) = mid.step(events.last());
        let actions = done.push(action);
        if (end.phase == Phase::Finished || end.phase == Phase::Removing) && end.dir is Some {
            let removal = DriverActionView::RemoveDir { dir: end.dir->0 };
            if mid.phase == Phase::Finished || mid.phase == Phase::Removing {
                let k = choose|k: int| 0 <= k < done.len() && done[k] == removal;
                assert(actions[k] == removal);
            } else {
                assert(actions[done.len() as int] == removal);
            }
        }
    }
}

/// Lines come out in the order they came in: each line of the standard
/// output of the build command is answered with that line, marked, and
/// nothing else changes.
pub proof fn lemma_output_lines_keep_order(state: DriverView, lines: Seq<Seq<char>>)
    requires
        state.phase == Phase::Running,
    ensures
        state.run(lines.map_values(|line: Seq<char>| DriverEventView::StdoutLine(line))) == (
            state,
            lines.map_values(|line: Seq<char>| DriverActionView::Print(marked_of(line))),
        ),
    decreases lines.len(),
{
    let events = lines.map_values(|line: Seq<char>| DriverEventView::StdoutLine(line));
    let actions = lines.map_values(|line: Seq<char>| DriverActionView::Print(marked_of(line)));
    if lines.len() > 0 {
        lemma_output_lines_keep_order(state, lines.drop_last());
        assert(events.drop_last() =~= lines.drop_last().map_values(
            |line: Seq<char>| DriverEventView::StdoutLine(line),
        ));
        assert(actions =~= lines.drop_last().map_values(
            |line: Seq<char>| DriverActionView::Print(marked_of(line)),
        ).push(DriverActionView::Print(marked_of(lines.last()))));
    }
}

/// Chunks of the daemon's log come out in the order they came in: each is
/// answered with one line, normalized and marked.
pub proof fn lemma_log_chunks_keep_order(state: DriverView, chunks: Seq<Seq<char>>)
    requires
        state.phase == Phase::Streaming,
    ensures
        state.run(chunks.map_values(|chunk: Seq<char>| DriverEventView::Chunk(Some(chunk)))) == (
            state,
            chunks.map_values(
                |chunk: Seq<char>| DriverActionView::Print(marked_of(normalized_of(chunk))),
            ),
        ),
    decreases chunks.len(),
{
    let events = chunks.map_values(|chunk: Seq<char>| DriverEventView::Chunk(Some(chunk)));
    let actions = chunks.map_values(
        |chunk: Seq<char>| DriverActionView::Print(marked_of(normalized_of(chunk))),
    );
    if chunks.len() > 0 {
        lemma_log_chunks_keep_order(state, chunks.drop_last());
        assert(events.drop_last() =~= chunks.drop_last().map_values(
            |chunk: Seq<char>| DriverEventView::Chunk(Some(chunk)),
        ));
        assert(actions =~= chunks.drop_last().map_values(
            |chunk: Seq<char>| DriverActionView::Print(marked_of(normalized_of(chunk))),
        ).push(DriverActionView::Print(marked_of(normalized_of(chunks.last())))));
    }
}

} // verus!
