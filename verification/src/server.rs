//! The server that runs, if one does: how it is started, reused, watched and
//! stopped.
//!
//! Time is counted in nanoseconds of a clock that never goes back.

use crate::config::{
    build_server_args, config_fingerprint, fingerprint, server_args, SdcppConfig,
    DEFAULT_KEEP_ALIVE_MINUTES,
};
use crate::events::{text_view, StatusEvent, StatusView};
use crate::paths::{is_directory_of, path_parent};
use crate::release::BinaryInstall;
use crate::text::{
    decimal, decimal_text, join_from, joined, lines, split_lines, text_eq, texts, value_of,
};
use vstd::prelude::*;

verus! {

/// How long a server may take to load its model.
pub const READY_TIMEOUT_NANOS: u128 = 300_000_000_000;

/// How long to wait before a server that is not ready is asked again.
pub const POLL_INTERVAL_MILLIS: u64 = 750;

/// The seconds between two looks whether the server is idle.
pub const IDLE_CHECK_SECS: u64 = 60;

/// How many of its last lines are told of the log of a server that died.
pub const LOG_TAIL_LINES: usize = 12;

/// A server that was started.
#[derive(Debug, Clone, PartialEq)]
pub struct ServerProc {
    pub port: u16,
    /// The fingerprint of the configuration that it was started for.
    pub config_fingerprint: String,
    /// It has loaded its model.
    pub ready: bool,
    /// When it was last used.
    pub last_used: u128,
}

/// A server that was started, as the contracts speak of it.
pub struct ServerView {
    pub port: u16,
    pub fingerprint: Seq<char>,
    pub ready: bool,
    pub last_used: u128,
}

impl View for ServerProc {
    type V = ServerView;

    open spec fn view(&self) -> ServerView {
        ServerView {
            port: self.port,
            fingerprint: self.config_fingerprint@,
            ready: self.ready,
            last_used: self.last_used,
        }
    }
}

/// The server that runs, if one does.
#[derive(Debug, Clone, PartialEq)]
pub struct SdcppState {
    pub inner: Option<ServerProc>,
    /// The watch for idle servers was started.
    pub reaper_started: bool,
}

impl View for SdcppState {
    type V = Option<ServerView>;

    open spec fn view(&self) -> Option<ServerView> {
        match self.inner {
            Some(proc) => Some(proc@),
            None => None,
        }
    }
}

impl Default for SdcppState {
    fn default() -> (state: Self)
        ensures
            state@ is None,
            !state.reaper_started,
    {
        SdcppState { inner: None, reaper_started: false }
    }
}

/// The address of a server on `port`.
pub open spec fn base_url(port: u16) -> Seq<char> {
    "http://127.0.0.1:"@ + decimal(port as nat)
}

/// The address of a server on `port`.
pub fn server_base_url(port: u16) -> (url: String)
    ensures
        url@ == base_url(port),
{
    let mut url = "http://127.0.0.1:".to_string();
    let port_text = decimal_text(port as u64);
    url.append(port_text.as_str());
    url
}

/// Where a server is asked whether it is ready.
pub fn capabilities_url(base_url: &str) -> (url: String)
    ensures
        url@ == base_url@ + "/sdcpp/v1/capabilities"@,
{
    let mut url = base_url.to_string();
    url.append("/sdcpp/v1/capabilities");
    url
}

// ----------------------------------------------------------------------------
// Starting
// ----------------------------------------------------------------------------

/// What is to be run.
#[derive(Debug, Clone, PartialEq)]
pub struct LaunchPlan {
    pub executable: String,
    pub args: Vec<String>,
    /// The directory to run it in: the one that the executable lies in, if it names one.
    pub directory: Option<String>,
    pub port: u16,
    pub fingerprint: String,
}

/// How a launch ended.
#[derive(Debug, PartialEq)]
pub struct LaunchEnd {
    /// The address of the server, or why there is none.
    pub result: Result<String, String>,
    /// The status to tell of.
    pub status: Option<StatusEvent>,
    /// A server was started, so the watch for idle servers is needed.
    pub needs_reaper: bool,
}

/// What a launch waits for.
#[derive(Debug, PartialEq)]
pub enum LaunchStep {
    /// Look whether the process of the server at hand is alive.
    Probe,
    /// Kill the process of the server that was at hand.
    Clear,
    /// Tell that the server is starting, and start it.
    Spawn,
    /// Tell that the model is loading.
    Announce,
    /// Ask the server whether it is ready.
    Poll,
    /// Look whether the process has ended.
    CheckExit,
    /// Wait before the server is asked again.
    Sleep,
    /// Stop the server.
    Stop,
    /// Nothing: the launch is over.
    Finish(LaunchEnd),
}

/// What came of a step.
#[derive(Debug, Clone, PartialEq)]
pub enum LaunchEvent {
    Probed { alive: bool, now: u128 },
    Cleared,
    Spawned { now: u128 },
    SpawnFailed { message: String },
    Announced { now: u128 },
    Ready { now: u128 },
    NotReady,
    /// The process ended, as `status` tells; `log` is what it left, if it could be
    /// read.
    Exited { status: String, log: Option<String> },
    Running { now: u128 },
    Woke,
    Stopped,
}

/// A server on its way up.
#[derive(Debug, PartialEq)]
pub struct Launch {
    pub plan: LaunchPlan,
    pub step: LaunchStep,
    /// When to give up.
    pub deadline: u128,
}

/// How a launch ended, as the contracts speak of it.
pub struct EndView {
    pub result: Result<Seq<char>, Seq<char>>,
    pub status: Option<StatusView>,
    pub needs_reaper: bool,
}

/// What a launch waits for, as the contracts speak of it.
pub enum StepView {
    Probe,
    Clear,
    Spawn,
    Announce,
    Poll,
    CheckExit,
    Sleep,
    Stop,
    Finish(EndView),
}

/// What came of a step, as the contracts speak of it.
pub enum EventView {
    Probed { alive: bool, now: u128 },
    Cleared,
    Spawned { now: u128 },
    SpawnFailed { message: Seq<char> },
    Announced { now: u128 },
    Ready { now: u128 },
    NotReady,
    Exited { status: Seq<char>, log: Option<Seq<char>> },
    Running { now: u128 },
    Woke,
    Stopped,
}

/// A launch, as the contracts speak of it.
pub struct LaunchView {
    pub port: u16,
    pub fingerprint: Seq<char>,
    pub step: StepView,
    pub deadline: int,
}

/// The outcome, as the contracts speak of it.
pub open spec fn result_view(result: Result<String, String>) -> Result<Seq<char>, Seq<char>> {
    match result {
        Ok(url) => Ok(url@),
        Err(message) => Err(message@),
    }
}

/// The status, as the contracts speak of it.
pub open spec fn status_view(status: Option<StatusEvent>) -> Option<StatusView> {
    match status {
        Some(status) => Some(status@),
        None => None,
    }
}

impl View for LaunchEnd {
    type V = EndView;

    open spec fn view(&self) -> EndView {
        EndView {
            result: result_view(self.result),
            status: status_view(self.status),
            needs_reaper: self.needs_reaper,
        }
    }
}

impl View for LaunchStep {
    type V = StepView;

    open spec fn view(&self) -> StepView {
        match *self {
            LaunchStep::Probe => StepView::Probe,
            LaunchStep::Clear => StepView::Clear,
            LaunchStep::Spawn => StepView::Spawn,
            LaunchStep::Announce => StepView::Announce,
            LaunchStep::Poll => StepView::Poll,
            LaunchStep::CheckExit => StepView::CheckExit,
            LaunchStep::Sleep => StepView::Sleep,
            LaunchStep::Stop => StepView::Stop,
            LaunchStep::Finish(end) => StepView::Finish(end@),
        }
    }
}

impl View for LaunchEvent {
    type V = EventView;

    open spec fn view(&self) -> EventView {
        match *self {
            LaunchEvent::Probed { alive, now } => EventView::Probed { alive, now },
            LaunchEvent::Cleared => EventView::Cleared,
            LaunchEvent::Spawned { now } => EventView::Spawned { now },
            LaunchEvent::SpawnFailed { message } => EventView::SpawnFailed { message: message@ },
            LaunchEvent::Announced { now } => EventView::Announced { now },
            LaunchEvent::Ready { now } => EventView::Ready { now },
            LaunchEvent::NotReady => EventView::NotReady,
            LaunchEvent::Exited { status, log } => EventView::Exited {
                status: status@,
                log: text_view(log),
            },
            LaunchEvent::Running { now } => EventView::Running { now },
            LaunchEvent::Woke => EventView::Woke,
            LaunchEvent::Stopped => EventView::Stopped,
        }
    }
}

impl View for Launch {
    type V = LaunchView;

    open spec fn view(&self) -> LaunchView {
        LaunchView {
            port: self.plan.port,
            fingerprint: self.plan.fingerprint@,
            step: self.step@,
            deadline: self.deadline as int,
        }
    }
}

/// The message where no model is configured.
pub open spec fn no_model_message() -> Seq<char> {
    "No local diffusion model configured. Pick a model in Settings → Image Generation."@
}

/// The message where the server is not installed.
pub open spec fn not_installed_message() -> Seq<char> {
    "sd.cpp runtime is not installed. Download it in Settings → Image Generation."@
}

/// The message where the server did not get ready in time.
pub open spec fn timeout_message() -> Seq<char> {
    "Timed out waiting for sd-server to load the model"@
}

/// The message where the process of the server ended before it was ready.
pub open spec fn exit_message(status: Seq<char>, tail: Seq<char>) -> Seq<char> {
    "sd-server exited early ("@ + status + "): "@ + tail
}

/// The last lines of a log; nothing where there is no log.
pub open spec fn tail_of(log: Option<Seq<char>>) -> Seq<char> {
    match log {
        Some(log) => {
            let all = lines(log);
            if all.len() > LOG_TAIL_LINES {
                joined(all.skip(all.len() - LOG_TAIL_LINES), "\n"@)
            } else {
                joined(all, "\n"@)
            }
        },
        None => Seq::empty(),
    }
}

/// The last lines of a log; nothing where there is no log.
pub fn log_tail(log: &Option<String>) -> (tail: String)
    ensures
        tail@ == tail_of(text_view(*log)),
{
    match log {
        Some(log) => {
            let all = split_lines(log.as_str());
            let from: usize = if all.len() > LOG_TAIL_LINES {
                all.len() - LOG_TAIL_LINES
            } else {
                0
            };
            assert(texts(all@).skip(0) =~= texts(all@));
            join_from(&all, from, "\n")
        },
        None => String::new(),
    }
}

/// The launch is over with `result`, and there is nothing to tell of.
pub open spec fn ended(result: Result<Seq<char>, Seq<char>>) -> StepView {
    StepView::Finish(EndView { result, status: None, needs_reaper: false })
}

/// The server at hand can be used by `launch`.
pub open spec fn serves(server: Option<ServerView>, launch: LaunchView) -> bool {
    server is Some && server->0.ready && server->0.fingerprint == launch.fingerprint
}

/// What `launch` waits for after `event`, where `server` is at hand. An event that
/// does not answer what the launch waits for changes nothing.
pub open spec fn step_after(
    launch: LaunchView,
    server: Option<ServerView>,
    event: EventView,
) -> StepView {
    match (launch.step, event) {
        (StepView::Probe, EventView::Probed { alive, now: _ }) => if alive && serves(
            server,
            launch,
        ) {
            ended(Ok(base_url(server->0.port)))
        } else if server is Some {
            StepView::Clear
        } else {
            StepView::Spawn
        },
        (StepView::Clear, EventView::Cleared) => StepView::Spawn,
        (StepView::Spawn, EventView::Spawned { now: _ }) => StepView::Announce,
        (StepView::Spawn, EventView::SpawnFailed { message }) => ended(Err(message)),
        (StepView::Announce, EventView::Announced { now: _ }) => StepView::Poll,
        (StepView::Poll, EventView::Ready { now: _ }) => StepView::Finish(
            EndView {
                result: Ok(base_url(launch.port)),
                status: Some(StatusView { phase: "ready"@, detail: None }),
                needs_reaper: true,
            },
        ),
        (StepView::Poll, EventView::NotReady) => StepView::CheckExit,
        (StepView::CheckExit, EventView::Exited { status, log }) => StepView::Finish(
            EndView {
                result: Err(exit_message(status, tail_of(log))),
                status: Some(StatusView { phase: "error"@, detail: Some(tail_of(log)) }),
                needs_reaper: false,
            },
        ),
        (StepView::CheckExit, EventView::Running { now }) => if now >= launch.deadline {
            StepView::Stop
        } else {
            StepView::Sleep
        },
        (StepView::Sleep, EventView::Woke) => StepView::Poll,
        (StepView::Stop, EventView::Stopped) => ended(Err(timeout_message())),
        _ => launch.step,
    }
}

/// When `launch` gives up, after `event`.
pub open spec fn deadline_after(launch: LaunchView, event: EventView) -> int {
    match (launch.step, event) {
        (StepView::Announce, EventView::Announced { now }) => now + READY_TIMEOUT_NANOS,
        _ => launch.deadline,
    }
}

/// The server at hand after `event`, where it was `server`.
pub open spec fn server_after(
    launch: LaunchView,
    server: Option<ServerView>,
    event: EventView,
) -> Option<ServerView> {
    match (launch.step, event) {
        (StepView::Probe, EventView::Probed { alive, now }) => if alive && serves(server, launch) {
            Some(ServerView { last_used: now, ..server->0 })
        } else {
            None
        },
        (StepView::Spawn, EventView::Spawned { now }) => Some(
            ServerView {
                port: launch.port,
                fingerprint: launch.fingerprint,
                ready: false,
                last_used: now,
            },
        ),
        (StepView::Poll, EventView::Ready { now }) => match server {
            Some(server) => Some(ServerView { ready: true, last_used: now, ..server }),
            None => None,
        },
        (StepView::CheckExit, EventView::Exited { .. }) => None,
        _ => server,
    }
}

/// The launch after `event`, where `server` is at hand.
pub open spec fn launch_after(
    launch: LaunchView,
    server: Option<ServerView>,
    event: EventView,
) -> LaunchView {
    LaunchView {
        step: step_after(launch, server, event),
        deadline: deadline_after(launch, event),
        ..launch
    }
}

/// What is to be run, as the contracts speak of it.
pub struct LaunchPlanView {
    pub executable: Seq<char>,
    pub args: Seq<Seq<char>>,
    pub port: u16,
    pub fingerprint: Seq<char>,
}

impl View for LaunchPlan {
    type V = LaunchPlanView;

    open spec fn view(&self) -> LaunchPlanView {
        LaunchPlanView {
            executable: self.executable@,
            args: texts(self.args@),
            port: self.port,
            fingerprint: self.fingerprint@,
        }
    }
}

/// What is to be run for `config`, where `install` is installed.
pub open spec fn plan_for(config: SdcppConfig, install: BinaryInstall) -> LaunchPlanView {
    LaunchPlanView {
        executable: install.executable@,
        args: server_args(config, config.chosen_port()),
        port: config.chosen_port(),
        fingerprint: fingerprint(config),
    }
}

/// Why no server can be launched for `config`, if none can.
pub open spec fn launch_refusal(config: SdcppConfig, installed: bool) -> Option<Seq<char>> {
    if !config.names_model() {
        Some(no_model_message())
    } else if !installed {
        Some(not_installed_message())
    } else {
        None
    }
}

/// A launch of the server for `config`, where `install` is what is installed. It is
/// refused where the configuration cannot be read or names no model, and where
/// nothing is installed.
pub fn ensure_server_running(
    config: Result<SdcppConfig, String>,
    install: Option<BinaryInstall>,
) -> (launch: Result<Launch, String>)
    ensures
        config is Err ==> launch == Err::<Launch, String>(config->Err_0),
        config matches Ok(config) ==> {
            &&& launch is Ok <==> launch_refusal(config, install is Some) is None
            &&& launch matches Err(message) ==> launch_refusal(config, install is Some) == Some(
                message@,
            )
            &&& launch matches Ok(launch) ==> launch.plan@ == plan_for(config, install->0)
            &&& launch is Ok <==> config.names_model() && install is Some
            &&& !config.names_model() ==> launch->Err_0@ == no_model_message()
            &&& config.names_model() && install is None ==> launch->Err_0@
                == not_installed_message()
            &&& launch matches Ok(launch) ==> {
                &&& launch.plan.executable == install->0.executable
                &&& texts(launch.plan.args@) == server_args(config, config.chosen_port())
                &&& is_directory_of(
                    text_view(launch.plan.directory),
                    install->0.executable@,
                )
                &&& launch.plan.port == config.chosen_port()
                &&& launch.plan.fingerprint@ == fingerprint(config)
                &&& launch.step == LaunchStep::Probe
            }
        },
{
    let config = match config {
        Ok(config) => config,
        Err(message) => return Err(message),
    };
    if !config.has_model() {
        return Err(
            "No local diffusion model configured. Pick a model in Settings → Image Generation.".to_string(),
        );
    }
    match install {
        Some(install) => {
            let port = config.server_port();
            let directory = path_parent(install.executable.as_str());
            let plan = LaunchPlan {
                executable: install.executable,
                args: build_server_args(&config, port),
                directory,
                port,
                fingerprint: config_fingerprint(&config),
            };
            Ok(Launch { plan, step: LaunchStep::Probe, deadline: 0 })
        },
        None => Err(
            "sd.cpp runtime is not installed. Download it in Settings → Image Generation.".to_string(),
        ),
    }
}

/// The status to tell of before `step` is done.
pub open spec fn told_before(step: StepView) -> Option<StatusView> {
    match step {
        StepView::Spawn => Some(StatusView { phase: "starting"@, detail: None }),
        StepView::Announce => Some(StatusView { phase: "loading_model"@, detail: None }),
        StepView::Finish(end) => end.status,
        _ => None,
    }
}

impl Launch {
    /// The address that the server will have.
    pub fn base_url(&self) -> (url: String)
        ensures
            url@ == base_url(self@.port),
    {
        server_base_url(self.plan.port)
    }

    /// The status to tell of before the step is done.
    pub fn announcement(&self) -> (status: Option<StatusEvent>)
        ensures
            status_view(status) == told_before(self@.step),
    {
        match &self.step {
            LaunchStep::Spawn => Some(StatusEvent::new("starting", None)),
            LaunchStep::Announce => Some(StatusEvent::new("loading_model", None)),
            LaunchStep::Finish(end) => match &end.status {
                Some(status) => Some(
                    StatusEvent::new(status.phase.as_str(), status.detail.clone()),
                ),
                None => None,
            },
            _ => None,
        }
    }

    /// Takes in what came of the step that the launch waited for.
    pub fn advance(&mut self, state: &mut SdcppState, event: LaunchEvent)
        requires
            event matches LaunchEvent::Announced { now } ==> now + READY_TIMEOUT_NANOS
                <= u128::MAX,
        ensures
            final(self).plan == old(self).plan,
            final(self)@ == launch_after(old(self)@, old(state)@, event@),
            final(state)@ == server_after(old(self)@, old(state)@, event@),
            final(state).reaper_started == old(state).reaper_started,
    {
        match (&self.step, event) {
            (LaunchStep::Probe, LaunchEvent::Probed { alive, now }) => {
                self.probed(state, alive, now);
            },
            (LaunchStep::Clear, LaunchEvent::Cleared) => {
                self.step = LaunchStep::Spawn;
            },
            (LaunchStep::Spawn, LaunchEvent::Spawned { now }) => {
                state.inner =
                Some(
                    ServerProc {
                        port: self.plan.port,
                        config_fingerprint: self.plan.fingerprint.clone(),
                        ready: false,
                        last_used: now,
                    },
                );
                self.step = LaunchStep::Announce;
            },
            (LaunchStep::Spawn, LaunchEvent::SpawnFailed { message }) => {
                self.step =
                LaunchStep::Finish(
                    LaunchEnd { result: Err(message), status: None, needs_reaper: false },
                );
            },
            (LaunchStep::Announce, LaunchEvent::Announced { now }) => {
                self.deadline = now + READY_TIMEOUT_NANOS;
                self.step = LaunchStep::Poll;
            },
            (LaunchStep::Poll, LaunchEvent::Ready { now }) => {
                mark_ready(state, now);
                self.step =
                LaunchStep::Finish(
                    LaunchEnd {
                        result: Ok(self.base_url()),
                        status: Some(StatusEvent::new("ready", None)),
                        needs_reaper: true,
                    },
                );
            },
            (LaunchStep::Poll, LaunchEvent::NotReady) => {
                self.step = LaunchStep::CheckExit;
            },
            (LaunchStep::CheckExit, LaunchEvent::Exited { status, log }) => {
                state.inner = None;
                let tail = log_tail(&log);
                let mut message = "sd-server exited early (".to_string();
                message.append(status.as_str());
                message.append("): ");
                message.append(tail.as_str());
                self.step =
                LaunchStep::Finish(
                    LaunchEnd {
                        result: Err(message),
                        status: Some(StatusEvent::new("error", Some(tail))),
                        needs_reaper: false,
                    },
                );
            },
            (LaunchStep::CheckExit, LaunchEvent::Running { now }) => {
                self.step = if now >= self.deadline {
                    LaunchStep::Stop
                } else {
                    LaunchStep::Sleep
                };
            },
            (LaunchStep::Sleep, LaunchEvent::Woke) => {
                self.step = LaunchStep::Poll;
            },
            (LaunchStep::Stop, LaunchEvent::Stopped) => {
                self.step =
                LaunchStep::Finish(
                    LaunchEnd {
                        result: Err(
                            "Timed out waiting for sd-server to load the model".to_string(),
                        ),
                        status: None,
                        needs_reaper: false,
                    },
                );
            },
            _ => {},
        }
    }

    /// Uses the server at hand where it serves, and lets go of it where it does not.
    fn probed(&mut self, state: &mut SdcppState, alive: bool, now: u128)
        requires
            old(self).step == LaunchStep::Probe,
        ensures
            final(self).plan == old(self).plan,
            final(self)@ == launch_after(
                old(self)@,
                old(state)@,
                EventView::Probed { alive, now },
            ),
            final(state)@ == server_after(old(self)@, old(state)@, EventView::Probed { alive, now }),
            final(state).reaper_started == old(state).reaper_started,
    {
        match state.inner.take() {
            Some(mut proc) => {
                if alive && proc.ready && text_eq(
                    proc.config_fingerprint.as_str(),
                    self.plan.fingerprint.as_str(),
                ) {
                    proc.last_used = now;
                    self.step =
                    LaunchStep::Finish(
                        LaunchEnd {
                            result: Ok(server_base_url(proc.port)),
                            status: None,
                            needs_reaper: false,
                        },
                    );
                    state.inner = Some(proc);
                } else {
                    self.step = LaunchStep::Clear;
                }
            },
            None => {
                self.step = LaunchStep::Spawn;
            },
        }
    }
}

/// The server at hand has loaded its model.
fn mark_ready(state: &mut SdcppState, now: u128)
    ensures
        final(state)@ == (match old(state)@ {
            Some(server) => Some(ServerView { ready: true, last_used: now, ..server }),
            None => None,
        }),
        final(state).reaper_started == old(state).reaper_started,
{
    match state.inner.take() {
        Some(mut proc) => {
            proc.ready = true;
            proc.last_used = now;
            state.inner = Some(proc);
        },
        None => {},
    }
}

// ----------------------------------------------------------------------------
// Stopping
// ----------------------------------------------------------------------------

/// The status to tell of when `server`, if there is one, is stopped.
pub open spec fn told_of_stop(server: Option<ServerView>) -> Option<StatusView> {
    match server {
        Some(_) => Some(StatusView { phase: "stopped"@, detail: None }),
        None => None,
    }
}

/// Lets go of the server at hand, if there is one. Its process is then to be
/// killed, and the status returned to be told of.
pub fn sdcpp_stop_server(state: &mut SdcppState) -> (status: Option<StatusEvent>)
    ensures
        status_view(status) == told_of_stop(old(state)@),
        final(state)@ is None,
        final(state).reaper_started == old(state).reaper_started,
        status_view(status) == (match old(state)@ {
            Some(_) => Some(StatusView { phase: "stopped"@, detail: None }),
            None => None,
        }),
{
    match state.inner.take() {
        Some(_) => Some(StatusEvent::new("stopped", None)),
        None => None,
    }
}

/// Lets go of the server at hand, if there is one, as the application ends. Tells
/// whether there is a process to be killed.
pub fn shutdown(state: &mut SdcppState) -> (kill: bool)
    ensures
        final(state)@ is None,
        final(state).reaper_started == old(state).reaper_started,
        kill == (old(state)@ is Some),
{
    match state.inner.take() {
        Some(_) => true,
        None => false,
    }
}

/// The server at hand, if there is one, after it was used.
pub open spec fn used_at(server: Option<ServerView>, now: u128) -> Option<ServerView> {
    match server {
        Some(server) => Some(ServerView { last_used: now, ..server }),
        None => None,
    }
}

/// The server at hand was used.
pub fn mark_used(state: &mut SdcppState, now: u128)
    ensures
        final(state)@ == used_at(old(state)@, now),
        final(state).reaper_started == old(state).reaper_started,
{
    match state.inner.take() {
        Some(mut proc) => {
            proc.last_used = now;
            state.inner = Some(proc);
        },
        None => {},
    }
}

/// Whether the watch for idle servers is to be started now: it is, once.
pub fn claim_reaper(state: &mut SdcppState) -> (start: bool)
    ensures
        start == !old(state).reaper_started,
        final(state).reaper_started,
        final(state)@ == old(state)@,
{
    let start = !state.reaper_started;
    state.reaper_started = true;
    start
}

/// The minutes that an idle server is kept; for ever where there are none. Where
/// the configuration cannot be read it is kept as by default.
pub open spec fn keep_alive_of(config: Option<SdcppConfig>) -> u32 {
    match config {
        Some(config) => match config.keep_alive_minutes {
            Some(minutes) => minutes,
            None => DEFAULT_KEEP_ALIVE_MINUTES,
        },
        None => DEFAULT_KEEP_ALIVE_MINUTES,
    }
}

/// A server last used at `last_used` has been idle for more than `minutes`.
pub open spec fn is_idle(last_used: u128, now: u128, minutes: u32) -> bool {
    now - last_used > minutes * 60_000_000_000
}

/// The server at hand, if there is one, is to be stopped for being idle.
pub open spec fn is_expired(server: Option<ServerView>, minutes: u32, now: u128) -> bool {
    server is Some && minutes > 0 && is_idle(server->0.last_used, now, minutes)
}

/// Lets go of the server at hand where it has been idle for too long. Its process
/// is then to be killed, and the status returned to be told of. `config` is the
/// configuration, where it could be read.
pub fn reap_idle(state: &mut SdcppState, config: &Option<SdcppConfig>, now: u128) -> (status:
    Option<StatusEvent>)
    ensures
        final(state).reaper_started == old(state).reaper_started,
        is_expired(old(state)@, keep_alive_of(*config), now) ==> final(state)@ is None
            && status_view(status) == Some(
            StatusView { phase: "stopped"@, detail: Some("idle"@) },
        ),
        !is_expired(old(state)@, keep_alive_of(*config), now) ==> final(state)@ == old(state)@
            && status is None,
{
    let keep_alive: u32 = match config {
        Some(config) => match config.keep_alive_minutes {
            Some(minutes) => minutes,
            None => DEFAULT_KEEP_ALIVE_MINUTES,
        },
        None => DEFAULT_KEEP_ALIVE_MINUTES,
    };
    if keep_alive == 0 {
        return None;
    }
    let expired = match &state.inner {
        Some(proc) => now >= proc.last_used && now - proc.last_used > keep_alive as u128
            * 60_000_000_000,
        None => false,
    };
    if expired {
        state.inner = None;
        Some(StatusEvent::new("stopped", Some("idle".to_string())))
    } else {
        None
    }
}

// ----------------------------------------------------------------------------
// Configuration and status
// ----------------------------------------------------------------------------

/// A server for `previous` cannot go on under `config`.
pub open spec fn needs_restart(previous: SdcppConfig, config: SdcppConfig) -> bool {
    fingerprint(previous) != fingerprint(config) || previous.port != config.port
}

/// A change of configuration.
#[derive(Debug, Clone, PartialEq)]
pub struct ConfigChange {
    /// The configuration to store.
    pub config: SdcppConfig,
    /// The server is to be stopped once that is stored.
    pub stop: bool,
}

/// What is to be done for `config` to take the place of `previous`, where that could be
/// read.
pub open spec fn change_to(
    previous: Result<SdcppConfig, String>,
    config: SdcppConfig,
) -> Result<ConfigChange, String> {
    match previous {
        Ok(previous) => Ok(ConfigChange { config, stop: needs_restart(previous, config) }),
        Err(message) => Err(message),
    }
}

/// What is to be done for `config` to take the place of `previous`. Where the
/// configuration in force cannot be read, nothing is: it is not overwritten.
pub fn sdcpp_set_config(previous: Result<SdcppConfig, String>, config: SdcppConfig) -> (change:
    Result<ConfigChange, String>)
    ensures
        change == change_to(previous, config),
        previous matches Err(message) ==> change == Err::<ConfigChange, String>(message),
        previous matches Ok(previous) ==> change == Ok::<ConfigChange, String>(
            ConfigChange { config, stop: needs_restart(previous, config) },
        ),
{
    match previous {
        Ok(previous) => {
            let stop = server_must_restart(&previous, &config);
            Ok(ConfigChange { config, stop })
        },
        Err(message) => Err(message),
    }
}

impl ConfigChange {
    /// Whether the server is to be stopped, where `written` tells what came of storing
    /// the configuration.
    pub fn stored(&self, written: Result<(), String>) -> (stop: Result<bool, String>)
        ensures
            written matches Err(message) ==> stop == Err::<bool, String>(message),
            written is Ok ==> stop == Ok::<bool, String>(self.stop),
    {
        match written {
            Ok(()) => Ok(self.stop),
            Err(message) => Err(message),
        }
    }
}

/// Whether the server is to be stopped when `config` takes the place of `previous`.
fn server_must_restart(previous: &SdcppConfig, config: &SdcppConfig) -> (stop: bool)
    ensures
        stop == needs_restart(*previous, *config),
{
    let before = config_fingerprint(previous);
    let after = config_fingerprint(config);
    !text_eq(before.as_str(), after.as_str()) || !same_port(previous.port, config.port)
}

fn same_port(a: Option<u16>, b: Option<u16>) -> (same: bool)
    ensures
        same == (a == b),
{
    match (a, b) {
        (Some(a), Some(b)) => a == b,
        (None, None) => true,
        _ => false,
    }
}

/// What is installed, configured and running.
#[derive(Debug, Clone, PartialEq)]
pub struct SdcppStatus {
    pub binary_installed: bool,
    pub binary_tag: Option<String>,
    pub binary_backend: Option<String>,
    pub model_configured: bool,
    pub server_running: bool,
    pub server_ready: bool,
    pub base_url: Option<String>,
}

/// What is installed, configured and running, as the contracts speak of it.
pub struct SdcppStatusView {
    pub binary_installed: bool,
    pub binary_tag: Option<Seq<char>>,
    pub binary_backend: Option<Seq<char>>,
    pub model_configured: bool,
    pub server_running: bool,
    pub server_ready: bool,
    pub base_url: Option<Seq<char>>,
}

impl View for SdcppStatus {
    type V = SdcppStatusView;

    open spec fn view(&self) -> SdcppStatusView {
        SdcppStatusView {
            binary_installed: self.binary_installed,
            binary_tag: text_view(self.binary_tag),
            binary_backend: text_view(self.binary_backend),
            model_configured: self.model_configured,
            server_running: self.server_running,
            server_ready: self.server_ready,
            base_url: text_view(self.base_url),
        }
    }
}

/// The server that is left at hand, where `alive` tells whether its process is.
pub open spec fn server_left(server: Option<ServerView>, alive: bool) -> Option<ServerView> {
    if alive {
        server
    } else {
        None
    }
}

/// How things stand, where `server` is at hand and `install` is installed.
pub open spec fn report_of(
    server: Option<ServerView>,
    config: SdcppConfig,
    install: Option<BinaryInstall>,
) -> SdcppStatusView {
    SdcppStatusView {
        binary_installed: install is Some,
        binary_tag: match install {
            Some(install) => Some(install.tag@),
            None => None,
        },
        binary_backend: match install {
            Some(install) => Some(install.backend@),
            None => None,
        },
        model_configured: config.names_model(),
        server_running: server is Some,
        server_ready: match server {
            Some(server) => server.ready,
            None => false,
        },
        base_url: match server {
            Some(server) => Some(base_url(server.port)),
            None => None,
        },
    }
}

/// What is installed, configured and running, where `alive` tells whether the
/// process of the server at hand is. A server whose process is dead is let go of.
pub fn sdcpp_get_status(
    state: &mut SdcppState,
    config: &SdcppConfig,
    install: Option<BinaryInstall>,
    alive: bool,
) -> (status: SdcppStatus)
    ensures
        final(state)@ == server_left(old(state)@, alive),
        final(state).reaper_started == old(state).reaper_started,
        status@ == report_of(final(state)@, *config, install),
        status.binary_installed == (install is Some),
        status.binary_tag == (match install {
            Some(install) => Some(install.tag),
            None => None,
        }),
        status.binary_backend == (match install {
            Some(install) => Some(install.backend),
            None => None,
        }),
        status.model_configured == config.names_model(),
        status.server_running == (final(state)@ is Some),
        status.server_ready == (final(state)@ is Some && final(state)@->0.ready),
        text_view(status.base_url) == (match final(state)@ {
            Some(server) => Some(base_url(server.port)),
            None => None,
        }),
{
    if !alive {
        state.inner = None;
    }
    let (running, ready, url) = match &state.inner {
        Some(proc) => (true, proc.ready, Some(server_base_url(proc.port))),
        None => (false, false, None),
    };
    let (installed, tag, backend) = match install {
        Some(install) => (true, Some(install.tag), Some(install.backend)),
        None => (false, None, None),
    };
    SdcppStatus {
        binary_installed: installed,
        binary_tag: tag,
        binary_backend: backend,
        model_configured: config.has_model(),
        server_running: running,
        server_ready: ready,
        base_url: url,
    }
}

// ----------------------------------------------------------------------------
// Laws
// ----------------------------------------------------------------------------

/// One moment of a launch: the server that was at hand, which others may have
/// changed since the last one, and what came of the step.
pub struct Moment {
    pub server: Option<ServerView>,
    pub event: EventView,
}

/// A launch after one moment and another.
pub open spec fn launch_through(launch: LaunchView, moments: Seq<Moment>) -> LaunchView
    decreases moments.len(),
{
    if moments.len() == 0 {
        launch
    } else {
        let before = launch_through(launch, moments.drop_last());
        launch_after(before, moments.last().server, moments.last().event)
    }
}

/// The launch is over, and there is a server at `url`.
pub open spec fn succeeded(launch: LaunchView, url: Seq<char>) -> bool {
    launch.step matches StepView::Finish(end) && end.result == Ok::<Seq<char>, Seq<char>>(url)
}

/// At this moment `launch` learnt that a server at `url` is there for it: the one at
/// hand is alive, ready and of the same fingerprint, or its own told that it is
/// ready.
pub open spec fn shows_server(launch: LaunchView, moment: Moment, url: Seq<char>) -> bool {
    match moment.event {
        EventView::Probed { alive, now: _ } => alive && serves(moment.server, launch) && url
            == base_url(moment.server->0.port),
        EventView::Ready { now: _ } => url == base_url(launch.port),
        _ => false,
    }
}

/// No launch gives the address of a server that was not there: whatever came, and
/// whatever others did in between, a launch that gives an address has at some
/// moment learnt of the server at that address.
pub proof fn success_needs_a_server(launch: LaunchView, moments: Seq<Moment>, url: Seq<char>)
    requires
        launch.step == StepView::Probe,
        succeeded(launch_through(launch, moments), url),
    ensures
        exists|i: int|
            0 <= i < moments.len() && shows_server(launch, #[trigger] moments[i], url),
    decreases moments.len(),
{
    let earlier = moments.drop_last();
    let before = launch_through(launch, earlier);
    lemma_launch_keeps_its_plan(launch, earlier);
    if succeeded(before, url) {
        success_needs_a_server(launch, earlier, url);
        let i = choose|i: int|
            0 <= i < earlier.len() && shows_server(launch, #[trigger] earlier[i], url);
        assert(moments[i] == earlier[i]);
    } else {
        let last = moments[moments.len() - 1];
        assert(shows_server(launch, last, url));
    }
}

proof fn lemma_launch_keeps_its_plan(launch: LaunchView, moments: Seq<Moment>)
    ensures
        launch_through(launch, moments).port == launch.port,
        launch_through(launch, moments).fingerprint == launch.fingerprint,
    decreases moments.len(),
{
    if moments.len() > 0 {
        lemma_launch_keeps_its_plan(launch, moments.drop_last());
    }
}

/// A launch that is over stays over, and leaves the server at hand alone.
pub proof fn finished_launch_is_final(
    launch: LaunchView,
    server: Option<ServerView>,
    event: EventView,
)
    requires
        launch.step is Finish,
    ensures
        launch_after(launch, server, event) == launch,
        server_after(launch, server, event) == server,
{
}

/// What is at hand while a launch goes on with nobody interfering: nothing until it
/// starts a server; then that server, which is not ready; in the end a server that
/// is ready at the address given, or, where the launch failed, nothing.
pub open spec fn is_in_order(launch: LaunchView, server: Option<ServerView>) -> bool {
    match launch.step {
        StepView::Probe => true,
        StepView::Clear | StepView::Spawn => server is None,
        StepView::Finish(end) => match end.result {
            Ok(url) => serves(server, launch) && url == base_url(server->0.port),
            Err(_) => server is None,
        },
        _ => server is Some && !server->0.ready && server->0.port == launch.port
            && server->0.fingerprint == launch.fingerprint,
    }
}

/// A launch that nobody interferes with stays in order, so it ends either with the
/// address of a ready server at hand that was started for the same fingerprint, or
/// with an error and no server at hand. The server is stopped, and so is gone,
/// before that is told.
pub proof fn undisturbed_launch_stays_in_order(
    launch: LaunchView,
    server: Option<ServerView>,
    event: EventView,
)
    requires
        is_in_order(launch, server),
    ensures
        ({
            let at_hand = if launch.step == StepView::Stop && event == EventView::Stopped {
                None
            } else {
                server
            };
            is_in_order(
                launch_after(launch, at_hand, event),
                server_after(launch, at_hand, event),
            )
        }),
{
}

/// A launch gives up only once its time has passed, and its time is counted from
/// when the server was told to be loading.
pub proof fn giving_up_takes_its_time(
    launch: LaunchView,
    server: Option<ServerView>,
    event: EventView,
)
    requires
        launch.step != StepView::Stop,
        step_after(launch, server, event) == StepView::Stop,
    ensures
        launch.step == StepView::CheckExit,
        event matches EventView::Running { now } && now >= launch.deadline,
{
}

/// A server that was started stays usable: once a launch has started it and it told
/// that it is ready, with nobody interfering, a second launch for the same
/// fingerprint uses it. It starts nothing, gives the same address, and all that
/// changes is when the server was last used.
pub proof fn started_server_is_reused(
    launch: LaunchView,
    second: LaunchView,
    started: u128,
    announced: u128,
    ready: u128,
    later: u128,
)
    requires
        launch.step == StepView::Spawn,
        second.step == StepView::Probe,
        second.fingerprint == launch.fingerprint,
    ensures
        ({
            let a = launch_after(launch, None, EventView::Spawned { now: started });
            let after_a = server_after(launch, None, EventView::Spawned { now: started });
            let b = launch_after(a, after_a, EventView::Announced { now: announced });
            let after_b = server_after(a, after_a, EventView::Announced { now: announced });
            let c = launch_after(b, after_b, EventView::Ready { now: ready });
            let after_c = server_after(b, after_b, EventView::Ready { now: ready });
            let probe = EventView::Probed { alive: true, now: later };
            let d = launch_after(second, after_c, probe);
            &&& succeeded(c, base_url(launch.port))
            &&& d.step == ended(Ok(base_url(launch.port)))
            &&& server_after(second, after_c, probe) == Some(
                ServerView {
                    port: launch.port,
                    fingerprint: launch.fingerprint,
                    ready: true,
                    last_used: later,
                },
            )
        }),
{
}

/// A server that does not serve is replaced: where its process is dead, it is not
/// ready or it was started for another fingerprint, a launch lets go of it, kills
/// its process and starts another.
pub proof fn unfit_server_is_replaced(
    launch: LaunchView,
    server: ServerView,
    alive: bool,
    now: u128,
)
    requires
        launch.step == StepView::Probe,
        !alive || !server.ready || server.fingerprint != launch.fingerprint,
    ensures
        ({
            let probe = EventView::Probed { alive, now };
            let next = launch_after(launch, Some(server), probe);
            &&& server_after(launch, Some(server), probe) is None
            &&& next.step == StepView::Clear
            &&& launch_after(next, None, EventView::Cleared).step == StepView::Spawn
        }),
{
}

/// A server that is used is not stopped for being idle until the time that it is
/// kept has passed since then.
pub proof fn used_server_is_kept(server: ServerView, used: u128, now: u128, minutes: u32)
    requires
        now <= used + minutes * 60_000_000_000,
    ensures
        !is_expired(Some(ServerView { last_used: used, ..server }), minutes, now),
{
}

/// A server that may stay for ever is never stopped for being idle.
pub proof fn unlimited_server_is_kept(server: Option<ServerView>, now: u128)
    ensures
        !is_expired(server, 0, now),
{
}

/// An idle server is stopped in the end: once the time that it is kept has passed,
/// it is at every later look.
pub proof fn idle_server_expires(server: ServerView, minutes: u32, now: u128, later: u128)
    requires
        is_expired(Some(server), minutes, now),
        now <= later,
    ensures
        is_expired(Some(server), minutes, later),
{
}

/// Servers on different ports have different addresses.
pub proof fn address_tells_the_port(a: u16, b: u16)
    requires
        base_url(a) == base_url(b),
    ensures
        a == b,
{
    let start = "http://127.0.0.1:"@;
    let n = start.len() as int;
    assert(base_url(a).skip(n) =~= decimal(a as nat));
    assert(base_url(b).skip(n) =~= decimal(b as nat));
    crate::text::lemma_decimal_injective(a as nat, b as nat);
}

/// A change of configuration that lets the server run on changes nothing that it was
/// started with: where the fingerprint decides, the command line under the new
/// configuration is the old one.
pub proof fn running_server_fits_new_config(previous: SdcppConfig, config: SdcppConfig)
    requires
        crate::config::fingerprint_decides(previous, config),
        !needs_restart(previous, config),
    ensures
        config.chosen_port() == previous.chosen_port(),
        server_args(config, config.chosen_port()) == server_args(
            previous,
            previous.chosen_port(),
        ),
{
    crate::config::same_fingerprint_same_server(previous, config, config.chosen_port());
}

/// The event is an answer to what the launch waits for.
pub open spec fn answers(step: StepView, event: EventView) -> bool {
    match step {
        StepView::Probe => event is Probed,
        StepView::Clear => event is Cleared,
        StepView::Spawn => event is Spawned || event is SpawnFailed,
        StepView::Announce => event is Announced,
        StepView::Poll => event is Ready || event is NotReady,
        StepView::CheckExit => event is Exited || event is Running,
        StepView::Sleep => event is Woke,
        StepView::Stop => event is Stopped,
        StepView::Finish(_) => false,
    }
}

/// An answer leads a launch on to another step, and what is no answer changes nothing,
/// neither the launch nor the server at hand. The port and the fingerprint of a launch
/// never change, and its deadline only when the server is told to be loading.
pub proof fn only_answers_lead_on(
    launch: LaunchView,
    server: Option<ServerView>,
    event: EventView,
)
    ensures
        ({
            let next = launch_after(launch, server, event);
            &&& answers(launch.step, event) <==> next.step != launch.step
            &&& !answers(launch.step, event) ==> next == launch && server_after(
                launch,
                server,
                event,
            ) == server
            &&& next.port == launch.port && next.fingerprint == launch.fingerprint
            &&& next.deadline != launch.deadline ==> launch.step is Announce
        }),
{
}

/// A server that is alive, ready and started for the same fingerprint is used as it is:
/// the launch ends with the address of its port and tells of nothing, and all that
/// changes is when the server was last used. Any other server is let go of, and where
/// none is at hand one is started.
pub proof fn a_server_that_fits_is_used(
    launch: LaunchView,
    server: Option<ServerView>,
    alive: bool,
    now: u128,
)
    requires
        launch.step == StepView::Probe,
    ensures
        ({
            let probe = EventView::Probed { alive, now };
            let next = launch_after(launch, server, probe).step;
            let left = server_after(launch, server, probe);
            match server {
                Some(server) => if alive && server.ready && server.fingerprint
                    == launch.fingerprint {
                    &&& next == StepView::Finish(
                        EndView {
                            result: Ok(base_url(server.port)),
                            status: None,
                            needs_reaper: false,
                        },
                    )
                    &&& left is Some
                    &&& left->0.port == server.port && left->0.ready && left->0.fingerprint
                        == launch.fingerprint && left->0.last_used == now
                } else {
                    next == StepView::Clear && left is None
                },
                None => next == StepView::Spawn && left is None,
            }
        }),
{
}

/// A server that is started is the launch's own, and is not taken for ready: whether it
/// is has to be asked for. Where it cannot be started, the launch ends with the reason
/// and leaves what is at hand.
pub proof fn a_started_server_is_not_ready_yet(
    launch: LaunchView,
    server: Option<ServerView>,
    message: Seq<char>,
    started: u128,
    announced: u128,
)
    requires
        launch.step == StepView::Spawn,
    ensures
        ({
            let spawned = EventView::Spawned { now: started };
            let next = launch_after(launch, server, spawned);
            let left = server_after(launch, server, spawned);
            let told = EventView::Announced { now: announced };
            &&& left is Some
            &&& left->0.port == launch.port && !left->0.ready && left->0.fingerprint
                == launch.fingerprint && left->0.last_used == started
            &&& next.step == StepView::Announce
            &&& launch_after(next, left, told).step == StepView::Poll
            &&& server_after(next, left, told) == left
        }),
        ({
            let failure = EventView::SpawnFailed { message };
            &&& launch_after(launch, server, failure).step == StepView::Finish(
                EndView { result: Err(message), status: None, needs_reaper: false },
            )
            &&& server_after(launch, server, failure) == server
        }),
{
}

/// Once the server tells that it is ready, the launch ends with its address, that is told
/// of, and the watch for idle servers is asked for; the server at hand, if nobody stopped
/// it, is ready and was used just now.
pub proof fn a_ready_server_is_given(launch: LaunchView, server: Option<ServerView>, now: u128)
    requires
        launch.step == StepView::Poll,
    ensures
        ({
            let ready = EventView::Ready { now };
            let left = server_after(launch, server, ready);
            &&& launch_after(launch, server, ready).step == StepView::Finish(
                EndView {
                    result: Ok(base_url(launch.port)),
                    status: Some(StatusView { phase: "ready"@, detail: None }),
                    needs_reaper: true,
                },
            )
            &&& left is Some <==> server is Some
            &&& left is Some ==> left->0.ready && left->0.last_used == now && left->0.port
                == server->0.port && left->0.fingerprint == server->0.fingerprint
            &&& launch_after(launch, server, EventView::NotReady).step == StepView::CheckExit
        }),
{
}

/// A server whose process ends before it is ready is let go of, and the launch ends with
/// how it ended and the last lines that it left, which are told of too.
pub proof fn a_server_that_dies_leaves_its_last_lines(
    launch: LaunchView,
    server: Option<ServerView>,
    status: Seq<char>,
    log: Option<Seq<char>>,
)
    requires
        launch.step == StepView::CheckExit,
    ensures
        ({
            let exit = EventView::Exited { status, log };
            let tail = tail_of(log);
            &&& server_after(launch, server, exit) is None
            &&& launch_after(launch, server, exit).step == StepView::Finish(
                EndView {
                    result: Err("sd-server exited early ("@ + status + "): "@ + tail),
                    status: Some(StatusView { phase: "error"@, detail: Some(tail) }),
                    needs_reaper: false,
                },
            )
        }),
{
}

/// Of a log the last twelve lines are told, one below the other; all of them where there
/// are no more, and nothing where there is no log.
pub proof fn last_twelve_lines_are_told(
    log: Seq<char>,
    earlier: Seq<Seq<char>>,
    last: Seq<Seq<char>>,
)
    requires
        lines(log) == earlier + last,
        last.len() == 12 || earlier.len() == 0 && last.len() < 12,
    ensures
        tail_of(Some(log)) == joined(last, "\n"@),
        tail_of(None).len() == 0,
{
    if earlier.len() > 0 {
        assert(lines(log).skip(lines(log).len() - 12) =~= last);
    } else {
        assert(lines(log) =~= last);
    }
}

/// A server that hangs is given up: at every look at or after the deadline at which its
/// process still runs, the launch goes on to stop it, and then ends with an error. At a
/// look before the deadline it waits and asks again.
pub proof fn a_server_that_hangs_is_given_up(
    launch: LaunchView,
    server: Option<ServerView>,
    now: u128,
)
    requires
        launch.step == StepView::CheckExit,
    ensures
        ({
            let next = launch_after(launch, server, EventView::Running { now });
            &&& now >= launch.deadline ==> next.step == StepView::Stop && launch_after(
                next,
                None,
                EventView::Stopped,
            ).step == StepView::Finish(
                EndView {
                    result: Err("Timed out waiting for sd-server to load the model"@),
                    status: None,
                    needs_reaper: false,
                },
            )
            &&& now < launch.deadline ==> next.step == StepView::Sleep && launch_after(
                next,
                server,
                EventView::Woke,
            ) == (LaunchView { step: StepView::Poll, ..launch })
            &&& server_after(launch, server, EventView::Running { now }) == server
        }),
{
}

/// A launch that was asking its server after it learnt, at each of the times `looks`, that
/// the server is not ready and that its process still runs, and slept.
pub open spec fn launch_after_looks(
    launch: LaunchView,
    server: Option<ServerView>,
    looks: Seq<u128>,
) -> LaunchView
    decreases looks.len(),
{
    if looks.len() == 0 {
        launch
    } else {
        let before = launch_after_looks(launch, server, looks.drop_last());
        let asked = launch_after(before, server, EventView::NotReady);
        let looked = launch_after(asked, server, EventView::Running { now: looks.last() });
        launch_after(looked, server, EventView::Woke)
    }
}

/// A launch waits for 300 seconds, and no longer: counted from when the server was told to
/// be loading, it goes on asking as long as all its looks come earlier than that, and
/// from the first look on that comes no earlier it stops the server.
pub proof fn a_launch_waits_for_300_seconds(
    launch: LaunchView,
    server: Option<ServerView>,
    announced: u128,
    looks: Seq<u128>,
)
    requires
        launch.step == StepView::Announce,
    ensures
        ({
            let told = launch_after(launch, server, EventView::Announced { now: announced });
            let late = exists|i: int|
                0 <= i < looks.len() && #[trigger] looks[i] >= announced + 300_000_000_000;
            &&& late ==> launch_after_looks(told, server, looks).step == StepView::Stop
            &&& !late ==> launch_after_looks(told, server, looks) == told && told.step
                == StepView::Poll
        }),
    decreases looks.len(),
{
    if looks.len() > 0 {
        let rest = looks.drop_last();
        let n = looks.len() - 1;
        a_launch_waits_for_300_seconds(launch, server, announced, rest);
        let limit = announced + 300_000_000_000;
        if exists|i: int| 0 <= i < rest.len() && #[trigger] rest[i] >= limit {
            let i = choose|i: int| 0 <= i < rest.len() && #[trigger] rest[i] >= limit;
            assert(looks[i] >= limit);
        } else if looks[n] >= limit {
        } else {
            assert forall|i: int| 0 <= i < looks.len() implies #[trigger] looks[i] < limit by {
                if i < n {
                    assert(rest[i] == looks[i]);
                }
            }
        }
    }
}

/// That a server is starting is told before it is started, and that it loads its model
/// after that; an end is told of where there is something to tell, and no other step is.
pub proof fn a_launch_is_told_of(step: StepView)
    ensures
        step == StepView::Spawn ==> told_before(step) == Some(
            StatusView { phase: "starting"@, detail: None },
        ),
        step == StepView::Announce ==> told_before(step) == Some(
            StatusView { phase: "loading_model"@, detail: None },
        ),
        step matches StepView::Finish(end) ==> told_before(step) == end.status,
        !(step is Spawn || step is Announce || step is Finish) ==> told_before(step) is None,
{
}

/// An idle server is kept for as long as is configured: for the minutes that are named,
/// for ever where zero is, and for ten minutes where none are or the configuration
/// cannot be read. After that it is stopped at every look.
pub proof fn an_idle_server_is_kept_as_configured(
    server: ServerView,
    config: Option<SdcppConfig>,
    now: u128,
)
    ensures
        ({
            let stopped = is_expired(Some(server), keep_alive_of(config), now);
            let idle = now - server.last_used;
            let named = config is Some && config->0.keep_alive_minutes is Some;
            &&& !named ==> (stopped <==> idle > 600_000_000_000)
            &&& named && config->0.keep_alive_minutes->0 == 0 ==> !stopped
            &&& named && config->0.keep_alive_minutes->0 > 0 ==> (stopped <==> idle
                > config->0.keep_alive_minutes->0 * 60_000_000_000)
            &&& !is_expired(None, keep_alive_of(config), now)
        }),
{
}

/// To use a server starts its time anew, and changes nothing else: it is not stopped for
/// being idle until all the time that it is kept has passed since.
pub proof fn use_starts_the_time_anew(
    server: ServerView,
    config: Option<SdcppConfig>,
    used: u128,
    now: u128,
)
    ensures
        ({
            let after = used_at(Some(server), used);
            &&& after is Some
            &&& after->0.port == server.port && after->0.fingerprint == server.fingerprint
                && after->0.ready == server.ready && after->0.last_used == used
            &&& now <= used + 60_000_000_000 ==> !is_expired(after, keep_alive_of(config), now)
            &&& used_at(None, used) is None
        }),
{
}

/// The address of a server is one on this machine, at its port, written in decimal.
pub proof fn a_server_is_addressed_by_its_port(port: u16)
    ensures
        exists|digits: Seq<char>|
            base_url(port) == #[trigger] ("http://127.0.0.1:"@ + digits) && value_of(digits)
                == port && digits.len() > 0 && (digits.len() > 1 ==> digits[0] != '0'),
{
    crate::text::decimal_is_read_back(port as nat);
    assert(base_url(port) == "http://127.0.0.1:"@ + decimal(port as nat));
}

/// A change of configuration stops the server exactly where it changes something that the
/// server is started with, where no path holds a bar.
pub proof fn a_change_stops_a_server_it_concerns(previous: SdcppConfig, config: SdcppConfig)
    requires
        crate::config::names_no_bar(previous),
        crate::config::names_no_bar(config),
    ensures
        needs_restart(previous, config) <==> previous.port != config.port
            || !crate::config::is_set_alike(previous, config),
{
    crate::config::fingerprint_changes_with_each_setting(previous, config);
}

/// How things stand is told as it is: a server counts as running while its process is
/// alive, and is told with its address then; it counts as ready only while it runs; and
/// the installation is told by its tag and backend.
pub proof fn what_stands_is_told(
    server: Option<ServerView>,
    config: SdcppConfig,
    install: Option<BinaryInstall>,
    alive: bool,
)
    ensures
        ({
            let left = server_left(server, alive);
            let told = report_of(left, config, install);
            &&& alive ==> left == server
            &&& !alive ==> left is None
            &&& told.server_running == (alive && server is Some)
            &&& told.server_ready == (told.server_running && server->0.ready)
            &&& told.base_url is Some <==> told.server_running
            &&& told.server_running ==> told.base_url == Some(base_url(server->0.port))
            &&& told.binary_installed == (install is Some)
            &&& install matches Some(install) ==> told.binary_tag == Some(install.tag@)
                && told.binary_backend == Some(install.backend@)
            &&& install is None ==> told.binary_tag is None && told.binary_backend is None
            &&& told.model_configured == (crate::config::is_shown(config.full_model_path)
                || crate::config::is_shown(config.diffusion_model_path))
        }),
{
    crate::config::the_full_model_comes_first(config, 0);
}

/// A server is launched exactly where a model is configured and the server is installed;
/// else what is wanting is told, the model first.
pub proof fn a_launch_is_refused_for_what_is_wanting(config: SdcppConfig, installed: bool)
    ensures
        ({
            let model = crate::config::is_shown(config.full_model_path)
                || crate::config::is_shown(config.diffusion_model_path);
            let refusal = launch_refusal(config, installed);
            &&& refusal is None <==> model && installed
            &&& !model ==> refusal == Some(
                "No local diffusion model configured. Pick a model in Settings → Image Generation."@,
            )
            &&& model && !installed ==> refusal == Some(
                "sd.cpp runtime is not installed. Download it in Settings → Image Generation."@,
            )
        }),
{
    crate::config::the_full_model_comes_first(config, 0);
}

/// What is run is the executable that is installed, and it is told to listen on the very
/// port that it is asked on afterwards: the one that is named, or else 17861.
pub proof fn a_server_listens_where_it_is_asked(config: SdcppConfig, install: BinaryInstall)
    ensures
        ({
            let plan = plan_for(config, install);
            &&& plan.executable == install.executable@
            &&& plan.fingerprint == fingerprint(config)
            &&& plan.port == (match config.port {
                Some(port) => port,
                None => 17861u16,
            })
            &&& exists|i: int|
                0 <= i && i + 1 < plan.args.len() && #[trigger] plan.args[i] == "--listen-port"@
                    && value_of(plan.args[i + 1]) == plan.port
        }),
{
    let plan = plan_for(config, install);
    let port = config.chosen_port();
    crate::config::lemma_port_is_listened_on(config, port);
    crate::text::decimal_is_read_back(port as nat);
    let i = choose|i: int|
        0 <= i && i + 1 < plan.args.len() && #[trigger] plan.args[i] == "--listen-port"@
            && plan.args[i + 1] == decimal(port as nat);
    assert(plan.args[i] == "--listen-port"@);
}

/// A server is asked four hundred times before it is given up, and an idle one is looked at
/// often enough to be stopped a minute late at the latest.
pub proof fn pauses_are_short_enough(server: ServerView, minutes: u32, look: u128)
    requires
        minutes > 0,
        !is_expired(Some(server), minutes, look),
    ensures
        400 * POLL_INTERVAL_MILLIS * 1_000_000 == 300_000_000_000,
        look + IDLE_CHECK_SECS * 1_000_000_000 - server.last_used <= (minutes + 1)
            * 60_000_000_000,
        IDLE_CHECK_SECS > 0,
{
}

/// A configuration is stored as it was given, whatever was stored before; and where what is
/// stored cannot be read, it is left alone and the reason told. The server is stopped
/// where another port is named, and never where the same is stored again.
pub proof fn a_config_is_stored_as_given(
    previous: Result<SdcppConfig, String>,
    config: SdcppConfig,
)
    ensures
        previous is Ok ==> change_to(previous, config) is Ok,
        change_to(previous, config) matches Ok(change) ==> previous is Ok && change.config
            == config && (previous->Ok_0.port != config.port ==> change.stop) && (previous->Ok_0
            == config ==> !change.stop),
        previous matches Err(message) ==> change_to(previous, config) == Err::<
            ConfigChange,
            String,
        >(message),
{
}

/// That a server was stopped is told exactly where there was one.
pub proof fn a_stop_is_told_once(server: Option<ServerView>)
    ensures
        told_of_stop(server) is Some <==> server is Some,
        told_of_stop(server) matches Some(status) ==> status.phase == "stopped"@ && status.detail
            is None,
{
}

} // verus!
