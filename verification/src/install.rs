//! The installation of the server, step by step: the running one is stopped, the
//! backend is chosen, the newest release is looked up, what fits is downloaded and
//! unpacked, and the executable found in it is remembered.

use crate::events::{text_view, StatusEvent, StatusView};
use crate::json::{json_of, Json};
use crate::platform::{
    depends_on_gpu, is_automatic, needs_gpu_probe, requested_backend, resolve_backend,
    resolved_backend, Platform,
};
use crate::release::{
    finish_install, no_asset_message, planned, sdcpp_download_binary, tag_of, BinaryInstall,
    DownloadPlan, PlanView,
};
use crate::server::{result_view, status_view};
use crate::walk::{lies_inside, searched, EntryView};
use vstd::prelude::*;

verus! {

/// What is downloaded: the server, or the CUDA runtime beside it.
#[derive(Debug, Clone, Copy, PartialEq, Eq, Structural)]
pub enum Part {
    Server,
    Runtime,
}

/// What an installation waits for.
#[derive(Debug, PartialEq)]
pub enum InstallStep {
    /// Stop the server that runs.
    StopServer,
    /// Look whether there is an NVIDIA GPU.
    ProbeGpu,
    /// Tell that the server is being downloaded, and look up the newest release.
    FetchRelease,
    /// Empty the directory that the server is kept in.
    ClearDirectory,
    Download(Part),
    /// Unpack what was downloaded.
    Unpack(Part),
    /// Delete what was downloaded.
    RemoveArchive(Part),
    /// Make the files that were unpacked executable.
    MakeExecutable,
    /// Look for the server among them.
    FindExecutable,
    /// Remember the installation.
    WriteMarker(BinaryInstall),
    /// Nothing: the installation is over, with the tag of what was installed, or why
    /// nothing was.
    Finish(Result<String, String>),
}

/// What came of a step.
#[derive(Debug, PartialEq)]
pub enum InstallEvent {
    Done,
    Failed { message: String },
    /// Whether there is an NVIDIA GPU.
    Probed { nvidia_gpu: bool },
    /// The description of the newest release.
    Fetched { release: serde_json::Value },
    /// The server, if there is one among the files.
    Found { executable: Option<String> },
}

/// An installation under way.
#[derive(Debug, PartialEq)]
pub struct Install {
    pub platform: Platform,
    /// The backend asked for.
    pub requested: String,
    /// The backend chosen; empty until it is.
    pub backend: String,
    /// What is to be downloaded, once that is known.
    pub plan: Option<DownloadPlan>,
    pub step: InstallStep,
}

/// What is remembered of an installation, as the contracts speak of it.
pub struct MarkerView {
    pub tag: Seq<char>,
    pub backend: Seq<char>,
    pub executable: Seq<char>,
}

/// What an installation waits for, as the contracts speak of it.
pub enum InstallStepView {
    StopServer,
    ProbeGpu,
    FetchRelease,
    ClearDirectory,
    Download(Part),
    Unpack(Part),
    RemoveArchive(Part),
    MakeExecutable,
    FindExecutable,
    WriteMarker(MarkerView),
    Finish(Result<Seq<char>, Seq<char>>),
}

/// What came of a step, as the contracts speak of it.
pub enum InstallEventView {
    Done,
    Failed { message: Seq<char> },
    Probed { nvidia_gpu: bool },
    Fetched { release: Json },
    Found { executable: Option<Seq<char>> },
}

/// An installation, as the contracts speak of it.
pub struct InstallView {
    pub platform: Platform,
    pub requested: Seq<char>,
    pub backend: Seq<char>,
    pub plan: Option<PlanView>,
    pub step: InstallStepView,
}

impl View for BinaryInstall {
    type V = MarkerView;

    open spec fn view(&self) -> MarkerView {
        MarkerView { tag: self.tag@, backend: self.backend@, executable: self.executable@ }
    }
}

impl View for InstallStep {
    type V = InstallStepView;

    open spec fn view(&self) -> InstallStepView {
        match *self {
            InstallStep::StopServer => InstallStepView::StopServer,
            InstallStep::ProbeGpu => InstallStepView::ProbeGpu,
            InstallStep::FetchRelease => InstallStepView::FetchRelease,
            InstallStep::ClearDirectory => InstallStepView::ClearDirectory,
            InstallStep::Download(part) => InstallStepView::Download(part),
            InstallStep::Unpack(part) => InstallStepView::Unpack(part),
            InstallStep::RemoveArchive(part) => InstallStepView::RemoveArchive(part),
            InstallStep::MakeExecutable => InstallStepView::MakeExecutable,
            InstallStep::FindExecutable => InstallStepView::FindExecutable,
            InstallStep::WriteMarker(marker) => InstallStepView::WriteMarker(marker@),
            InstallStep::Finish(result) => InstallStepView::Finish(result_view(result)),
        }
    }
}

impl View for InstallEvent {
    type V = InstallEventView;

    open spec fn view(&self) -> InstallEventView {
        match *self {
            InstallEvent::Done => InstallEventView::Done,
            InstallEvent::Failed { message } => InstallEventView::Failed { message: message@ },
            InstallEvent::Probed { nvidia_gpu } => InstallEventView::Probed { nvidia_gpu },
            InstallEvent::Fetched { release } => InstallEventView::Fetched {
                release: json_of(release),
            },
            InstallEvent::Found { executable } => InstallEventView::Found {
                executable: text_view(executable),
            },
        }
    }
}

impl View for Install {
    type V = InstallView;

    open spec fn view(&self) -> InstallView {
        InstallView {
            platform: self.platform,
            requested: self.requested@,
            backend: self.backend@,
            plan: match self.plan {
                Some(plan) => Some(plan@),
                None => None,
            },
            step: self.step@,
        }
    }
}

/// The message where what was unpacked holds no server.
pub open spec fn no_executable_message() -> Seq<char> {
    "Downloaded archive did not contain an sd-server executable"@
}

/// The installation is over for want of something.
pub open spec fn failed(message: Seq<char>) -> InstallStepView {
    InstallStepView::Finish(Err(message))
}

/// What follows once an archive is dealt with: the CUDA runtime after the server,
/// where it is to be downloaded, and else the files that were unpacked.
pub open spec fn step_after_archive(install: InstallView, part: Part) -> InstallStepView {
    if part == Part::Server && install.plan is Some && install.plan->0.runtime is Some {
        InstallStepView::Download(Part::Runtime)
    } else {
        InstallStepView::MakeExecutable
    }
}

/// What an installation waits for after `event`. An event that does not answer what
/// it waits for changes nothing. That an archive could not be deleted is let pass.
pub open spec fn install_step_after(
    install: InstallView,
    event: InstallEventView,
) -> InstallStepView {
    match (install.step, event) {
        (InstallStepView::StopServer, InstallEventView::Done) => if depends_on_gpu(
            install.requested,
            install.platform,
        ) {
            InstallStepView::ProbeGpu
        } else {
            InstallStepView::FetchRelease
        },
        (InstallStepView::ProbeGpu, InstallEventView::Probed { .. }) =>
            InstallStepView::FetchRelease,
        (InstallStepView::FetchRelease, InstallEventView::Fetched { release }) => match planned(
            release,
            install.backend,
            install.platform,
        ) {
            Some(_) => InstallStepView::ClearDirectory,
            None => failed(no_asset_message(install.backend)),
        },
        (InstallStepView::FetchRelease, InstallEventView::Failed { message }) => failed(message),
        (InstallStepView::ClearDirectory, InstallEventView::Done) => InstallStepView::Download(
            Part::Server,
        ),
        (InstallStepView::ClearDirectory, InstallEventView::Failed { message }) => failed(message),
        (InstallStepView::Download(part), InstallEventView::Done) => InstallStepView::Unpack(part),
        (InstallStepView::Download(_), InstallEventView::Failed { message }) => failed(message),
        (InstallStepView::Unpack(part), InstallEventView::Done) => InstallStepView::RemoveArchive(
            part,
        ),
        (InstallStepView::Unpack(_), InstallEventView::Failed { message }) => failed(message),
        (InstallStepView::RemoveArchive(part), InstallEventView::Done) => step_after_archive(
            install,
            part,
        ),
        (InstallStepView::RemoveArchive(part), InstallEventView::Failed {
            ..
        }) => step_after_archive(install, part),
        (InstallStepView::MakeExecutable, InstallEventView::Done) =>
            InstallStepView::FindExecutable,
        (InstallStepView::MakeExecutable, InstallEventView::Failed { message }) => failed(message),
        (InstallStepView::FindExecutable, InstallEventView::Failed { message }) => failed(message),
        (InstallStepView::FindExecutable, InstallEventView::Found { executable }) => match (
            executable,
            install.plan,
        ) {
            (Some(executable), Some(plan)) => InstallStepView::WriteMarker(
                MarkerView { tag: plan.tag, backend: plan.backend, executable },
            ),
            _ => failed(no_executable_message()),
        },
        (InstallStepView::WriteMarker(marker), InstallEventView::Done) => InstallStepView::Finish(
            Ok(marker.tag),
        ),
        (InstallStepView::WriteMarker(_), InstallEventView::Failed { message }) => failed(message),
        _ => install.step,
    }
}

/// What is to be downloaded after `event`.
pub open spec fn plan_after(install: InstallView, event: InstallEventView) -> Option<PlanView> {
    match (install.step, event) {
        (InstallStepView::FetchRelease, InstallEventView::Fetched { release }) => planned(
            release,
            install.backend,
            install.platform,
        ),
        _ => install.plan,
    }
}

/// The backend chosen, after `event`.
pub open spec fn backend_after(install: InstallView, event: InstallEventView) -> Seq<char> {
    match (install.step, event) {
        (InstallStepView::StopServer, InstallEventView::Done) if !depends_on_gpu(
            install.requested,
            install.platform,
        ) => resolved_backend(install.requested, install.platform, false),
        (InstallStepView::ProbeGpu, InstallEventView::Probed { nvidia_gpu }) => resolved_backend(
            install.requested,
            install.platform,
            nvidia_gpu,
        ),
        _ => install.backend,
    }
}

/// An installation after `event`.
pub open spec fn install_after(install: InstallView, event: InstallEventView) -> InstallView {
    InstallView {
        backend: backend_after(install, event),
        plan: plan_after(install, event),
        step: install_step_after(install, event),
        ..install
    }
}

/// The status to tell of before the step is done.
pub open spec fn told_of(install: InstallView) -> Option<StatusView> {
    match install.step {
        InstallStepView::FetchRelease => Some(
            StatusView { phase: "downloading_binary"@, detail: Some(install.backend) },
        ),
        InstallStepView::Finish(Ok(tag)) => Some(
            StatusView { phase: "binary_ready"@, detail: Some(tag) },
        ),
        _ => None,
    }
}

impl Install {
    /// An installation of the server on `platform`, for the backend `requested` if one
    /// is named.
    pub fn new(requested: Option<String>, platform: Platform) -> (install: Install)
        ensures
            requested is Some ==> install.requested == requested->0,
            requested is None ==> install.requested@ == "auto"@,
            install.platform == platform,
            install.backend@.len() == 0,
            install.plan is None,
            install.step == InstallStep::StopServer,
    {
        Install {
            platform,
            requested: requested_backend(requested),
            backend: String::new(),
            plan: None,
            step: InstallStep::StopServer,
        }
    }

    /// The status to tell of before the step is done.
    pub fn announcement(&self) -> (status: Option<StatusEvent>)
        ensures
            status_view(status) == told_of(self@),
    {
        match &self.step {
            InstallStep::FetchRelease => Some(
                StatusEvent::new("downloading_binary", Some(self.backend.clone())),
            ),
            InstallStep::Finish(Ok(tag)) => Some(
                StatusEvent::new("binary_ready", Some(tag.clone())),
            ),
            _ => None,
        }
    }

    /// Takes in what came of the step that the installation waited for.
    pub fn advance(&mut self, event: InstallEvent)
        ensures
            final(self)@ == install_after(old(self)@, event@),
    {
        match (&self.step, event) {
            (InstallStep::StopServer, InstallEvent::Done) => {
                if needs_gpu_probe(self.requested.as_str(), self.platform) {
                    self.step = InstallStep::ProbeGpu;
                } else {
                    self.choose_backend(false);
                }
            },
            (InstallStep::ProbeGpu, InstallEvent::Probed { nvidia_gpu }) => {
                self.choose_backend(nvidia_gpu);
            },
            (InstallStep::FetchRelease, InstallEvent::Fetched { release }) => {
                match sdcpp_download_binary(&release, self.backend.as_str(), self.platform) {
                    Ok(plan) => {
                        self.plan = Some(plan);
                        self.step = InstallStep::ClearDirectory;
                    },
                    Err(message) => {
                        self.plan = None;
                        self.step = InstallStep::Finish(Err(message));
                    },
                }
            },
            (InstallStep::FetchRelease, InstallEvent::Failed { message }) => {
                self.step = InstallStep::Finish(Err(message));
            },
            (InstallStep::ClearDirectory, InstallEvent::Done) => {
                self.step = InstallStep::Download(Part::Server);
            },
            (InstallStep::ClearDirectory, InstallEvent::Failed { message }) => {
                self.step = InstallStep::Finish(Err(message));
            },
            (InstallStep::Download(part), InstallEvent::Done) => {
                self.step = InstallStep::Unpack(*part);
            },
            (InstallStep::Download(_), InstallEvent::Failed { message }) => {
                self.step = InstallStep::Finish(Err(message));
            },
            (InstallStep::Unpack(part), InstallEvent::Done) => {
                self.step = InstallStep::RemoveArchive(*part);
            },
            (InstallStep::Unpack(_), InstallEvent::Failed { message }) => {
                self.step = InstallStep::Finish(Err(message));
            },
            (InstallStep::RemoveArchive(part), InstallEvent::Done) => {
                self.step = self.after_archive(*part);
            },
            (InstallStep::RemoveArchive(part), InstallEvent::Failed { .. }) => {
                self.step = self.after_archive(*part);
            },
            (InstallStep::MakeExecutable, InstallEvent::Done) => {
                self.step = InstallStep::FindExecutable;
            },
            (InstallStep::MakeExecutable, InstallEvent::Failed { message }) => {
                self.step = InstallStep::Finish(Err(message));
            },
            (InstallStep::FindExecutable, InstallEvent::Failed { message }) => {
                self.step = InstallStep::Finish(Err(message));
            },
            (InstallStep::FindExecutable, InstallEvent::Found { executable }) => {
                self.step = self.after_search(executable);
            },
            (InstallStep::WriteMarker(marker), InstallEvent::Done) => {
                self.step = InstallStep::Finish(Ok(marker.tag.clone()));
            },
            (InstallStep::WriteMarker(_), InstallEvent::Failed { message }) => {
                self.step = InstallStep::Finish(Err(message));
            },
            _ => {},
        }
    }

    /// Chooses the backend, and goes on with the release.
    fn choose_backend(&mut self, nvidia_gpu: bool)
        ensures
            final(self)@ == (InstallView {
                backend: resolved_backend(old(self)@.requested, old(self)@.platform, nvidia_gpu),
                step: InstallStepView::FetchRelease,
                ..old(self)@
            }),
    {
        self.backend = resolve_backend(self.requested.as_str(), self.platform, nvidia_gpu);
        self.step = InstallStep::FetchRelease;
    }

    /// What follows once the archive of `part` is dealt with.
    fn after_archive(&self, part: Part) -> (step: InstallStep)
        ensures
            step@ == step_after_archive(self@, part),
    {
        match &self.plan {
            Some(plan) => if part == Part::Server && plan.runtime.is_some() {
                InstallStep::Download(Part::Runtime)
            } else {
                InstallStep::MakeExecutable
            },
            None => InstallStep::MakeExecutable,
        }
    }

    /// What follows once the server was looked for.
    fn after_search(&self, executable: Option<String>) -> (step: InstallStep)
        ensures
            step@ == (match (text_view(executable), self@.plan) {
                (Some(executable), Some(plan)) => InstallStepView::WriteMarker(
                    MarkerView { tag: plan.tag, backend: plan.backend, executable },
                ),
                _ => failed(no_executable_message()),
            }),
    {
        match &self.plan {
            Some(plan) => match finish_install(
                plan.tag.as_str(),
                plan.backend.as_str(),
                executable,
            ) {
                Ok(marker) => InstallStep::WriteMarker(marker),
                Err(message) => InstallStep::Finish(Err(message)),
            },
            None => InstallStep::Finish(
                Err("Downloaded archive did not contain an sd-server executable".to_string()),
            ),
        }
    }
}

// ----------------------------------------------------------------------------
// Laws
// ----------------------------------------------------------------------------

/// An installation after one event and another.
pub open spec fn install_through(
    install: InstallView,
    events: Seq<InstallEventView>,
) -> InstallView
    decreases events.len(),
{
    if events.len() == 0 {
        install
    } else {
        install_after(install_through(install, events.drop_last()), events.last())
    }
}

/// Among `events` there is one that answers `step`: at some time the installation waited
/// for `step`, and `event` came.
#[verifier::opaque]
pub open spec fn happened(
    start: InstallView,
    events: Seq<InstallEventView>,
    step: InstallStepView,
    event: InstallEventView,
) -> bool {
    exists|i: int|
        0 <= i < events.len() && install_through(start, events.take(i)).step == step
            && #[trigger] events[i] == event
}

/// The step was done.
pub open spec fn was_done(
    start: InstallView,
    events: Seq<InstallEventView>,
    step: InstallStepView,
) -> bool {
    happened(start, events, step, InstallEventView::Done)
}

/// The backend was chosen as the one asked for demands, with a look at the GPU where
/// that counts.
pub open spec fn is_chosen(
    start: InstallView,
    events: Seq<InstallEventView>,
    backend: Seq<char>,
) -> bool {
    if depends_on_gpu(start.requested, start.platform) {
        exists|nvidia_gpu: bool|
            #![trigger resolved_backend(start.requested, start.platform, nvidia_gpu)]
            backend == resolved_backend(start.requested, start.platform, nvidia_gpu) && happened(
                start,
                events,
                InstallStepView::ProbeGpu,
                InstallEventView::Probed { nvidia_gpu },
            )
    } else {
        backend == resolved_backend(start.requested, start.platform, false)
    }
}

/// A release was looked up, and `plan` is what is to be downloaded of it for `backend`.
pub open spec fn is_planned(
    start: InstallView,
    events: Seq<InstallEventView>,
    backend: Seq<char>,
    plan: PlanView,
) -> bool {
    exists|release: Json|
        planned(release, backend, start.platform) == Some(plan) && #[trigger] happened(
            start,
            events,
            InstallStepView::FetchRelease,
            InstallEventView::Fetched { release },
        )
}

/// The installation is over, and has failed.
pub open spec fn has_failed(step: InstallStepView) -> bool {
    match step {
        InstallStepView::Finish(Err(_)) => true,
        _ => false,
    }
}

/// How far along a step is.
pub open spec fn stage(step: InstallStepView) -> int {
    match step {
        InstallStepView::StopServer => 0,
        InstallStepView::ProbeGpu => 1,
        InstallStepView::FetchRelease => 2,
        InstallStepView::ClearDirectory => 3,
        InstallStepView::Download(Part::Server) => 4,
        InstallStepView::Unpack(Part::Server) => 5,
        InstallStepView::RemoveArchive(Part::Server) => 6,
        InstallStepView::Download(Part::Runtime) => 7,
        InstallStepView::Unpack(Part::Runtime) => 8,
        InstallStepView::RemoveArchive(Part::Runtime) => 9,
        InstallStepView::MakeExecutable => 10,
        InstallStepView::FindExecutable => 11,
        InstallStepView::WriteMarker(_) => 12,
        InstallStepView::Finish(_) => 13,
    }
}

/// `marker` is what this installation is to be remembered by.
pub open spec fn is_marker(
    start: InstallView,
    events: Seq<InstallEventView>,
    now: InstallView,
    marker: MarkerView,
) -> bool {
    &&& now.plan is Some
    &&& marker.tag == now.plan->0.tag
    &&& marker.backend == now.backend
    &&& happened(
        start,
        events,
        InstallStepView::FindExecutable,
        InstallEventView::Found { executable: Some(marker.executable) },
    )
}

/// What lies behind an installation that has come as far as `now`: unless it failed,
/// each step before was done in its time.
pub open spec fn is_backed(
    start: InstallView,
    events: Seq<InstallEventView>,
    now: InstallView,
) -> bool {
    let step = now.step;
    let at = stage(step);
    has_failed(step) || {
        &&& at >= 1 ==> was_done(start, events, InstallStepView::StopServer)
        &&& at >= 2 ==> is_chosen(start, events, now.backend)
        &&& at >= 3 ==> now.plan is Some && is_planned(start, events, now.backend, now.plan->0)
        &&& at >= 4 ==> was_done(start, events, InstallStepView::ClearDirectory)
        &&& at >= 5 ==> was_done(start, events, InstallStepView::Download(Part::Server))
        &&& at >= 6 ==> was_done(start, events, InstallStepView::Unpack(Part::Server))
        &&& 7 <= at <= 9 ==> now.plan->0.runtime is Some
        &&& (at >= 8 && now.plan->0.runtime is Some) ==> was_done(
            start,
            events,
            InstallStepView::Download(Part::Runtime),
        )
        &&& (at >= 9 && now.plan->0.runtime is Some) ==> was_done(
            start,
            events,
            InstallStepView::Unpack(Part::Runtime),
        )
        &&& at >= 11 ==> was_done(start, events, InstallStepView::MakeExecutable)
        &&& step matches InstallStepView::WriteMarker(marker) ==> is_marker(
            start,
            events,
            now,
            marker,
        )
        &&& step matches InstallStepView::Finish(Ok(tag)) ==> exists|marker: MarkerView|
            marker.tag == tag && is_marker(start, events, now, marker) && #[trigger] was_done(
                start,
                events,
                InstallStepView::WriteMarker(marker),
            )
    }
}

/// Nothing is remembered, and no installation succeeds, before its time: whatever came
/// of the steps, an installation that has come to some step and has not failed has done
/// each step before it.
pub proof fn installation_is_backed(start: InstallView, events: Seq<InstallEventView>)
    requires
        start.step == InstallStepView::StopServer,
    ensures
        is_backed(start, events, install_through(start, events)),
    decreases events.len(),
{
    if events.len() > 0 {
        let before = install_through(start, events.drop_last());
        installation_is_backed(start, events.drop_last());
        lemma_install_keeps_its_aim(start, events.drop_last());
        lemma_what_happened_last(start, events);
        if install_step_after(before, events.last()) == before.step {
            lemma_backing_stays(start, events, before);
            lemma_idle_event_changes_nothing(before, events.last());
        } else {
            lemma_backing_grows(start, events, before);
        }
    }
}

/// An event that leaves the step leaves all.
proof fn lemma_idle_event_changes_nothing(install: InstallView, event: InstallEventView)
    requires
        install_step_after(install, event) == install.step,
    ensures
        install_after(install, event) == install,
{
}

/// The last event answers the step that the installation had come to.
proof fn lemma_what_happened_last(start: InstallView, events: Seq<InstallEventView>)
    requires
        events.len() > 0,
    ensures
        happened(
            start,
            events,
            install_through(start, events.drop_last()).step,
            events.last(),
        ),
{
    reveal(happened);
    let n = events.len() - 1;
    assert(events.take(n) =~= events.drop_last());
    assert(events[n] == events.last());
}

/// An event that leads on adds to what lies behind an installation what the next step
/// needs.
proof fn lemma_backing_grows(
    start: InstallView,
    events: Seq<InstallEventView>,
    before: InstallView,
)
    requires
        events.len() > 0,
        is_backed(start, events.drop_last(), before),
        happened(start, events, before.step, events.last()),
        before.requested == start.requested,
        before.platform == start.platform,
        install_step_after(before, events.last()) != before.step,
    ensures
        is_backed(start, events, install_after(before, events.last())),
{
    let event = events.last();
    let now = install_after(before, event);
    lemma_backing_stays(start, events, before);
    match before.step {
        InstallStepView::FetchRelease => {
            if event is Fetched && now.plan is Some {
                let release = event->release;
                assert(planned(release, before.backend, start.platform) == now.plan);
                assert(happened(
                    start,
                    events,
                    InstallStepView::FetchRelease,
                    InstallEventView::Fetched { release },
                ));
                assert(is_planned(start, events, now.backend, now.plan->0));
            }
        },
        InstallStepView::WriteMarker(marker) => {
            if event is Done {
                assert(is_marker(start, events, now, marker));
                assert(was_done(start, events, InstallStepView::WriteMarker(marker)));
            }
        },
        _ => {},
    }
}

proof fn lemma_what_happened_stays(
    start: InstallView,
    events: Seq<InstallEventView>,
    step: InstallStepView,
    event: InstallEventView,
)
    requires
        events.len() > 0,
        happened(start, events.drop_last(), step, event),
    ensures
        happened(start, events, step, event),
{
    reveal(happened);
    let rest = events.drop_last();
    let i = choose|i: int|
        0 <= i < rest.len() && install_through(start, rest.take(i)).step == step
            && #[trigger] rest[i] == event;
    assert(rest.take(i) =~= events.take(i));
    assert(events[i] == event);
}

proof fn lemma_choice_stays(
    start: InstallView,
    events: Seq<InstallEventView>,
    backend: Seq<char>,
)
    requires
        events.len() > 0,
        is_chosen(start, events.drop_last(), backend),
    ensures
        is_chosen(start, events, backend),
{
    if depends_on_gpu(start.requested, start.platform) {
        let nvidia_gpu = choose|nvidia_gpu: bool|
            #![trigger resolved_backend(start.requested, start.platform, nvidia_gpu)]
            backend == resolved_backend(start.requested, start.platform, nvidia_gpu) && happened(
                start,
                events.drop_last(),
                InstallStepView::ProbeGpu,
                InstallEventView::Probed { nvidia_gpu },
            );
        lemma_what_happened_stays(
            start,
            events,
            InstallStepView::ProbeGpu,
            InstallEventView::Probed { nvidia_gpu },
        );
    }
}

proof fn lemma_plan_stays(
    start: InstallView,
    events: Seq<InstallEventView>,
    backend: Seq<char>,
    plan: PlanView,
)
    requires
        events.len() > 0,
        is_planned(start, events.drop_last(), backend, plan),
    ensures
        is_planned(start, events, backend, plan),
{
    let release = choose|release: Json|
        planned(release, backend, start.platform) == Some(plan) && #[trigger] happened(
            start,
            events.drop_last(),
            InstallStepView::FetchRelease,
            InstallEventView::Fetched { release },
        );
    lemma_what_happened_stays(
        start,
        events,
        InstallStepView::FetchRelease,
        InstallEventView::Fetched { release },
    );
}

/// One more event takes nothing away from what lies behind an installation.
proof fn lemma_backing_stays(
    start: InstallView,
    events: Seq<InstallEventView>,
    now: InstallView,
)
    requires
        events.len() > 0,
        is_backed(start, events.drop_last(), now),
    ensures
        is_backed(start, events, now),
{
    let rest = events.drop_last();
    assert forall|step: InstallStepView, past: InstallEventView| #[trigger]
        happened(start, rest, step, past) implies happened(start, events, step, past) by {
        lemma_what_happened_stays(start, events, step, past);
    }
    if !has_failed(now.step) {
        if stage(now.step) >= 2 {
            lemma_choice_stays(start, events, now.backend);
        }
        if stage(now.step) >= 3 {
            lemma_plan_stays(start, events, now.backend, now.plan->0);
        }
        if now.step is Finish {
            let tag = now.step->Finish_0->Ok_0;
            let marker = choose|marker: MarkerView|
                marker.tag == tag && is_marker(start, rest, now, marker) && #[trigger] was_done(
                    start,
                    rest,
                    InstallStepView::WriteMarker(marker),
                );
            assert(was_done(start, events, InstallStepView::WriteMarker(marker)));
        }
    }
}

/// An installation that succeeded is remembered: what was written down is the tag told,
/// which is that of a release that was looked up, the backend chosen, which is no longer
/// left open, and the executable found. The directory had been emptied first, and the
/// server of that release unpacked into it.
pub proof fn success_is_remembered(
    start: InstallView,
    events: Seq<InstallEventView>,
    tag: Seq<char>,
)
    requires
        start.step == InstallStepView::StopServer,
        install_through(start, events).step == InstallStepView::Finish(Ok(tag)),
    ensures
        exists|marker: MarkerView, release: Json|
            {
                &&& #[trigger] was_done(start, events, InstallStepView::WriteMarker(marker))
                &&& #[trigger] happened(
                    start,
                    events,
                    InstallStepView::FetchRelease,
                    InstallEventView::Fetched { release },
                )
                &&& marker.tag == tag && tag == tag_of(release)
                &&& is_chosen(start, events, marker.backend)
                &&& !is_automatic(marker.backend)
                &&& planned(release, marker.backend, start.platform) is Some
                &&& happened(
                    start,
                    events,
                    InstallStepView::FindExecutable,
                    InstallEventView::Found { executable: Some(marker.executable) },
                )
            },
        was_done(start, events, InstallStepView::ClearDirectory),
        was_done(start, events, InstallStepView::Unpack(Part::Server)),
{
    let now = install_through(start, events);
    installation_is_backed(start, events);
    let marker = choose|marker: MarkerView|
        marker.tag == tag && is_marker(start, events, now, marker) && #[trigger] was_done(
            start,
            events,
            InstallStepView::WriteMarker(marker),
        );
    let release = choose|release: Json|
        planned(release, now.backend, start.platform) == Some(now.plan->0) && #[trigger] happened(
            start,
            events,
            InstallStepView::FetchRelease,
            InstallEventView::Fetched { release },
        );
    if depends_on_gpu(start.requested, start.platform) {
        crate::platform::chosen_backend_is_named(start.requested, start.platform, true);
        crate::platform::chosen_backend_is_named(start.requested, start.platform, false);
    } else {
        crate::platform::chosen_backend_is_named(start.requested, start.platform, false);
    }
    assert(was_done(start, events, InstallStepView::WriteMarker(marker)));
    assert(happened(
        start,
        events,
        InstallStepView::FetchRelease,
        InstallEventView::Fetched { release },
    ));
}

/// Each time the server was looked for, what was told is what a search of `root` and all
/// below it comes to, where `listing` gives the entries of each directory.
pub open spec fn tells_what_is_found(
    start: InstallView,
    events: Seq<InstallEventView>,
    root: Seq<char>,
    steps: nat,
    listing: spec_fn(Seq<char>) -> Seq<EntryView>,
) -> bool {
    forall|executable: Option<Seq<char>>| #[trigger]
        happened(
            start,
            events,
            InstallStepView::FindExecutable,
            InstallEventView::Found { executable },
        ) ==> executable == searched(root, steps, start.platform, listing)
}

/// The executable that is remembered lies in the directory that was searched: it is a
/// server or a command line tool in that directory or below it. When it was looked for,
/// the directory had been emptied, and the server unpacked into it.
pub proof fn remembered_executable_lies_in_the_directory(
    start: InstallView,
    events: Seq<InstallEventView>,
    tag: Seq<char>,
    root: Seq<char>,
    steps: nat,
    listing: spec_fn(Seq<char>) -> Seq<EntryView>,
)
    requires
        start.step == InstallStepView::StopServer,
        install_through(start, events).step == InstallStepView::Finish(Ok(tag)),
        tells_what_is_found(start, events, root, steps, listing),
    ensures
        exists|marker: MarkerView, i: int|
            {
                &&& #[trigger] was_done(start, events, InstallStepView::WriteMarker(marker))
                &&& marker.tag == tag && is_chosen(start, events, marker.backend)
                &&& lies_inside(root, marker.executable, start.platform, listing)
                &&& 0 <= i < events.len()
                &&& #[trigger] events[i] == (InstallEventView::Found {
                    executable: Some(marker.executable),
                })
                &&& was_done(start, events.take(i), InstallStepView::ClearDirectory)
                &&& was_done(start, events.take(i), InstallStepView::Unpack(Part::Server))
                &&& was_done(start, events.take(i), InstallStepView::MakeExecutable)
            },
{
    let now = install_through(start, events);
    installation_is_backed(start, events);
    let marker = choose|marker: MarkerView|
        marker.tag == tag && is_marker(start, events, now, marker) && #[trigger] was_done(
            start,
            events,
            InstallStepView::WriteMarker(marker),
        );
    let found = InstallEventView::Found { executable: Some(marker.executable) };
    assert(happened(start, events, InstallStepView::FindExecutable, found));
    crate::walk::search_finds_only_what_is_inside(root, steps, start.platform, listing);
    let i = lemma_time_of(start, events, InstallStepView::FindExecutable, found);
    installation_is_backed(start, events.take(i));
}

/// The time at which `event` answered `step`.
proof fn lemma_time_of(
    start: InstallView,
    events: Seq<InstallEventView>,
    step: InstallStepView,
    event: InstallEventView,
) -> (i: int)
    requires
        happened(start, events, step, event),
    ensures
        0 <= i < events.len(),
        install_through(start, events.take(i)).step == step,
        events[i] == event,
{
    reveal(happened);
    choose|i: int|
        0 <= i < events.len() && install_through(start, events.take(i)).step == step
            && #[trigger] events[i] == event
}

proof fn lemma_install_keeps_its_aim(start: InstallView, events: Seq<InstallEventView>)
    ensures
        install_through(start, events).requested == start.requested,
        install_through(start, events).platform == start.platform,
    decreases events.len(),
{
    if events.len() > 0 {
        lemma_install_keeps_its_aim(start, events.drop_last());
    }
}

/// A step that fails ends the installation with its message; only where an archive could
/// not be deleted does it go on.
pub proof fn failure_ends_an_installation(install: InstallView, message: Seq<char>)
    requires
        !(install.step is StopServer || install.step is ProbeGpu || install.step is RemoveArchive
            || install.step is Finish),
    ensures
        install_after(install, InstallEventView::Failed { message }).step == failed(message),
{
}

/// An installation all of whose steps succeed succeeds: it ends with the tag of the
/// release, and what is remembered is that tag, the backend and the executable found.
pub proof fn smooth_installation_succeeds(
    start: InstallView,
    nvidia_gpu: bool,
    release: Json,
    executable: Seq<char>,
)
    requires
        start.step == InstallStepView::StopServer,
        planned(
            release,
            resolved_backend(start.requested, start.platform, nvidia_gpu),
            start.platform,
        ) is Some,
    ensures
        ({
            let done = InstallEventView::Done;
            let backend = resolved_backend(start.requested, start.platform, nvidia_gpu);
            let plan = planned(release, backend, start.platform)->0;
            let stopped = install_after(start, done);
            let chosen = if depends_on_gpu(start.requested, start.platform) {
                install_after(stopped, InstallEventView::Probed { nvidia_gpu })
            } else {
                stopped
            };
            let fetched = install_after(chosen, InstallEventView::Fetched { release });
            let unpacked = install_after(install_after(install_after(fetched, done), done), done);
            let server = install_after(unpacked, done);
            let both = if plan.runtime is Some {
                install_after(install_after(install_after(server, done), done), done)
            } else {
                server
            };
            let found = install_after(
                install_after(both, done),
                InstallEventView::Found { executable: Some(executable) },
            );
            &&& found.step == InstallStepView::WriteMarker(
                MarkerView { tag: plan.tag, backend, executable },
            )
            &&& install_after(found, done).step == InstallStepView::Finish(Ok(plan.tag))
        }),
{
    if !depends_on_gpu(start.requested, start.platform) {
        crate::platform::unneeded_gpu_probe_is_ignored(start.requested, start.platform);
    }
}

/// The CUDA runtime is downloaded after the server on Windows with CUDA, where the
/// release has it, and never else.
pub proof fn runtime_comes_with_cuda_on_windows(
    release: Json,
    backend: Seq<char>,
    platform: Platform,
)
    ensures
        planned(release, backend, platform) matches Some(plan) ==> (plan.runtime is Some <==> (
        platform == Platform::Windows && backend == "cuda"@
            && crate::release::cuda_runtime_asset(release) is Some)),
{
}

/// The event is an answer to what the installation waits for.
pub open spec fn answers(step: InstallStepView, event: InstallEventView) -> bool {
    match step {
        InstallStepView::StopServer => event is Done,
        InstallStepView::ProbeGpu => event is Probed,
        InstallStepView::FetchRelease => event is Fetched || event is Failed,
        InstallStepView::FindExecutable => event is Found || event is Failed,
        InstallStepView::Finish(_) => false,
        _ => event is Done || event is Failed,
    }
}

/// An answer leads an installation on, and what is no answer changes nothing. What was
/// asked for never changes; the backend is settled before the release is looked up, and
/// the plan when it is.
pub proof fn only_answers_lead_an_installation_on(
    install: InstallView,
    event: InstallEventView,
)
    ensures
        ({
            let next = install_after(install, event);
            &&& answers(install.step, event) <==> next.step != install.step
            &&& !answers(install.step, event) ==> next == install
            &&& next.requested == install.requested && next.platform == install.platform
            &&& next.backend != install.backend ==> install.step is StopServer
                || install.step is ProbeGpu
            &&& next.plan != install.plan ==> install.step is FetchRelease
        }),
{
}

/// A release without a file that fits ends the installation, and so does an unpacked
/// release without an executable, each with its own message.
pub proof fn want_of_a_server_ends_an_installation(install: InstallView, release: Json)
    ensures
        install.step == InstallStepView::FetchRelease && planned(
            release,
            install.backend,
            install.platform,
        ) is None ==> install_after(install, InstallEventView::Fetched { release }).step
            == InstallStepView::Finish(
            Err(
                "No sd.cpp release asset found for this platform with backend '"@ + install.backend
                    + "'"@,
            ),
        ),
        install.step == InstallStepView::FindExecutable ==> install_after(
            install,
            InstallEventView::Found { executable: None },
        ).step == InstallStepView::Finish(
            Err("Downloaded archive did not contain an sd-server executable"@),
        ),
{
}

/// That a backend is being downloaded is told before the release is looked up, and that a
/// release is ready once all is done; a failure and the other steps are not told of.
pub proof fn an_installation_is_told_of(install: InstallView)
    ensures
        install.step == InstallStepView::FetchRelease ==> told_of(install) == Some(
            StatusView { phase: "downloading_binary"@, detail: Some(install.backend) },
        ),
        install.step matches InstallStepView::Finish(Ok(tag)) ==> told_of(install) == Some(
            StatusView { phase: "binary_ready"@, detail: Some(tag) },
        ),
        install.step matches InstallStepView::Finish(Err(_)) ==> told_of(install) is None,
        !(install.step is FetchRelease || install.step is Finish) ==> told_of(install) is None,
{
}

} // verus!
