//! The download of a file, step by step: what comes is written beside the target, and
//! takes its place once all has come.

use crate::events::download_json;
use crate::json::{json_of, Json};
use crate::release::{check_download_response, download_failed_message, Download};
use vstd::prelude::*;

verus! {

/// What a download waits for.
#[derive(Debug, PartialEq)]
pub enum TransferStep {
    /// Ask for the file.
    Request,
    /// Create the file beside the target.
    Create,
    /// Wait for the next bytes.
    Receive,
    /// Write that many bytes, which have come, to the file beside the target.
    Write(u64),
    /// Put that file in the place of the target.
    Replace,
    /// Nothing: the download is over, or why it failed.
    Finish(Result<(), String>),
}

/// What came of a step.
#[derive(Debug, Clone, PartialEq)]
pub enum TransferEvent {
    /// The answer to the request: whether it is good, how it puts that, and how many
    /// bytes it announces.
    Answered { success: bool, status: String, announced: Option<u64> },
    Created,
    /// That many bytes have come.
    Received { len: u64 },
    /// No more will come.
    Ended,
    /// The bytes are written, that many milliseconds after the last report.
    Written { millis: u128 },
    Replaced,
    Failed { message: String },
}

/// A file on its way.
#[derive(Debug, PartialEq)]
pub struct Transfer {
    pub url: String,
    pub download: Download,
    pub step: TransferStep,
}

/// A step, as the contracts speak of it.
pub enum TransferStepView {
    Request,
    Create,
    Receive,
    Write(u64),
    Replace,
    Finish(Result<(), Seq<char>>),
}

/// An event, as the contracts speak of it.
pub enum TransferEventView {
    Answered { success: bool, status: Seq<char>, announced: Option<u64> },
    Created,
    Received { len: u64 },
    Ended,
    Written { millis: u128 },
    Replaced,
    Failed { message: Seq<char> },
}

/// A file on its way, as the contracts speak of it.
pub struct TransferView {
    pub url: Seq<char>,
    pub label: Seq<char>,
    pub downloaded: int,
    pub total: u64,
    pub step: TransferStepView,
}

impl View for TransferStep {
    type V = TransferStepView;

    open spec fn view(&self) -> TransferStepView {
        match *self {
            TransferStep::Request => TransferStepView::Request,
            TransferStep::Create => TransferStepView::Create,
            TransferStep::Receive => TransferStepView::Receive,
            TransferStep::Write(len) => TransferStepView::Write(len),
            TransferStep::Replace => TransferStepView::Replace,
            TransferStep::Finish(result) => TransferStepView::Finish(
                match result {
                    Ok(()) => Ok(()),
                    Err(message) => Err(message@),
                },
            ),
        }
    }
}

impl View for TransferEvent {
    type V = TransferEventView;

    open spec fn view(&self) -> TransferEventView {
        match *self {
            TransferEvent::Answered { success, status, announced } => TransferEventView::Answered {
                success,
                status: status@,
                announced,
            },
            TransferEvent::Created => TransferEventView::Created,
            TransferEvent::Received { len } => TransferEventView::Received { len },
            TransferEvent::Ended => TransferEventView::Ended,
            TransferEvent::Written { millis } => TransferEventView::Written { millis },
            TransferEvent::Replaced => TransferEventView::Replaced,
            TransferEvent::Failed { message } => TransferEventView::Failed { message: message@ },
        }
    }
}

impl View for Transfer {
    type V = TransferView;

    open spec fn view(&self) -> TransferView {
        TransferView {
            url: self.url@,
            label: self.download.label@,
            downloaded: self.download.downloaded as int,
            total: self.download.total,
            step: self.step@,
        }
    }
}

/// What a download waits for after `event`. An event that does not answer what it waits
/// for changes nothing.
pub open spec fn transfer_step_after(
    transfer: TransferView,
    event: TransferEventView,
) -> TransferStepView {
    match (transfer.step, event) {
        (TransferStepView::Finish(_), _) => transfer.step,
        (_, TransferEventView::Failed { message }) => TransferStepView::Finish(Err(message)),
        (TransferStepView::Request, TransferEventView::Answered { success, status, .. }) =>
            if success {
                TransferStepView::Create
            } else {
                TransferStepView::Finish(Err(download_failed_message(status, transfer.url)))
            },
        (TransferStepView::Create, TransferEventView::Created) => TransferStepView::Receive,
        (TransferStepView::Receive, TransferEventView::Received { len }) => TransferStepView::Write(
            len,
        ),
        (TransferStepView::Receive, TransferEventView::Ended) => TransferStepView::Replace,
        (TransferStepView::Write(_), TransferEventView::Written { .. }) =>
            TransferStepView::Receive,
        (TransferStepView::Replace, TransferEventView::Replaced) => TransferStepView::Finish(
            Ok(()),
        ),
        _ => transfer.step,
    }
}

/// A download after `event`.
pub open spec fn transfer_after(transfer: TransferView, event: TransferEventView) -> TransferView {
    let next = TransferView { step: transfer_step_after(transfer, event), ..transfer };
    match (transfer.step, event) {
        (TransferStepView::Request, TransferEventView::Answered { success, announced, .. }) =>
            if success {
                TransferView {
                    downloaded: 0,
                    total: match announced {
                        Some(total) => total,
                        None => 0,
                    },
                    ..next
                }
            } else {
                next
            },
        (TransferStepView::Write(len), TransferEventView::Written { .. }) => TransferView {
            downloaded: transfer.downloaded + len,
            ..next
        },
        _ => next,
    }
}

/// The report to make on `event`, if one is due.
pub open spec fn report_on(transfer: TransferView, event: TransferEventView) -> Option<Json> {
    match (transfer.step, event) {
        (TransferStepView::Write(len), TransferEventView::Written { millis }) => if millis
            >= crate::release::REPORT_INTERVAL_MILLIS {
            Some(
                download_json(
                    transfer.label,
                    (transfer.downloaded + len) as u64,
                    transfer.total,
                    "downloading"@,
                ),
            )
        } else {
            None
        },
        (TransferStepView::Replace, TransferEventView::Replaced) => Some(
            download_json(
                transfer.label,
                transfer.downloaded as u64,
                transfer.total,
                "complete"@,
            ),
        ),
        _ => None,
    }
}

impl Transfer {
    /// A download of what is at `url`, told of as `label`.
    pub fn new(url: &str, label: &str) -> (transfer: Transfer)
        ensures
            transfer@ == (TransferView {
                url: url@,
                label: label@,
                downloaded: 0,
                total: 0,
                step: TransferStepView::Request,
            }),
    {
        Transfer {
            url: url.to_string(),
            download: Download::start(label, None),
            step: TransferStep::Request,
        }
    }

    /// Takes in what came of the step that the download waited for, and gives the report
    /// to make now, if one is due.
    pub fn advance(&mut self, event: TransferEvent) -> (report: Option<serde_json::Value>)
        requires
            old(self).step matches TransferStep::Write(len) ==> event is Written ==> old(
                self,
            ).download.downloaded + len <= u64::MAX,
        ensures
            final(self)@ == transfer_after(old(self)@, event@),
            report is Some <==> report_on(old(self)@, event@) is Some,
            report is Some ==> json_of(report->0) == report_on(old(self)@, event@)->0,
    {
        match (&self.step, event) {
            (TransferStep::Finish(_), _) => None,
            (_, TransferEvent::Failed { message }) => {
                self.step = TransferStep::Finish(Err(message));
                None
            },
            (TransferStep::Request, TransferEvent::Answered { success, status, announced }) => {
                match check_download_response(success, status.as_str(), self.url.as_str()) {
                    Ok(()) => {
                        self.download = Download::start(self.download.label.as_str(), announced);
                        self.step = TransferStep::Create;
                    },
                    Err(message) => {
                        self.step = TransferStep::Finish(Err(message));
                    },
                }
                None
            },
            (TransferStep::Create, TransferEvent::Created) => {
                self.step = TransferStep::Receive;
                None
            },
            (TransferStep::Receive, TransferEvent::Received { len }) => {
                self.step = TransferStep::Write(len);
                None
            },
            (TransferStep::Receive, TransferEvent::Ended) => {
                self.step = TransferStep::Replace;
                None
            },
            (TransferStep::Write(len), TransferEvent::Written { millis }) => {
                let report = self.download.receive(*len, millis);
                self.step = TransferStep::Receive;
                report
            },
            (TransferStep::Replace, TransferEvent::Replaced) => {
                self.step = TransferStep::Finish(Ok(()));
                Some(self.download.finish())
            },
            _ => None,
        }
    }
}

// ----------------------------------------------------------------------------
// Laws
// ----------------------------------------------------------------------------

/// A download after one event and another.
pub open spec fn transfer_through(
    transfer: TransferView,
    events: Seq<TransferEventView>,
) -> TransferView
    decreases events.len(),
{
    if events.len() == 0 {
        transfer
    } else {
        transfer_after(transfer_through(transfer, events.drop_last()), events.last())
    }
}

/// The target was replaced: at some time the download waited for that, and it was done.
pub open spec fn target_was_replaced(
    start: TransferView,
    events: Seq<TransferEventView>,
) -> bool {
    exists|i: int|
        0 <= i < events.len() && transfer_through(start, events.take(i)).step
            == TransferStepView::Replace && #[trigger] events[i] == TransferEventView::Replaced
}

/// The bytes that were written.
pub open spec fn bytes_written(start: TransferView, events: Seq<TransferEventView>) -> int
    decreases events.len(),
{
    if events.len() == 0 {
        0
    } else {
        let rest = events.drop_last();
        let step = transfer_through(start, rest).step;
        bytes_written(start, rest) + (match (step, events.last()) {
            (TransferStepView::Write(len), TransferEventView::Written { .. }) => len as int,
            _ => 0,
        })
    }
}

/// The target is replaced exactly where the download succeeds: one that fails, at
/// whatever step, or that is not over leaves the target alone.
pub proof fn failed_download_leaves_the_target(
    start: TransferView,
    events: Seq<TransferEventView>,
)
    requires
        start.step == TransferStepView::Request,
    ensures
        target_was_replaced(start, events) <==> transfer_through(start, events).step
            == TransferStepView::Finish(Ok(())),
    decreases events.len(),
{
    if events.len() > 0 {
        let rest = events.drop_last();
        let n = events.len() - 1;
        let before = transfer_through(start, rest);
        failed_download_leaves_the_target(start, rest);
        assert(events.take(n) =~= rest);
        assert(events[n] == events.last());
        if target_was_replaced(start, rest) {
            let i = choose|i: int|
                0 <= i < rest.len() && transfer_through(start, rest.take(i)).step
                    == TransferStepView::Replace && #[trigger] rest[i]
                    == TransferEventView::Replaced;
            assert(events.take(i) =~= rest.take(i));
            assert(events[i] == rest[i]);
        }
        if target_was_replaced(start, events) && !target_was_replaced(start, rest) {
            let i = choose|i: int|
                0 <= i < events.len() && transfer_through(start, events.take(i)).step
                    == TransferStepView::Replace && #[trigger] events[i]
                    == TransferEventView::Replaced;
            if i < n {
                assert(events.take(i) =~= rest.take(i));
                assert(rest[i] == events[i]);
            }
            assert(i == n);
        }
    }
}

/// The bytes told of are those that were written.
pub proof fn bytes_told_are_those_written(start: TransferView, events: Seq<TransferEventView>)
    requires
        start.step == TransferStepView::Request,
        start.downloaded == 0,
    ensures
        transfer_through(start, events).downloaded == bytes_written(start, events),
        transfer_through(start, events).step is Request ==> bytes_written(start, events) == 0,
    decreases events.len(),
{
    if events.len() > 0 {
        bytes_told_are_those_written(start, events.drop_last());
    }
}

/// A download that is over stays over, and makes no more reports.
pub proof fn finished_download_is_final(transfer: TransferView, event: TransferEventView)
    requires
        transfer.step is Finish,
    ensures
        transfer_after(transfer, event) == transfer,
        report_on(transfer, event) is None,
{
}

/// The event is an answer to what the download waits for; a failure is one to each step.
pub open spec fn answers(step: TransferStepView, event: TransferEventView) -> bool {
    match step {
        TransferStepView::Request => event is Answered || event is Failed,
        TransferStepView::Create => event is Created || event is Failed,
        TransferStepView::Receive => event is Received || event is Ended || event is Failed,
        TransferStepView::Write(_) => event is Written || event is Failed,
        TransferStepView::Replace => event is Replaced || event is Failed,
        TransferStepView::Finish(_) => false,
    }
}

/// An answer leads a download on, and what is no answer changes nothing and is not
/// reported. What is downloaded never changes, and a failure ends the download with its
/// message.
pub proof fn only_answers_lead_a_download_on(transfer: TransferView, event: TransferEventView)
    ensures
        ({
            let next = transfer_after(transfer, event);
            &&& answers(transfer.step, event) <==> next.step != transfer.step
            &&& !answers(transfer.step, event) ==> next == transfer && report_on(transfer, event)
                is None
            &&& next.url == transfer.url && next.label == transfer.label
            &&& event matches TransferEventView::Failed { message } ==> transfer.step is Finish
                || next.step == TransferStepView::Finish(Err(message))
        }),
{
}

/// A good answer starts a download, of as many bytes as it announces; a bad one ends it
/// with how it puts that and the address.
pub proof fn a_bad_answer_ends_a_download(
    transfer: TransferView,
    success: bool,
    status: Seq<char>,
    announced: Option<u64>,
)
    requires
        transfer.step == TransferStepView::Request,
    ensures
        ({
            let event = TransferEventView::Answered { success, status, announced };
            let next = transfer_after(transfer, event);
            &&& success ==> next.step == TransferStepView::Create && next.downloaded == 0
            &&& success && announced is Some ==> next.total == announced->0
            &&& success && announced is None ==> next.total == 0
            &&& !success ==> next.step == TransferStepView::Finish(
                Err("Download failed ("@ + status + "): "@ + transfer.url),
            )
            &&& report_on(transfer, event) is None
        }),
{
}

/// All that comes is written before more is asked for, and counted once it is written. It
/// is reported every 200 milliseconds, and at the end.
pub proof fn what_comes_is_written_and_told(transfer: TransferView, len: u64, millis: u128)
    requires
        transfer.step == TransferStepView::Receive,
        0 <= transfer.downloaded,
        transfer.downloaded + len <= u64::MAX,
    ensures
        ({
            let came = transfer_after(transfer, TransferEventView::Received { len });
            let done = TransferEventView::Written { millis };
            let written = transfer_after(came, done);
            let ended = transfer_after(transfer, TransferEventView::Ended);
            let replaced = TransferEventView::Replaced;
            &&& came.step == TransferStepView::Write(len) && came.downloaded
                == transfer.downloaded
            &&& written == (TransferView { downloaded: transfer.downloaded + len, ..transfer })
            &&& millis < 200 ==> report_on(came, done) is None
            &&& millis >= 200 ==> report_on(came, done) == Some(
                download_json(
                    transfer.label,
                    (transfer.downloaded + len) as u64,
                    transfer.total,
                    "downloading"@,
                ),
            )
            &&& ended.step == TransferStepView::Replace
            &&& transfer_after(ended, replaced).step == TransferStepView::Finish(Ok(()))
            &&& report_on(ended, replaced) == Some(
                download_json(
                    transfer.label,
                    transfer.downloaded as u64,
                    transfer.total,
                    "complete"@,
                ),
            )
        }),
{
}

} // verus!
