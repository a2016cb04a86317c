use sdcpp::transfer::{Transfer, TransferEvent, TransferStep};
use serde_json::Value;

fn answered(success: bool) -> TransferEvent {
    TransferEvent::Answered { success, status: "200 OK".to_string(), announced: Some(10) }
}

fn failure() -> TransferEvent {
    TransferEvent::Failed { message: "no".to_string() }
}

/// A transfer that waits for its first bytes.
fn receiving() -> Transfer {
    let mut transfer = Transfer::new("http://x", "a.zip");
    assert_eq!(transfer.step, TransferStep::Request);
    assert_eq!(transfer.advance(answered(true)), None);
    assert_eq!(transfer.step, TransferStep::Create);
    assert_eq!(transfer.advance(TransferEvent::Created), None);
    assert_eq!(transfer.step, TransferStep::Receive);
    transfer
}

fn number(report: &Value, key: &str) -> u64 {
    report.get(key).unwrap().as_u64().unwrap()
}

#[test]
fn transfer_runs_through() {
    let mut transfer = receiving();
    assert_eq!(transfer.download.total, 10);
    transfer.advance(TransferEvent::Received { len: 4 });
    assert_eq!(transfer.step, TransferStep::Write(4));
    assert_eq!(transfer.advance(TransferEvent::Written { millis: 199 }), None);
    transfer.advance(TransferEvent::Received { len: 6 });
    let report = transfer.advance(TransferEvent::Written { millis: 200 }).unwrap();
    assert_eq!(number(&report, "downloaded"), 10);
    assert_eq!(number(&report, "total"), 10);
    assert_eq!(report.get("status").unwrap().as_str(), Some("downloading"));
    transfer.advance(TransferEvent::Ended);
    assert_eq!(transfer.step, TransferStep::Replace);
    let report = transfer.advance(TransferEvent::Replaced).unwrap();
    assert_eq!(report.get("status").unwrap().as_str(), Some("complete"));
    assert_eq!(report.get("label").unwrap().as_str(), Some("a.zip"));
    assert_eq!(number(&report, "downloaded"), 10);
    assert_eq!(transfer.step, TransferStep::Finish(Ok(())));
    assert_eq!(transfer.advance(failure()), None);
    assert_eq!(transfer.step, TransferStep::Finish(Ok(())));
}

#[test]
fn bad_answer_ends_a_transfer() {
    let mut transfer = Transfer::new("http://x", "a.zip");
    transfer.advance(TransferEvent::Answered {
        success: false,
        status: "404 Not Found".to_string(),
        announced: None,
    });
    let message = "Download failed (404 Not Found): http://x";
    assert_eq!(transfer.step, TransferStep::Finish(Err(message.to_string())));
}

#[test]
fn transfer_without_a_length_tells_none() {
    let mut transfer = Transfer::new("http://x", "a.zip");
    transfer.advance(TransferEvent::Answered {
        success: true,
        status: "200 OK".to_string(),
        announced: None,
    });
    assert_eq!(transfer.download.total, 0);
}

#[test]
fn failure_never_comes_to_the_target() {
    let ended = TransferStep::Finish(Err("no".to_string()));
    let mut before_request = Transfer::new("http://x", "a");
    let mut before_create = Transfer::new("http://x", "a");
    before_create.advance(answered(true));
    let mut before_write = receiving();
    before_write.advance(TransferEvent::Received { len: 1 });
    let mut before_replace = receiving();
    before_replace.advance(TransferEvent::Ended);
    let mut receiving = receiving();
    for transfer in [
        &mut before_request,
        &mut before_create,
        &mut receiving,
        &mut before_write,
        &mut before_replace,
    ] {
        assert_eq!(transfer.advance(failure()), None);
        assert_eq!(transfer.step, ended);
        assert_eq!(transfer.advance(TransferEvent::Replaced), None);
        assert_eq!(transfer.step, ended);
    }
}

#[test]
fn stray_events_leave_a_transfer() {
    let mut transfer = receiving();
    assert_eq!(transfer.advance(TransferEvent::Replaced), None);
    assert_eq!(transfer.advance(TransferEvent::Created), None);
    assert_eq!(transfer.advance(TransferEvent::Written { millis: 1000 }), None);
    assert_eq!(transfer.step, TransferStep::Receive);
    assert_eq!(transfer.download.downloaded, 0);
}
