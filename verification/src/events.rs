//! The events that the user interface is told of.

use crate::json::{
    json_of, null_value, no_fields, object_insert, object_new, object_value, text_value,
    unsigned_value, Json,
};
use vstd::prelude::*;

verus! {

/// The event that tells what the server is doing.
pub const STATUS_EVENT: &'static str = "sdcpp_status";

/// The event that tells how far a download has come.
pub const DOWNLOAD_EVENT: &'static str = "sdcpp_download_progress";

/// The payload of a status event.
pub open spec fn status_json(phase: Seq<char>, detail: Option<Seq<char>>) -> Json {
    Json::Object(
        no_fields().insert("phase"@, Json::Text(phase)).insert(
            "detail"@,
            match detail {
                Some(detail) => Json::Text(detail),
                None => Json::Null,
            },
        ),
    )
}

/// The payload of a download event.
pub open spec fn download_json(
    label: Seq<char>,
    downloaded: u64,
    total: u64,
    status: Seq<char>,
) -> Json {
    Json::Object(
        no_fields().insert("label"@, Json::Text(label)).insert(
            "downloaded"@,
            Json::Int(downloaded as int),
        ).insert("total"@, Json::Int(total as int)).insert("status"@, Json::Text(status)),
    )
}

/// The text, as the contracts speak of it.
pub open spec fn text_view(text: Option<String>) -> Option<Seq<char>> {
    match text {
        Some(text) => Some(text@),
        None => None,
    }
}

/// A status to tell the user interface of.
#[derive(Debug, Clone, PartialEq)]
pub struct StatusEvent {
    pub phase: String,
    pub detail: Option<String>,
}

/// A status, as the contracts speak of it.
pub struct StatusView {
    pub phase: Seq<char>,
    pub detail: Option<Seq<char>>,
}

impl View for StatusEvent {
    type V = StatusView;

    open spec fn view(&self) -> StatusView {
        StatusView { phase: self.phase@, detail: text_view(self.detail) }
    }
}

impl StatusEvent {
    /// The status `phase`.
    pub fn new(phase: &str, detail: Option<String>) -> (event: StatusEvent)
        ensures
            event@ == (StatusView { phase: phase@, detail: text_view(detail) }),
    {
        StatusEvent { phase: phase.to_string(), detail }
    }

    /// The payload that tells of the status.
    pub fn payload(&self) -> (payload: serde_json::Value)
        ensures
            json_of(payload) == status_json(self@.phase, self@.detail),
    {
        status_payload(self.phase.as_str(), &self.detail)
    }
}

/// The payload that tells that the server is in `phase`.
pub fn status_payload(phase: &str, detail: &Option<String>) -> (payload: serde_json::Value)
    ensures
        json_of(payload) == status_json(phase@, text_view(*detail)),
{
    let mut object = object_new();
    object_insert(&mut object, "phase", text_value(phase));
    match detail {
        Some(detail) => object_insert(&mut object, "detail", text_value(detail.as_str())),
        None => object_insert(&mut object, "detail", null_value()),
    }
    object_value(object)
}

/// The payload that tells that `downloaded` of `total` bytes have come.
pub fn download_payload(label: &str, downloaded: u64, total: u64, status: &str) -> (payload:
    serde_json::Value)
    ensures
        json_of(payload) == download_json(label@, downloaded, total, status@),
{
    let mut object = object_new();
    object_insert(&mut object, "label", text_value(label));
    object_insert(&mut object, "downloaded", unsigned_value(downloaded));
    object_insert(&mut object, "total", unsigned_value(total));
    object_insert(&mut object, "status", text_value(status));
    object_value(object)
}

// ----------------------------------------------------------------------------
// Laws
// ----------------------------------------------------------------------------

/// A status is told as it is, in two fields: its phase, and its detail or null.
pub proof fn status_is_told_as_it_is(phase: Seq<char>, detail: Option<Seq<char>>)
    ensures
        status_json(phase, detail) matches Json::Object(fields) && {
            &&& fields.dom() =~= set!["phase"@, "detail"@]
            &&& fields["phase"@] == Json::Text(phase)
            &&& detail matches Some(detail) ==> fields["detail"@] == Json::Text(detail)
            &&& detail is None ==> fields["detail"@] == Json::Null
        },
{
    reveal_strlit("phase");
    reveal_strlit("detail");
    assert("phase"@.len() != "detail"@.len());
}

/// How far a download has come is told as it is, in four fields.
pub proof fn download_is_told_as_it_is(
    label: Seq<char>,
    downloaded: u64,
    total: u64,
    status: Seq<char>,
)
    ensures
        download_json(label, downloaded, total, status) matches Json::Object(fields) && {
            &&& fields.dom() =~= set!["label"@, "downloaded"@, "total"@, "status"@]
            &&& fields["label"@] == Json::Text(label)
            &&& fields["downloaded"@] == Json::Int(downloaded as int)
            &&& fields["total"@] == Json::Int(total as int)
            &&& fields["status"@] == Json::Text(status)
        },
{
    reveal_strlit("label");
    reveal_strlit("downloaded");
    reveal_strlit("total");
    reveal_strlit("status");
    assert("label"@[0] != "total"@[0]);
    assert("downloaded"@.len() == 10 && "status"@.len() == 6 && "label"@.len() == 5
        && "total"@.len() == 5);
}

} // verus!
