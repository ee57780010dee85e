//! Posting a track to a Discord webhook: the request that is sent, and what
//! the response says.

use crate::attach::{
    accepted, by_priority, file_parts, part_of, select_attachments, CandidateView, FileCandidate,
    FilePart,
};
use crate::db::opt_text;
use crate::embed::{
    build_payload, build_track_embed, embed_tree, member_text, payload_tree, Track,
};
use crate::json::{bytes_tree, compact_text, Json, JsonError, JsonTree};
use crate::text::{decimal, push_decimal};
use vstd::prelude::*;
use vstd::string::{StringExecFns, StringSliceAdditionalSpecFns};

verus! {

/// What Discord said of a message that it created.
#[derive(Debug)]
pub struct WebhookResponse {
    /// The identifier of the message.
    pub message_id: String,
    /// The channel of the message, where Discord named it.
    pub channel_id: Option<String>,
}

/// The mathematical value of a `WebhookResponse`.
pub struct ResponseView {
    pub message_id: Seq<char>,
    pub channel_id: Option<Seq<char>>,
}

impl View for WebhookResponse {
    type V = ResponseView;

    open spec fn view(&self) -> ResponseView {
        ResponseView { message_id: self.message_id@, channel_id: opt_text(self.channel_id) }
    }
}

impl Clone for WebhookResponse {
    fn clone(&self) -> (r: Self)
        ensures
            r@ == self@,
    {
        WebhookResponse {
            message_id: self.message_id.clone(),
            channel_id: crate::db::clone_opt(&self.channel_id),
        }
    }
}

/// Why a track was not posted.
#[derive(Debug)]
pub enum WebhookError {
    /// The body of the message could not be written as text.
    Payload(String),
    /// Discord answered with a status outside 200 to 299.
    Status { status: u16, body: String },
    /// The answer is not a JSON document.
    Malformed(String),
    /// The answer has no member `id`.
    MissingId,
    /// The member `id` of the answer is not a string.
    IdNotText,
}

/// The webhook address with the request to wait for the message: `wait=true`
/// is added behind a `?`, or behind a `&` where the address has a `?`
/// already.
pub open spec fn waiting_url(url: Seq<char>) -> Seq<char> {
    if url.contains('?') {
        url + "&wait=true"@
    } else {
        url + "?wait=true"@
    }
}

/// Whether a character occurs in a text.
pub fn has_char(text: &str, wanted: char) -> (found: bool)
    ensures
        found == text@.contains(wanted),
{
    let ghost all = text@;
    for c in it: text.chars()
        invariant
            it.seq() == all,
            all == text@,
            forall|k: int| 0 <= k < it.index() ==> all[k] != wanted,
    {
        if c == wanted {
            assert(all[it.index() as int] == wanted);
            return true;
        }
    }
    false
}

/// Adds the request to wait for the message to a webhook address.
pub fn with_wait(url: &str) -> (waiting: String)
    ensures
        waiting@ == waiting_url(url@),
{
    let mut waiting = url.to_owned();
    if has_char(url, '?') {
        waiting.append("&wait=true");
    } else {
        waiting.append("?wait=true");
    }
    waiting
}

/// What is sent with a request.
#[derive(Debug)]
pub enum RequestBody {
    /// A JSON document.
    Json(String),
    /// A multipart form: the JSON document in the field `payload_json`, and
    /// one part for each file.
    Multipart { payload_json: String, files: Vec<FilePart> },
}

/// A request to a webhook.
#[derive(Debug)]
pub struct WebhookRequest {
    /// The address that the request is posted to.
    pub url: String,
    pub body: RequestBody,
}

/// The files that are attached to a message.
pub open spec fn attachments(files: Option<Seq<CandidateView>>) -> Seq<CandidateView> {
    match files {
        Some(files) => accepted(by_priority(files)),
        None => Seq::empty(),
    }
}

impl WebhookRequest {
    /// Whether this is the request for `url`, the message `payload` and the
    /// files `chosen`: a JSON body where no file is attached, a multipart
    /// form otherwise.
    pub open spec fn is_for(&self, url: Seq<char>, payload: Seq<char>, chosen: Seq<CandidateView>) -> bool {
        &&& self.url@ == waiting_url(url)
        &&& match self.body {
            RequestBody::Json(text) => chosen.len() == 0 && text@ == payload,
            RequestBody::Multipart { payload_json, files } => {
                &&& chosen.len() > 0
                &&& payload_json@ == payload
                &&& files@.len() == chosen.len()
                &&& forall|i: int|
                    0 <= i < files@.len() ==> (#[trigger] files@[i])@ == part_of(
                        i as nat,
                        chosen[i],
                    )
            },
        }
    }
}

/// Puts a request together from the message as `serde_json` wrote it, or
/// gives the reason why it was not written.
pub fn plan_request(
    webhook_url: &str,
    written: Result<String, JsonError>,
    chosen: &Vec<FileCandidate>,
) -> (r: Result<WebhookRequest, WebhookError>)
    ensures
        match (written, r) {
            (Ok(text), Ok(request)) => request.is_for(webhook_url@, text@, chosen.deep_view()),
            (Err(e), Err(WebhookError::Payload(reason))) => reason@ == e.message@,
            _ => false,
        },
{
    match written {
        Err(e) => Err(WebhookError::Payload(e.message)),
        Ok(text) => {
            let url = with_wait(webhook_url);
            let body = if chosen.len() == 0 {
                RequestBody::Json(text)
            } else {
                RequestBody::Multipart { payload_json: text, files: file_parts(chosen) }
            };
            Ok(WebhookRequest { url, body })
        },
    }
}

/// Prepares the request that posts a track to a webhook, with the files that
/// Discord takes. The request is always made; what can fail is the sending.
pub fn send_track_webhook(
    webhook_url: &str,
    track: &Track,
    audio_files: Option<Vec<FileCandidate>>,
) -> (r: Result<WebhookRequest, WebhookError>)
    ensures
        r matches Ok(request) && request.is_for(
            webhook_url@,
            compact_text(payload_tree(embed_tree(track@))),
            attachments(
                match audio_files {
                    Some(files) => Some(files.deep_view()),
                    None => None,
                },
            ),
        ),
{
    let payload = build_payload(build_track_embed(track));
    let chosen = match audio_files {
        Some(files) => select_attachments(files),
        None => {
            let none: Vec<FileCandidate> = Vec::new();
            assert(none.deep_view() =~= Seq::empty());
            none
        },
    };
    plan_request(webhook_url, payload.to_compact_text(), &chosen)
}

/// What the document of an answer says: the message that was created, or why
/// none can be read from it.
pub open spec fn message_of(doc: JsonTree) -> Option<ResponseView> {
    match doc {
        JsonTree::Object(members) => if members.contains_key("id"@) {
            match members["id"@] {
                JsonTree::Text(id) => Some(
                    ResponseView { message_id: id, channel_id: member_text(doc, "channel_id"@) },
                ),
                _ => None,
            }
        } else {
            None
        },
        _ => None,
    }
}

/// Whether the document has a member `id`.
pub open spec fn has_id(doc: JsonTree) -> bool {
    doc matches JsonTree::Object(members) && members.contains_key("id"@)
}

/// Reads the message that was created from the document of an answer.
///
/// The document must be an object with a string `id`; its `channel_id` is
/// taken where it is a string.
pub fn response_of_document(doc: &Json) -> (r: Result<WebhookResponse, WebhookError>)
    ensures
        match r {
            Ok(response) => message_of(doc@) == Some(response@),
            Err(WebhookError::MissingId) => !has_id(doc@),
            Err(WebhookError::IdNotText) => has_id(doc@) && message_of(doc@) is None,
            Err(_) => false,
        },
{
    let message_id = match doc.get("id") {
        None => {
            return Err(WebhookError::MissingId);
        },
        Some(id) => match id.as_str() {
            Some(text) => text.to_owned(),
            None => {
                return Err(WebhookError::IdNotText);
            },
        },
    };
    let channel_id = match doc.get("channel_id") {
        Some(value) => match value.as_str() {
            Some(text) => Some(text.to_owned()),
            None => None,
        },
        None => None,
    };
    Ok(WebhookResponse { message_id, channel_id })
}

/// Reads the answer of Discord to a request.
///
/// A status outside 200 to 299 is an error that carries the status and the
/// body. Otherwise the body must be a JSON document that names the message,
/// as `response_of_document` reads it.
pub fn read_webhook_response(status: u16, body: &str) -> (r: Result<WebhookResponse, WebhookError>)
    ensures
        !(200 <= status < 300) ==> (r matches Err(WebhookError::Status { status: s, body: b })
            && s == status && b@ == body@),
        200 <= status < 300 ==> match bytes_tree(body.spec_bytes()) {
            None => r matches Err(WebhookError::Malformed(_)),
            Some(doc) => match r {
                Ok(response) => message_of(doc) == Some(response@),
                Err(WebhookError::MissingId) => !has_id(doc),
                Err(WebhookError::IdNotText) => has_id(doc) && message_of(doc) is None,
                Err(_) => false,
            },
        },
{
    if status < 200 || status >= 300 {
        return Err(WebhookError::Status { status, body: body.to_owned() });
    }
    match Json::parse(body.as_bytes()) {
        Ok(doc) => response_of_document(&doc),
        Err(e) => Err(WebhookError::Malformed(e.message)),
    }
}

impl WebhookError {
    /// The error in words. A status outside 200 to 299 is reported with the
    /// status and the body of the answer.
    pub open spec fn spec_message(&self) -> Seq<char> {
        match self {
            WebhookError::Payload(reason) => "Failed to write the webhook message: "@ + reason@,
            WebhookError::Status { status, body } => "Discord webhook error: "@ + decimal(
                *status as nat,
            ) + " - "@ + body@,
            WebhookError::Malformed(reason) => "Failed to read the Discord response: "@ + reason@,
            WebhookError::MissingId => "No message ID in Discord response"@,
            WebhookError::IdNotText => "Failed to extract message ID from Discord response"@,
        }
    }

    /// The error in words.
    pub fn message(&self) -> (text: String)
        ensures
            text@ == self.spec_message(),
    {
        match self {
            WebhookError::Payload(reason) => {
                let mut text = "Failed to write the webhook message: ".to_owned();
                text.append(reason.as_str());
                text
            },
            WebhookError::Status { status, body } => {
                let mut text = "Discord webhook error: ".to_owned();
                push_decimal(&mut text, *status as u64);
                text.append(" - ");
                text.append(body.as_str());
                text
            },
            WebhookError::Malformed(reason) => {
                let mut text = "Failed to read the Discord response: ".to_owned();
                text.append(reason.as_str());
                text
            },
            WebhookError::MissingId => "No message ID in Discord response".to_owned(),
            WebhookError::IdNotText => "Failed to extract message ID from Discord response".to_owned(),
        }
    }
}

} // verus!
