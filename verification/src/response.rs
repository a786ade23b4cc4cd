//! Handler outcomes and the uniform HTTP responses they are turned into:
//! whatever a handler chose, the returned response's content type is
//! overwritten to `text/html;charset=UTF-8`.

use vstd::prelude::*;
use vstd::string::StringExecFns;

verus! {

/// The classified failures a request can end in. Every one is terminal for
/// its request and becomes an HTTP response directly.
#[derive(Debug, Clone, Copy, PartialEq, Eq, Structural)]
pub enum ErrorKind {
    /// A route parameter or form field the handler needs is missing.
    BadRequest,
    /// The form field is present but is a file, not a scalar value.
    UnprocessableEntity,
    /// The required configuration value is absent; no default is substituted.
    ConfigMissing,
    /// The request body could not be read or parsed.
    BodyParseFailure,
}

/// The tagged result of running a handler: a successful response body or a
/// classified failure.
pub enum HandlerOutcome {
    Success { body: String, status: u16, content_type: Option<String> },
    Failure { kind: ErrorKind, status: u16, message: String },
}

/// The mathematical shape of a handler outcome.
pub enum OutcomeView {
    Success { body: Seq<char>, status: u16, content_type: Option<Seq<char>> },
    Failure { kind: ErrorKind, status: u16, message: Seq<char> },
}

impl View for HandlerOutcome {
    type V = OutcomeView;

    open spec fn view(&self) -> OutcomeView {
        match self {
            HandlerOutcome::Success { body, status, content_type } => OutcomeView::Success {
                body: body@,
                status: *status,
                content_type: match content_type {
                    Some(value) => Some(value@),
                    None => None,
                },
            },
            HandlerOutcome::Failure { kind, status, message } => OutcomeView::Failure {
                kind: *kind,
                status: *status,
                message: message@,
            },
        }
    }
}

/// The failure every missing input maps to: status 400, fixed message.
pub open spec fn bad_request() -> OutcomeView {
    OutcomeView::Failure { kind: ErrorKind::BadRequest, status: 400u16, message: "Bad Request"@ }
}

/// One HTTP response handed back to the host.
pub struct HttpResponse {
    pub status: u16,
    pub body: String,
    pub content_type: String,
}

/// The mathematical shape of an HTTP response.
pub struct HttpResponseView {
    pub status: u16,
    pub body: Seq<char>,
    pub content_type: Seq<char>,
}

impl View for HttpResponse {
    type V = HttpResponseView;

    open spec fn view(&self) -> HttpResponseView {
        HttpResponseView { status: self.status, body: self.body@, content_type: self.content_type@ }
    }
}

/// The content type every response leaves with, whatever its handler chose.
pub open spec fn content_type_override() -> Seq<char> {
    "text/html;charset=UTF-8"@
}

/// The response an outcome is returned as: the handler's status and body
/// (its message, for a failure), under the uniform content type.
pub open spec fn finalized(outcome: OutcomeView) -> HttpResponseView {
    match outcome {
        OutcomeView::Success { body, status, content_type } => HttpResponseView {
            status,
            body,
            content_type: content_type_override(),
        },
        OutcomeView::Failure { kind, status, message } => HttpResponseView {
            status,
            body: message,
            content_type: content_type_override(),
        },
    }
}

/// The response for a request no route answers.
pub open spec fn not_found_response() -> HttpResponseView {
    HttpResponseView { status: 404u16, body: "Not Found"@, content_type: content_type_override() }
}

/// Turns a handler outcome into the response returned to the host,
/// overwriting the content type uniformly.
pub fn finalize(outcome: HandlerOutcome) -> (response: HttpResponse)
    ensures
        response@ == finalized(outcome@),
        response@.content_type == content_type_override(),
{
    match outcome {
        HandlerOutcome::Success { body, status, content_type: _ } => HttpResponse {
            status,
            body,
            content_type: "text/html;charset=UTF-8".to_owned(),
        },
        HandlerOutcome::Failure { kind: _, status, message } => HttpResponse {
            status,
            body: message,
            content_type: "text/html;charset=UTF-8".to_owned(),
        },
    }
}

/// The response for a miss: status 404, no handler ran.
pub fn not_found() -> (response: HttpResponse)
    ensures
        response@ == not_found_response(),
        response@.content_type == content_type_override(),
{
    HttpResponse {
        status: 404,
        body: "Not Found".to_owned(),
        content_type: "text/html;charset=UTF-8".to_owned(),
    }
}

} // verus!
