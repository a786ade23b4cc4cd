//! The version handler: reports one named configuration value as plain
//! text, and treats an absent value as an error — no default is substituted.

use vstd::prelude::*;
use vstd::string::StringExecFns;
use crate::geo::opt_view;
use crate::response::{HandlerOutcome, OutcomeView, ErrorKind};

verus! {

/// The outcome the version handler owes: the configured value exactly as
/// supplied, status 200; or, when it is absent, a configuration failure —
/// never an empty or default version.
pub open spec fn version_outcome(value: Option<Seq<char>>) -> OutcomeView {
    match value {
        Some(text) => OutcomeView::Success {
            body: text,
            status: 200u16,
            content_type: Some("text/plain; charset=utf-8"@),
        },
        None => OutcomeView::Failure {
            kind: ErrorKind::ConfigMissing,
            status: 500u16,
            message: "missing configuration value"@,
        },
    }
}

/// Answers with the configuration value handed in, as `version_outcome`
/// states, for every value and for its absence.
pub fn version_response(value: &Option<String>) -> (outcome: HandlerOutcome)
    ensures
        outcome@ == version_outcome(opt_view(*value)),
{
    match value {
        Some(text) => HandlerOutcome::Success {
            body: text.clone(),
            status: 200,
            content_type: Some("text/plain; charset=utf-8".to_owned()),
        },
        None => HandlerOutcome::Failure {
            kind: ErrorKind::ConfigMissing,
            status: 500,
            message: "missing configuration value".to_owned(),
        },
    }
}

} // verus!
