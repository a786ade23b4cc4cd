//! One whole invocation of the core: dispatch the request through the route
//! table, run the matched handler on the data the host supplied, and return
//! the uniformly post-processed response.

use vstd::prelude::*;
use crate::form::{FormBody, FormEntryView, extract_outcome};
use crate::geo::{GeolocationRecord, GeolocationView, geolocation_page, opt_view, render_geolocation};
use crate::paths::split_slash;
use crate::response::{
    ErrorKind, HandlerOutcome, HttpResponse, OutcomeView, content_type_override, finalize,
    finalized, not_found, not_found_response,
};
use crate::router::{
    ConfigError, Dispatch, Handler, RouteMatch, RouteView, Router, first_match,
    lemma_wf_without_star, lookup, pattern_of,
};
use crate::version::version_outcome;
use crate::version::version_response;

verus! {

/// The view of the host's attempt to read and parse the request body as a
/// form: the parsed entries, or the message of the error that reading them
/// raised.
pub open spec fn body_view(body: Result<&FormBody, &String>) -> Result<
    Seq<(Seq<char>, FormEntryView)>,
    Seq<char>,
> {
    match body {
        Ok(form) => Ok(form@),
        Err(message) => Err(message@),
    }
}

/// The outcome each handler owes on the request data it reads: the rendered
/// geolocation page; the extracted form field, or the propagated failure
/// when the body could not be read; the configured version.
pub open spec fn handler_outcome(
    handler: Handler,
    params: Seq<(Seq<char>, Seq<char>)>,
    geolocation: GeolocationView,
    body: Result<Seq<(Seq<char>, FormEntryView)>, Seq<char>>,
    version: Option<Seq<char>>,
) -> OutcomeView {
    match handler {
        Handler::Geolocation => OutcomeView::Success {
            body: geolocation_page(geolocation),
            status: 200u16,
            content_type: Some("text/plain; charset=utf-8"@),
        },
        Handler::FormField => match body {
            Ok(entries) => extract_outcome(entries, lookup(params, "field"@)),
            Err(message) => OutcomeView::Failure {
                kind: ErrorKind::BodyParseFailure,
                status: 500u16,
                message,
            },
        },
        Handler::Version => version_outcome(version),
    }
}

/// Runs one handler on the captured parameters and the request data the
/// host supplied, answering as `handler_outcome` states.
pub fn run_handler(
    handler: Handler,
    params: &RouteMatch,
    geolocation: &GeolocationRecord,
    body: Result<&FormBody, &String>,
    version: &Option<String>,
) -> (outcome: HandlerOutcome)
    ensures
        outcome@ == handler_outcome(handler, params@, geolocation@, body_view(body), opt_view(
            *version,
        )),
{
    match handler {
        Handler::Geolocation => {
            let page = render_geolocation(geolocation);
            HandlerOutcome::Success {
                body: page,
                status: 200,
                content_type: Some("text/plain; charset=utf-8".to_owned()),
            }
        },
        Handler::FormField => match body {
            Ok(form) => crate::form::extract_form_field(form, params),
            Err(message) => HandlerOutcome::Failure {
                kind: ErrorKind::BodyParseFailure,
                status: 500,
                message: message.clone(),
            },
        },
        Handler::Version => version_response(version),
    }
}

/// Handles one whole request: the first route that answers it runs its
/// handler and the outcome is finalized; a request no route answers is a
/// 404 and no handler runs. Either way the response's content type is the
/// uniform override.
pub fn handle_request(
    router: &Router,
    method: &str,
    path: &str,
    geolocation: &GeolocationRecord,
    body: Result<&FormBody, &String>,
    version: &Option<String>,
) -> (response: HttpResponse)
    ensures
        response@.content_type == content_type_override(),
        first_match(router@, method@, split_slash(path@)) is None ==> response@
            == not_found_response(),
        first_match(router@, method@, split_slash(path@)) matches Some(found) ==> response@
            == finalized(
            handler_outcome(
                router@[found.0].handler,
                found.1,
                geolocation@,
                body_view(body),
                opt_view(*version),
            ),
        ),
{
    match router.dispatch(method, path) {
        Dispatch::NotFound => not_found(),
        Dispatch::Matched { index: _, handler, params } => finalize(
            run_handler(handler, &params, geolocation, body, version),
        ),
    }
}

/// The route table the service starts with, in first-match order: the
/// geolocation page on `GET /`, the form-field extractor on
/// `POST /form/:field`, and the version report on `GET /worker-version`.
pub open spec fn standard_table() -> Seq<RouteView> {
    seq![
        RouteView { method: "GET"@, pattern: pattern_of("/"@), handler: Handler::Geolocation },
        RouteView {
            method: "POST"@,
            pattern: pattern_of("/form/:field"@),
            handler: Handler::FormField,
        },
        RouteView {
            method: "GET"@,
            pattern: pattern_of("/worker-version"@),
            handler: Handler::Version,
        },
    ]
}

/// Builds the standard route table, registering its three routes in
/// first-match order. None of the three patterns holds a stray catch-all,
/// so building never fails.
pub fn standard_routes() -> (built: Result<Router, ConfigError>)
    ensures
        built is Ok,
        built matches Ok(router) ==> router@ == standard_table(),
{
    proof {
        reveal_strlit("/");
        reveal_strlit("/form/:field");
        reveal_strlit("/worker-version");
        lemma_wf_without_star("/"@);
        lemma_wf_without_star("/form/:field"@);
        lemma_wf_without_star("/worker-version"@);
    }
    let mut router = Router::new();
    match router.register("GET", "/", Handler::Geolocation) {
        Ok(unit) => unit,
        Err(error) => {
            return Err(error);
        },
    }
    match router.register("POST", "/form/:field", Handler::FormField) {
        Ok(unit) => unit,
        Err(error) => {
            return Err(error);
        },
    }
    match router.register("GET", "/worker-version", Handler::Version) {
        Ok(unit) => unit,
        Err(error) => {
            return Err(error);
        },
    }
    proof {
        assert(router@ =~= standard_table());
    }
    Ok(router)
}

} // verus!
