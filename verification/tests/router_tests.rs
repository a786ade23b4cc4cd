use edge_router::router::{ConfigError, Dispatch, Handler, Router};
use edge_router::service::standard_routes;

fn table() -> Router {
    match standard_routes() {
        Ok(router) => router,
        Err(_) => panic!("standard route table must register"),
    }
}

#[test]
fn literal_route_dispatches_exactly() {
    let mut router = Router::new();
    assert!(router.register("GET", "/", Handler::Geolocation).is_ok());
    assert!(router.register("GET", "/alpha", Handler::Geolocation).is_ok());
    assert!(router.register("POST", "/alpha/beta", Handler::FormField).is_ok());
    assert!(router.register("GET", "/alpha/beta", Handler::Version).is_ok());
    assert!(router.register("GET", "/alpha/beta/gamma", Handler::Geolocation).is_ok());
    match router.dispatch("GET", "/alpha/beta") {
        Dispatch::Matched { index, handler, params } => {
            assert_eq!(index, 3);
            assert_eq!(handler, Handler::Version);
            assert!(params.get("alpha").is_none());
        }
        Dispatch::NotFound => panic!("exact literal route must match"),
    }
}

#[test]
fn first_matching_route_wins() {
    let mut router = Router::new();
    assert!(router.register("GET", "/duplicate", Handler::Geolocation).is_ok());
    assert!(router.register("GET", "/duplicate", Handler::Version).is_ok());
    match router.dispatch("GET", "/duplicate") {
        Dispatch::Matched { index, handler, .. } => {
            assert_eq!(index, 0);
            assert_eq!(handler, Handler::Geolocation);
        }
        Dispatch::NotFound => panic!("registered route must match"),
    }
}

#[test]
fn named_param_captures_segment() {
    let router = table();
    match router.dispatch("POST", "/form/name") {
        Dispatch::Matched { index, handler, params } => {
            assert_eq!(index, 1);
            assert_eq!(handler, Handler::FormField);
            assert_eq!(params.get("field"), Some(&String::from("name")));
        }
        Dispatch::NotFound => panic!("named segment must match a non-empty segment"),
    }
}

#[test]
fn empty_final_segment_is_not_found() {
    let router = table();
    assert!(matches!(router.dispatch("POST", "/form/"), Dispatch::NotFound));
}

#[test]
fn catch_all_captures_remaining_segments() {
    let mut router = Router::new();
    assert!(router.register("GET", "/files/*rest", Handler::Geolocation).is_ok());
    match router.dispatch("GET", "/files/a/b/c") {
        Dispatch::Matched { params, .. } => {
            assert_eq!(params.get("rest"), Some(&String::from("a/b/c")));
        }
        Dispatch::NotFound => panic!("catch-all must absorb the remaining segments"),
    }
    match router.dispatch("GET", "/files") {
        Dispatch::Matched { params, .. } => {
            assert_eq!(params.get("rest"), Some(&String::from("")));
        }
        Dispatch::NotFound => panic!("catch-all must also absorb zero remaining segments"),
    }
}

#[test]
fn catch_all_not_last_fails_registration() {
    let mut router = Router::new();
    let refused = router.register("GET", "/files/*rest/more", Handler::Geolocation);
    assert_eq!(refused, Err(ConfigError::CatchAllNotLast));
    assert!(matches!(router.dispatch("GET", "/files/a/more"), Dispatch::NotFound));
}

#[test]
fn unregistered_path_or_method_is_not_found() {
    let router = table();
    assert!(matches!(router.dispatch("GET", "/missing"), Dispatch::NotFound));
    assert!(matches!(router.dispatch("POST", "/"), Dispatch::NotFound));
    assert!(matches!(router.dispatch("GET", "/form/name"), Dispatch::NotFound));
}

#[test]
fn only_the_form_handler_suspends() {
    assert!(Handler::FormField.suspends());
    assert!(!Handler::Geolocation.suspends());
    assert!(!Handler::Version.suspends());
}
