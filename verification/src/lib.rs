//! A minimal edge HTTP core: a path router over literal, named (`:x`) and
//! catch-all (`*x`) segments, the handlers it dispatches to (a geolocation
//! page renderer, a form-field extractor, a configuration-version reporter),
//! and the uniform response post-processing that overrides the content type.

pub mod form;
pub mod geo;
pub mod paths;
pub mod response;
pub mod router;
pub mod service;
pub mod version;
