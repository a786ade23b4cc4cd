use edge_router::form::{FormBody, FormEntry};
use edge_router::geo::{render_geolocation, GeolocationRecord};
use edge_router::response::HttpResponse;
use edge_router::router::Router;
use edge_router::service::{handle_request, standard_routes};

const OVERRIDE: &str = "text/html;charset=UTF-8";

fn table() -> Router {
    match standard_routes() {
        Ok(router) => router,
        Err(_) => panic!("standard route table must register"),
    }
}

fn bare_record() -> GeolocationRecord {
    GeolocationRecord {
        colo: String::from("EWR"),
        country: None,
        city: None,
        continent: None,
        coordinates: None,
        postal_code: None,
        metro_code: None,
        region: None,
        region_code: None,
    }
}

fn full_record() -> GeolocationRecord {
    GeolocationRecord {
        colo: String::from("EWR"),
        country: Some(String::from("US")),
        city: Some(String::from("Newark")),
        continent: Some(String::from("NA")),
        coordinates: Some((String::from("40.7357"), String::from("-74.1724"))),
        postal_code: Some(String::from("07102")),
        metro_code: Some(String::from("501")),
        region: Some(String::from("New Jersey")),
        region_code: Some(String::from("NJ")),
    }
}

fn serve(method: &str, path: &str, body: Result<&FormBody, &String>, version: &Option<String>) -> HttpResponse {
    let router = table();
    let record = bare_record();
    handle_request(&router, method, path, &record, body, version)
}

fn page_shell(content: &str) -> String {
    let mut page = String::from(
        "<!DOCTYPE html>\n        <head>\n        <title> Geolocation: Hello World </title>\n        <style> $body{padding:6em; font-family: sans-serif;} h1{color:#f6821f;} </style>\n        </head>\n        <body>\n        <h1>Geolocation: Hello World!</h1>\n        <p>You now have access to geolocation data about where your user is visiting from.</p>\n        ",
    );
    page.push_str(content);
    page.push_str("\n    </body>");
    page
}

#[test]
fn geolocation_absent_fields_render_placeholders() {
    let page = render_geolocation(&bare_record());
    let expected = page_shell(
        "<p> Colo: EWR </p><p> Country: unknown country </p><p> City: unknown city </p>\
         <p> Continent: unknown continent </p><p> Latitude: 0 </p><p> Longitude: 0 </p>\
         <p> PostalCode: unknown postalCode </p><p> MetroCode: unknown metroCode </p>\
         <p> Region: unknown region </p><p> RegionCode: unknown regionCode </p>",
    );
    assert_eq!(page, expected);
}

#[test]
fn geolocation_present_fields_render_values() {
    let page = render_geolocation(&full_record());
    let expected = page_shell(
        "<p> Colo: EWR </p><p> Country: US </p><p> City: Newark </p>\
         <p> Continent: NA </p><p> Latitude: 40.7357 </p><p> Longitude: -74.1724 </p>\
         <p> PostalCode: 07102 </p><p> MetroCode: 501 </p>\
         <p> Region: New Jersey </p><p> RegionCode: NJ </p>",
    );
    assert_eq!(page, expected);
}

#[test]
fn geolocation_render_is_pure() {
    let record = full_record();
    let first = render_geolocation(&record);
    let second = render_geolocation(&record);
    assert_eq!(first, second);
}

#[test]
fn geolocation_route_serves_the_page() {
    let response = serve("GET", "/", Err(&String::from("unread")), &None);
    assert_eq!(response.status, 200);
    assert_eq!(response.body, render_geolocation(&bare_record()));
    assert_eq!(response.content_type, OVERRIDE);
}

#[test]
fn form_scalar_field_yields_json() {
    let mut form = FormBody::new();
    form.push(String::from("name"), FormEntry::Field(String::from("Bob")));
    let response = serve("POST", "/form/name", Ok(&form), &None);
    assert_eq!(response.status, 200);
    assert_eq!(response.body, "{\"name\":\"Bob\"}");
    assert_eq!(response.content_type, OVERRIDE);
}

#[test]
fn form_first_entry_of_name_is_consulted() {
    let mut form = FormBody::new();
    form.push(String::from("name"), FormEntry::Field(String::from("Bob")));
    form.push(String::from("name"), FormEntry::Field(String::from("Eve")));
    let response = serve("POST", "/form/name", Ok(&form), &None);
    assert_eq!(response.status, 200);
    assert_eq!(response.body, "{\"name\":\"Bob\"}");
}

#[test]
fn form_file_entry_yields_422() {
    let mut form = FormBody::new();
    form.push(String::from("name"), FormEntry::File);
    let response = serve("POST", "/form/name", Ok(&form), &None);
    assert_eq!(response.status, 422);
    assert_eq!(response.body, "`field` param in form shouldn't be a File");
}

#[test]
fn form_missing_entry_yields_400() {
    let form = FormBody::new();
    let response = serve("POST", "/form/name", Ok(&form), &None);
    assert_eq!(response.status, 400);
    assert_eq!(response.body, "Bad Request");
}

#[test]
fn form_unreadable_body_propagates_the_error() {
    let message = String::from("error reading the request body");
    let response = serve("POST", "/form/name", Err(&message), &None);
    assert_eq!(response.status, 500);
    assert_eq!(response.body, "error reading the request body");
}

#[test]
fn version_present_returns_exact_value() {
    let version = Some(String::from("1.2.3"));
    let response = serve("GET", "/worker-version", Err(&String::from("unread")), &version);
    assert_eq!(response.status, 200);
    assert_eq!(response.body, "1.2.3");
}

#[test]
fn version_absent_surfaces_an_error() {
    let response = serve("GET", "/worker-version", Err(&String::from("unread")), &None);
    assert_eq!(response.status, 500);
    assert_ne!(response.body, "");
    assert_eq!(response.body, "missing configuration value");
}

#[test]
fn content_type_is_overridden_for_every_route() {
    let version = Some(String::from("1.2.3"));
    let mut form = FormBody::new();
    form.push(String::from("name"), FormEntry::Field(String::from("Bob")));
    let geolocation = serve("GET", "/", Ok(&form), &version);
    let json = serve("POST", "/form/name", Ok(&form), &version);
    let text = serve("GET", "/worker-version", Ok(&form), &version);
    let miss = serve("GET", "/missing", Ok(&form), &version);
    assert_eq!(geolocation.content_type, OVERRIDE);
    assert_eq!(json.content_type, OVERRIDE);
    assert_eq!(text.content_type, OVERRIDE);
    assert_eq!(miss.content_type, OVERRIDE);
}

#[test]
fn not_found_has_no_handler_effect() {
    let response = serve("DELETE", "/form/name", Err(&String::from("unread")), &None);
    assert_eq!(response.status, 404);
    assert_eq!(response.body, "Not Found");
    assert_eq!(response.content_type, OVERRIDE);
}
