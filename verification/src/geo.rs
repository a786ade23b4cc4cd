//! The geolocation page: a pure render of the request's geolocation record
//! into HTML, with a fixed placeholder line for every absent field.

use vstd::prelude::*;
use vstd::string::StringExecFns;

verus! {

/// The geolocation metadata the network edge attaches to a request. Every
/// field but `colo` may be absent; the coordinates come as a pair or not at
/// all, already rendered as text.
pub struct GeolocationRecord {
    pub colo: String,
    pub country: Option<String>,
    pub city: Option<String>,
    pub continent: Option<String>,
    pub coordinates: Option<(String, String)>,
    pub postal_code: Option<String>,
    pub metro_code: Option<String>,
    pub region: Option<String>,
    pub region_code: Option<String>,
}

/// The mathematical shape of a geolocation record.
pub struct GeolocationView {
    pub colo: Seq<char>,
    pub country: Option<Seq<char>>,
    pub city: Option<Seq<char>>,
    pub continent: Option<Seq<char>>,
    pub coordinates: Option<(Seq<char>, Seq<char>)>,
    pub postal_code: Option<Seq<char>>,
    pub metro_code: Option<Seq<char>>,
    pub region: Option<Seq<char>>,
    pub region_code: Option<Seq<char>>,
}

/// The view of an optional text field.
pub open spec fn opt_view(field: Option<String>) -> Option<Seq<char>> {
    match field {
        Some(value) => Some(value@),
        None => None,
    }
}

impl View for GeolocationRecord {
    type V = GeolocationView;

    open spec fn view(&self) -> GeolocationView {
        GeolocationView {
            colo: self.colo@,
            country: opt_view(self.country),
            city: opt_view(self.city),
            continent: opt_view(self.continent),
            coordinates: match self.coordinates {
                Some(pair) => Some((pair.0@, pair.1@)),
                None => None,
            },
            postal_code: opt_view(self.postal_code),
            metro_code: opt_view(self.metro_code),
            region: opt_view(self.region),
            region_code: opt_view(self.region_code),
        }
    }
}

/// An optional field renders as its value, or as the fixed placeholder when
/// it is absent.
pub open spec fn rendered(field: Option<Seq<char>>, placeholder: Seq<char>) -> Seq<char> {
    match field {
        Some(value) => value,
        None => placeholder,
    }
}

/// The latitude of a coordinate pair; `0` when the pair is absent.
pub open spec fn latitude_text(coordinates: Option<(Seq<char>, Seq<char>)>) -> Seq<char> {
    match coordinates {
        Some(pair) => pair.0,
        None => "0"@,
    }
}

/// The longitude of a coordinate pair; `0` when the pair is absent.
pub open spec fn longitude_text(coordinates: Option<(Seq<char>, Seq<char>)>) -> Seq<char> {
    match coordinates {
        Some(pair) => pair.1,
        None => "0"@,
    }
}

/// The page's embedded style block.
pub open spec fn page_style() -> Seq<char> {
    "body{padding:6em; font-family: sans-serif;} h1{color:#f6821f;}"@
}

/// The geolocation page a record renders to: the static shell around one
/// line per field, absent fields shown as `unknown <fieldname>` and absent
/// coordinates as `0`/`0`. A pure function of the record: rendering the
/// same record again gives byte-identical HTML.
pub open spec fn geolocation_page(record: GeolocationView) -> Seq<char> {
    "<!DOCTYPE html>\n        <head>\n        <title> Geolocation: Hello World </title>\n        <style> $"@
        + page_style()
        + " </style>\n        </head>\n        <body>\n        <h1>Geolocation: Hello World!</h1>\n        <p>You now have access to geolocation data about where your user is visiting from.</p>\n        <p> Colo: "@
        + record.colo + " </p>"@ + "<p> Country: "@ + rendered(record.country, "unknown country"@)
        + " </p>"@ + "<p> City: "@ + rendered(record.city, "unknown city"@) + " </p>"@
        + "<p> Continent: "@ + rendered(record.continent, "unknown continent"@) + " </p>"@
        + "<p> Latitude: "@ + latitude_text(record.coordinates) + " </p>"@ + "<p> Longitude: "@
        + longitude_text(record.coordinates) + " </p>"@ + "<p> PostalCode: "@ + rendered(
        record.postal_code,
        "unknown postalCode"@,
    ) + " </p>"@ + "<p> MetroCode: "@ + rendered(record.metro_code, "unknown metroCode"@)
        + " </p>"@ + "<p> Region: "@ + rendered(record.region, "unknown region"@) + " </p>"@
        + "<p> RegionCode: "@ + rendered(record.region_code, "unknown regionCode"@) + " </p>"@
        + "\n    </body>"@
}

/// Appends the field's value, or the placeholder when it is absent.
fn append_rendered(page: &mut String, field: &Option<String>, placeholder: &str)
    ensures
        final(page)@ == old(page)@ + rendered(opt_view(*field), placeholder@),
{
    match field {
        Some(value) => page.append(value.as_str()),
        None => page.append(placeholder),
    }
}

/// Renders a geolocation record to the HTML page reported for it. Pure and
/// deterministic: the page is a function of the record alone.
pub fn render_geolocation(record: &GeolocationRecord) -> (page: String)
    ensures
        page@ == geolocation_page(record@),
{
    let mut page = String::from_str(
        "<!DOCTYPE html>\n        <head>\n        <title> Geolocation: Hello World </title>\n        <style> $",
    );
    page.append("body{padding:6em; font-family: sans-serif;} h1{color:#f6821f;}");
    page.append(
        " </style>\n        </head>\n        <body>\n        <h1>Geolocation: Hello World!</h1>\n        <p>You now have access to geolocation data about where your user is visiting from.</p>\n        <p> Colo: ",
    );
    page.append(record.colo.as_str());
    page.append(" </p>");
    page.append("<p> Country: ");
    append_rendered(&mut page, &record.country, "unknown country");
    page.append(" </p>");
    page.append("<p> City: ");
    append_rendered(&mut page, &record.city, "unknown city");
    page.append(" </p>");
    page.append("<p> Continent: ");
    append_rendered(&mut page, &record.continent, "unknown continent");
    page.append(" </p>");
    page.append("<p> Latitude: ");
    match &record.coordinates {
        Some(pair) => page.append(pair.0.as_str()),
        None => page.append("0"),
    }
    page.append(" </p>");
    page.append("<p> Longitude: ");
    match &record.coordinates {
        Some(pair) => page.append(pair.1.as_str()),
        None => page.append("0"),
    }
    page.append(" </p>");
    page.append("<p> PostalCode: ");
    append_rendered(&mut page, &record.postal_code, "unknown postalCode");
    page.append(" </p>");
    page.append("<p> MetroCode: ");
    append_rendered(&mut page, &record.metro_code, "unknown metroCode");
    page.append(" </p>");
    page.append("<p> Region: ");
    append_rendered(&mut page, &record.region, "unknown region");
    page.append(" </p>");
    page.append("<p> RegionCode: ");
    append_rendered(&mut page, &record.region_code, "unknown regionCode");
    page.append(" </p>");
    page.append("\n    </body>");
    page
}

/// Rendering is idempotent and pure: any two renders of the same record are
/// byte-identical.
pub proof fn lemma_render_deterministic(
    first: Seq<char>,
    second: Seq<char>,
    record: GeolocationView,
)
    requires
        first == geolocation_page(record),
        second == geolocation_page(record),
    ensures
        first == second,
{
}

} // verus!
