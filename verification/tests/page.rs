use trip_page::config::{Config, Transport};
use trip_page::context::{trip_value, RenderContext};
use trip_page::order::SortKey;
use trip_page::page::{
    page_context, respond, response, sort_page_handler, PageError, PageTemplate, RenderError,
    PAGE_TEMPLATE, RESPONSE_HEADER, TEMPLATE_NAME,
};
use trip_page::record::{Cell, Column, DecodeError, FromRowError, RawRow, Trip};

fn found(text: &str) -> Cell<String> {
    Cell::Found(text.to_string())
}

fn row(id: u32, waterway: &str, county: &str, finish: Option<&str>, name: Option<&str>) -> RawRow {
    RawRow {
        id: Cell::Found(id),
        waterway: found(waterway),
        county: found(county),
        start: found("Bridge A"),
        finish: Cell::Found(finish.map(|f| f.to_string())),
        name: Cell::Found(name.map(|n| n.to_string())),
    }
}

fn trip(id: u32, waterway: &str, county: &str) -> Trip {
    Trip {
        id,
        waterway: waterway.to_string(),
        county: county.to_string(),
        start: "Bridge A".to_string(),
        finish: Some("Dam".to_string()),
        contributor: None,
    }
}

fn bundled() -> PageTemplate {
    PageTemplate::compile(PAGE_TEMPLATE).unwrap()
}

fn body_of(response: &str) -> &str {
    response.strip_prefix("Content-Type: text/html\n\n").unwrap()
}

#[test]
fn response_is_header_blank_line_body() {
    assert_eq!(response("<p>hi</p>"), "Content-Type: text/html\n\n<p>hi</p>");
    assert_eq!(response(""), "Content-Type: text/html\n\n");
    assert_eq!(RESPONSE_HEADER, "Content-Type: text/html\n\n");
    assert_eq!(TEMPLATE_NAME, "sorttemplate.htm");
}

#[test]
fn respond_frames_a_body_and_passes_an_error_on() {
    assert_eq!(respond(Ok("x".to_string())), Ok("Content-Type: text/html\n\nx".to_string()));
    let error = RenderError { message: "no".to_string() };
    assert_eq!(respond(Err(error.clone())), Err(PageError::Render(error)));
}

#[test]
fn no_rows_render_an_empty_list() {
    let response = sort_page_handler("", Vec::new(), &bundled()).unwrap();
    let body = body_of(&response);
    assert!(body.starts_with("<!DOCTYPE html>"));
    assert!(body.contains("<table>"));
    assert!(body.trim_end().ends_with("</html>"));
    assert!(!body.contains("<tr id="));
    assert!(!body.contains("<td"));
}

#[test]
fn one_row_sorted_by_county() {
    let config = Config { tcp: true, db_string: "mysql://trips@localhost/trips".to_string() };
    assert_eq!(config.transport(), Transport::Tcp);
    let rows = vec![row(1, "Elk River", "Franklin", None, Some(" Sam "))];
    let response = sort_page_handler("sort=county", rows, &bundled()).unwrap();
    assert!(response.starts_with("Content-Type: text/html\n\n"));
    let body = body_of(&response);
    assert!(body.contains("<b id=\"sort_type\">county</b>"));
    assert_eq!(body.matches("<tr id=").count(), 1);
    assert!(body.contains("<tr id=\"trip-1\">"));
    assert!(body.contains("<td class=\"waterway\">Elk River</td>"));
    assert!(body.contains("<td class=\"county\">Franklin</td>"));
    assert!(body.contains("<td class=\"start\">Bridge A</td>"));
    assert!(body.contains("<td class=\"finish\"></td>"));
    assert!(body.contains("<td class=\"contributor\">Sam</td>"));
}

#[test]
fn one_row_with_empty_query_is_sorted_by_waterway() {
    let rows = vec![row(1, "Elk River", "Franklin", None, Some(" Sam "))];
    let by_default = sort_page_handler("", rows.clone(), &bundled()).unwrap();
    assert!(body_of(&by_default).contains("<b id=\"sort_type\">waterway</b>"));
    let by_county = sort_page_handler("sort=county", rows, &bundled()).unwrap();
    assert_eq!(
        body_of(&by_default).replace("waterway</b>", "county</b>").replace(
            "Trips by waterway",
            "Trips by county"
        ),
        body_of(&by_county)
    );
}

#[test]
fn rows_appear_in_the_requested_order() {
    let rows = vec![
        row(1, "Meramec River", "Crawford", Some("Onondaga"), None),
        row(2, "Big Piney", "Texas", None, Some("Ann")),
        row(3, "Elk River", "McDonald", None, None),
    ];
    let by_county = sort_page_handler("sort=county", rows.clone(), &bundled()).unwrap();
    let first = by_county.find("trip-1").unwrap();
    let second = by_county.find("trip-3").unwrap();
    let third = by_county.find("trip-2").unwrap();
    assert!(first < second && second < third);
    let by_waterway = sort_page_handler("sort=other", rows, &bundled()).unwrap();
    let first = by_waterway.find("trip-2").unwrap();
    let second = by_waterway.find("trip-3").unwrap();
    let third = by_waterway.find("trip-1").unwrap();
    assert!(first < second && second < third);
    assert!(by_waterway.contains("<td class=\"finish\">Onondaga</td>"));
}

#[test]
fn texts_are_escaped_in_the_page() {
    let rows = vec![row(1, "<b>Elk</b>", "A&B", None, Some("\"Sam\""))];
    let response = sort_page_handler("", rows, &bundled()).unwrap();
    assert!(!response.contains("<b>Elk</b>"));
    assert!(response.contains("&lt;b&gt;Elk&lt;"));
    assert!(response.contains("A&amp;B"));
}

#[test]
fn undecodable_row_ends_the_request() {
    let mut bad = row(2, "Big Piney", "Texas", None, None);
    bad.county = Cell::Missing;
    let rows = vec![row(1, "Elk River", "Franklin", None, None), bad.clone()];
    assert_eq!(
        sort_page_handler("sort=county", rows, &bundled()),
        Err(PageError::Decode(FromRowError {
            row: bad,
            cause: DecodeError::Missing(Column::County)
        }))
    );
}

#[test]
fn template_that_does_not_parse_is_refused() {
    let outcome = PageTemplate::compile("{% for trip in trips %}{{ trip.id }}");
    assert!(outcome.is_err());
    assert!(!outcome.err().unwrap().message.is_empty());
}

#[test]
fn template_that_asks_for_more_than_the_context_fails_to_render() {
    let template = PageTemplate::compile("{{ sort_type }} {{ page_size + 1 }}").unwrap();
    let context = RenderContext::new(SortKey::County, Vec::new());
    let outcome = template.render(&context);
    assert!(outcome.is_err());
    let handled = sort_page_handler("", Vec::new(), &template);
    assert!(matches!(handled, Err(PageError::Render(_))));
}

#[test]
fn own_template_sees_both_entries() {
    let template = PageTemplate::compile(
        "{{ sort_type }}:{% for trip in trips %}{{ trip.id }}={{ trip.county }},{% endfor %}",
    )
    .unwrap();
    let trips = vec![trip(10, "b", "y"), trip(20, "a", "z"), trip(30, "c", "x")];
    let by_county = RenderContext::new(SortKey::County, trips.clone());
    assert_eq!(template.render(&by_county), Ok("county:30=x,10=y,20=z,".to_string()));
    let by_waterway = RenderContext::new(SortKey::Waterway, trips);
    assert_eq!(template.render(&by_waterway), Ok("waterway:20=z,10=y,30=x,".to_string()));
}

#[test]
fn context_reports_key_and_ordered_trips() {
    let trips = vec![trip(1, "b", "y"), trip(2, "a", "z")];
    let context = RenderContext::for_request("sort=county", trips.clone());
    assert_eq!(context.sort(), SortKey::County);
    assert_eq!(context.sort_type(), "county");
    assert_eq!(context.trips(), &trips);
    let context = RenderContext::for_request("sort=nothing", trips.clone());
    assert_eq!(context.sort(), SortKey::Waterway);
    assert_eq!(context.sort_type(), "waterway");
    assert_eq!(context.trips(), &vec![trips[1].clone(), trips[0].clone()]);
}

#[test]
fn engine_context_holds_the_two_entries() {
    let context = RenderContext::new(SortKey::County, vec![trip(1, "b", "y")]);
    let entries = context.to_engine();
    assert_eq!(entries.get("sort_type").and_then(|v| v.as_str()), Some("county"));
    assert_eq!(entries.get("trips").and_then(|v| v.as_array()).map(|a| a.len()), Some(1));
    assert!(!entries.contains_key("trip"));
    let by_waterway = RenderContext::new(SortKey::Waterway, Vec::new()).to_engine();
    assert_eq!(by_waterway.get("sort_type").and_then(|v| v.as_str()), Some("waterway"));
    assert_eq!(by_waterway.get("trips").and_then(|v| v.as_array()).map(|a| a.len()), Some(0));
}

fn read_back(value: &tera::Value) -> Trip {
    let fields = value.as_map().unwrap();
    assert_eq!(fields.len(), 6);
    let text = |name: &str| value.get_from_path(name).unwrap().as_str().map(|s| s.to_string());
    Trip {
        id: value.get_from_path("id").unwrap().as_u64().unwrap() as u32,
        waterway: text("waterway").unwrap(),
        county: text("county").unwrap(),
        start: text("start").unwrap(),
        finish: text("finish"),
        contributor: text("contributor"),
    }
}

#[test]
fn trips_entry_reads_back_as_the_trips() {
    let mut trips = vec![trip(3, "c", "x"), trip(4_000_000_000, "a", "z"), trip(0, "b", "y")];
    trips[0].finish = None;
    trips[0].contributor = Some("Sam".to_string());
    trips[1].start = String::new();
    trips[2].finish = Some(String::new());
    let context = RenderContext::new(SortKey::Waterway, trips.clone());
    let entries = context.to_engine();
    let items = entries.get("trips").unwrap().as_array().unwrap();
    let back: Vec<Trip> = items.iter().map(read_back).collect();
    assert_eq!(back.len(), 3);
    assert_eq!(&back, context.trips());
    assert_eq!(back, vec![trips[1].clone(), trips[2].clone(), trips[0].clone()]);
}

#[test]
fn unknown_fields_are_the_none_value() {
    let mut unknown = trip(5, "w", "c");
    unknown.finish = None;
    let value = trip_value(&unknown);
    assert!(value.get_from_path("finish").unwrap().is_none());
    assert!(value.get_from_path("contributor").unwrap().is_none());
    assert!(value.get_from_path("id").unwrap().is_u64());
    assert!(value.get_from_path("date").is_none());
}

#[test]
fn page_context_decodes_and_orders() {
    let rows = vec![
        row(1, "Meramec River", "Crawford", Some("Onondaga"), Some("  Jane  ")),
        row(2, "Big Piney", "Texas", None, None),
        row(3, "Elk River", "McDonald", None, Some(" Sam ")),
    ];
    let by_county = page_context("x=1&sort=county", rows.clone()).unwrap();
    assert_eq!(by_county.sort_type(), "county");
    let counties: Vec<&str> = by_county.trips().iter().map(|t| t.county.as_str()).collect();
    assert_eq!(counties, vec!["Crawford", "McDonald", "Texas"]);
    assert_eq!(by_county.trips()[0].contributor, Some("Jane".to_string()));
    assert_eq!(by_county.trips()[0].finish, Some("Onondaga".to_string()));
    let by_waterway = page_context("sort=length", rows).unwrap();
    assert_eq!(by_waterway.sort_type(), "waterway");
    let waterways: Vec<&str> = by_waterway.trips().iter().map(|t| t.waterway.as_str()).collect();
    assert_eq!(waterways, vec!["Big Piney", "Elk River", "Meramec River"]);
    assert_eq!(by_waterway.trips()[1].contributor, Some("Sam".to_string()));
}

#[test]
fn page_context_of_no_rows_is_empty() {
    let context = page_context("sort=county", Vec::new()).unwrap();
    assert_eq!(context.sort(), SortKey::County);
    assert!(context.trips().is_empty());
}

#[test]
fn page_context_reports_the_first_bad_row() {
    let mut bad = row(2, "Big Piney", "Texas", None, None);
    bad.name = Cell::Incompatible;
    let mut worse = row(3, "Elk River", "McDonald", None, None);
    worse.id = Cell::Missing;
    let outcome = page_context("", vec![row(1, "a", "b", None, None), bad.clone(), worse]);
    assert_eq!(
        outcome.err(),
        Some(FromRowError { row: bad, cause: DecodeError::Incompatible(Column::Name) })
    );
}
