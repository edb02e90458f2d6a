use trip_page::order::SortKey;
use trip_page::query::{lookup, query_parameter};

fn text(value: &str) -> Option<String> {
    Some(value.to_string())
}

#[test]
fn parameter_is_found_among_others() {
    assert_eq!(query_parameter("foo=bar&baz=qux&", "foo"), text("bar"));
    assert_eq!(query_parameter("foo=bar&baz=qux&", "baz"), text("qux"));
    assert_eq!(query_parameter("foo=bar&baz=qux&", "qux"), None);
}

#[test]
fn pieces_without_equals_sign_are_skipped() {
    let query = "a=b&b=c&something_else=another-thing&notright#&blank=&ignoreme!";
    assert_eq!(query_parameter(query, "a"), text("b"));
    assert_eq!(query_parameter(query, "something_else"), text("another-thing"));
    assert_eq!(query_parameter(query, "blank"), text(""));
    assert_eq!(query_parameter(query, "notright#"), None);
    assert_eq!(query_parameter(query, "ignoreme!"), None);
    assert_eq!(query_parameter("arbitrary string", "arbitrary string"), None);
}

#[test]
fn value_ends_at_a_second_equals_sign() {
    assert_eq!(query_parameter("sort=county=x", "sort"), text("county"));
    assert_eq!(query_parameter("=v", ""), text("v"));
    assert_eq!(query_parameter("k==v", "k"), text(""));
}

#[test]
fn last_occurrence_of_a_key_counts() {
    assert_eq!(query_parameter("sort=county&sort=waterway", "sort"), text("waterway"));
    assert_eq!(query_parameter("sort=a&x=1&sort=b&y=2", "sort"), text("b"));
}

#[test]
fn nothing_is_unescaped() {
    assert_eq!(query_parameter("sort=cou%6Ety", "sort"), text("cou%6Ety"));
    assert_eq!(query_parameter("sort=a+b", "sort"), text("a+b"));
}

#[test]
fn empty_query_has_no_parameters() {
    assert_eq!(query_parameter("", "sort"), None);
    assert_eq!(query_parameter("&&", "sort"), None);
}

#[test]
fn lookup_reads_the_last_pair_with_the_key() {
    let pairs = vec![
        ("a".to_string(), "1".to_string()),
        ("b".to_string(), "2".to_string()),
        ("a".to_string(), "3".to_string()),
    ];
    assert_eq!(lookup(&pairs, "a"), text("3"));
    assert_eq!(lookup(&pairs, "b"), text("2"));
    assert_eq!(lookup(&pairs, "c"), None);
    assert_eq!(lookup(&Vec::new(), "a"), None);
}

#[test]
fn sort_county_selects_county() {
    assert_eq!(SortKey::requested("sort=county"), SortKey::County);
    assert_eq!(SortKey::requested("page=2&sort=county"), SortKey::County);
    assert_eq!(SortKey::requested("sort=county&page=2"), SortKey::County);
    assert_eq!(SortKey::requested("sort=waterway&sort=county"), SortKey::County);
}

#[test]
fn every_other_query_selects_waterway() {
    assert_eq!(SortKey::requested(""), SortKey::Waterway);
    assert_eq!(SortKey::requested("sort=waterway"), SortKey::Waterway);
    assert_eq!(SortKey::requested("sort="), SortKey::Waterway);
    assert_eq!(SortKey::requested("sort"), SortKey::Waterway);
    assert_eq!(SortKey::requested("sort=County"), SortKey::Waterway);
    assert_eq!(SortKey::requested("sort=county "), SortKey::Waterway);
    assert_eq!(SortKey::requested("sort=counties"), SortKey::Waterway);
    assert_eq!(SortKey::requested("Sort=county"), SortKey::Waterway);
    assert_eq!(SortKey::requested("order=county"), SortKey::Waterway);
    assert_eq!(SortKey::requested("sort=county&sort=x"), SortKey::Waterway);
}

#[test]
fn select_reads_the_parameter_value() {
    assert_eq!(SortKey::select(Some("county")), SortKey::County);
    assert_eq!(SortKey::select(Some("waterway")), SortKey::Waterway);
    assert_eq!(SortKey::select(Some("")), SortKey::Waterway);
    assert_eq!(SortKey::select(None), SortKey::Waterway);
}

#[test]
fn labels_name_the_keys() {
    assert_eq!(SortKey::County.label(), "county");
    assert_eq!(SortKey::Waterway.label(), "waterway");
}
