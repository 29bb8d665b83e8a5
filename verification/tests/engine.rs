use memoire::filter::{apply_filters, matches_condition, Condition, FilterError};
use memoire::pagination::{calculate_content_range, parse_range};
use memoire::sort::{generic_sort, SortDirection};

fn searchable() -> Vec<String> {
    vec![
        "title".to_string(),
        "description".to_string(),
        "start_time".to_string(),
        "end_time".to_string(),
    ]
}

fn sortable() -> Vec<String> {
    vec![
        "id".to_string(),
        "title".to_string(),
        "description".to_string(),
        "start_time".to_string(),
        "end_time".to_string(),
    ]
}

fn record(title: Option<&str>, description: Option<&str>) -> Vec<(String, Option<String>)> {
    vec![
        ("title".to_string(), title.map(|s| s.to_string())),
        ("description".to_string(), description.map(|s| s.to_string())),
    ]
}

#[test]
fn range_defaults_when_absent() {
    assert_eq!(parse_range(None), (0, 25));
}

#[test]
fn range_parses_inclusive_window() {
    assert_eq!(parse_range(Some("[5,9]".to_string())), (5, 5));
    assert_eq!(parse_range(Some("[0,0]".to_string())), (0, 1));
}

#[test]
fn range_defaults_on_malformed_input() {
    assert_eq!(parse_range(Some("not json".to_string())), (0, 25));
    assert_eq!(parse_range(Some("[\"a\",\"b\"]".to_string())), (0, 25));
    assert_eq!(parse_range(Some("[]".to_string())), (0, 25));
}

#[test]
fn range_defaults_on_inverted_window() {
    assert_eq!(parse_range(Some("[9,5]".to_string())), (0, 25));
}

#[test]
fn range_fills_missing_end_with_default() {
    assert_eq!(parse_range(Some("[7]".to_string())), (7, 18));
}

#[test]
fn header_reports_window_and_total() {
    assert_eq!(calculate_content_range(0, 25, 100, "events"), "events 0-24/100");
}

#[test]
fn header_caps_window_at_total() {
    assert_eq!(calculate_content_range(0, 25, 10, "events"), "events 0-9/10");
}

#[test]
fn sort_defaults_when_absent() {
    let (col, dir) = generic_sort(None, &sortable(), "id");
    assert_eq!(col, "id");
    assert_eq!(dir, SortDirection::Ascending);
}

#[test]
fn sort_resolves_known_column_and_direction() {
    let (col, dir) = generic_sort(Some("[\"title\",\"DESC\"]".to_string()), &sortable(), "id");
    assert_eq!(col, "title");
    assert_eq!(dir, SortDirection::Descending);
}

#[test]
fn sort_falls_back_on_unknown_column() {
    let (col, dir) = generic_sort(Some("[\"nope\",\"ASC\"]".to_string()), &sortable(), "id");
    assert_eq!(col, "id");
    assert_eq!(dir, SortDirection::Ascending);
}

#[test]
fn sort_malformed_direction_is_descending() {
    let (col, dir) = generic_sort(Some("[\"title\",\"asc\"]".to_string()), &sortable(), "id");
    assert_eq!(col, "title");
    assert_eq!(dir, SortDirection::Descending);
}

#[test]
fn free_text_filter_matches_any_column_case_insensitively() {
    let cond = apply_filters(Some("{\"q\":\"needle\"}".to_string()), &searchable()).unwrap();
    assert!(matches_condition(&cond, &record(Some("The NEEDLE"), None)));
    assert!(matches_condition(&cond, &record(None, Some("a needle here"))));
    assert!(!matches_condition(&cond, &record(Some("nothing"), Some("else"))));
    assert!(!matches_condition(&cond, &record(None, None)));
}

#[test]
fn column_filter_matches_substring_case_insensitively() {
    let cond = apply_filters(Some("{\"title\": \"  AbC \"}".to_string()), &searchable()).unwrap();
    assert!(matches_condition(&cond, &record(Some("xxabcx"), None)));
    assert!(!matches_condition(&cond, &record(Some("xx ab cx"), None)));
    assert!(!matches_condition(&cond, &record(None, Some("abc"))));
}

#[test]
fn uuid_filter_matches_exactly_not_as_substring() {
    let id = "550e8400-e29b-41d4-a716-446655440000";
    let raw = format!("{{\"title\": \"{}\"}}", id);
    let cond = apply_filters(Some(raw), &searchable()).unwrap();
    assert!(matches_condition(&cond, &record(Some(id), None)));
    let padded = format!("x{}x", id);
    assert!(!matches_condition(&cond, &record(Some(padded.as_str()), None)));
}

#[test]
fn missing_filter_matches_everything() {
    let cond = apply_filters(None, &searchable()).unwrap();
    assert!(matches_condition(&cond, &record(None, None)));
    assert!(matches_condition(&cond, &record(Some("x"), Some("y"))));
}

#[test]
fn malformed_filter_fails_open() {
    let cond = apply_filters(Some("not json".to_string()), &searchable()).unwrap();
    assert!(matches_condition(&cond, &record(None, None)));
    let cond = apply_filters(Some("{\"title\": 5}".to_string()), &searchable()).unwrap();
    assert!(matches_condition(&cond, &record(None, None)));
}

#[test]
fn unknown_filter_column_is_rejected() {
    let err = apply_filters(Some("{\"bogus\":\"v\"}".to_string()), &searchable()).unwrap_err();
    let FilterError::UnknownColumn(k) = err;
    assert_eq!(k, "bogus");
}

#[test]
fn free_text_mode_ignores_other_keys() {
    let cond = apply_filters(
        Some("{\"bogus\":\"v\",\"q\":\"abc\"}".to_string()),
        &searchable(),
    )
    .unwrap();
    assert!(matches_condition(&cond, &record(Some("xABCx"), None)));
    assert!(!matches_condition(&cond, &record(Some("v"), None)));
}

#[test]
fn empty_condition_is_empty_conjunction() {
    let cond = apply_filters(None, &searchable()).unwrap();
    match cond {
        Condition::All(preds) => assert!(preds.is_empty()),
        Condition::AnyContains { .. } => panic!("expected a conjunction"),
    }
}

#[test]
fn filter_error_message_names_the_column() {
    let err = apply_filters(Some("{\"bogus\":\"v\"}".to_string()), &searchable()).unwrap_err();
    assert_eq!(err.message(), "unknown filter column: bogus");
}
