use notes::error::ServiceError;
use notes::note::{CreateNoteRequest, UpdateNoteRequest};
use notes::pagination::{SearchParams, SortDirection, SortField, SortFieldName};
use notes::validation::{validate_order_by, validate_page, validate_size, validate_string_filter};

const ALL_NAMES: &str = "id, title, content, createdAt, updatedAt";

fn some(s: &str) -> Option<String> {
    Some(s.to_string())
}

fn validation_message(r: Result<impl std::fmt::Debug, ServiceError>) -> String {
    match r {
        Err(ServiceError::Validation(m)) => m,
        other => panic!("expected a validation error, got {:?}", other),
    }
}

#[test]
fn page_defaults_to_one() {
    assert_eq!(validate_page(&None).unwrap(), 1);
}

#[test]
fn page_zero_is_floored_to_one() {
    assert_eq!(validate_page(&some("0")).unwrap(), 1);
}

#[test]
fn page_is_trimmed_and_parsed() {
    assert_eq!(validate_page(&some(" 7 ")).unwrap(), 7);
    assert_eq!(validate_page(&some("+5")).unwrap(), 5);
    assert_eq!(validate_page(&some("18446744073709551615")).unwrap(), u64::MAX);
}

#[test]
fn page_non_numeric_fails() {
    assert_eq!(
        validation_message(validate_page(&some("abc"))),
        "Parameter 'page' must be a positive integer, got 'abc'"
    );
    assert_eq!(
        validation_message(validate_page(&some(" -1 "))),
        "Parameter 'page' must be a positive integer, got '-1'"
    );
    assert_eq!(
        validation_message(validate_page(&some("18446744073709551616"))),
        "Parameter 'page' must be a positive integer, got '18446744073709551616'"
    );
    assert!(validate_page(&some("+")).is_err());
    assert!(validate_page(&some("1 2")).is_err());
}

#[test]
fn page_empty_or_blank_fails() {
    assert_eq!(validation_message(validate_page(&some(""))), "Parameter 'page' must not be blank");
    assert_eq!(validation_message(validate_page(&some(" "))), "Parameter 'page' must not be blank");
    assert_eq!(validation_message(validate_page(&some("\t\u{a0}\n"))), "Parameter 'page' must not be blank");
}

#[test]
fn size_rules() {
    assert_eq!(validate_size(&None).unwrap(), 20);
    assert_eq!(validate_size(&some("100")).unwrap(), 100);
    assert_eq!(validate_size(&some("1")).unwrap(), 1);
    assert_eq!(validate_size(&some("0")).unwrap(), 0);
    assert_eq!(validation_message(validate_size(&some("101"))), "Parameter 'size' must not exceed 100");
    assert_eq!(validation_message(validate_size(&some("  "))), "Parameter 'size' must not be blank");
    assert_eq!(
        validation_message(validate_size(&some("ten"))),
        "Parameter 'size' must be a positive integer, got 'ten'"
    );
}

#[test]
fn order_by_keeps_token_order() {
    let fields = validate_order_by(&some("title,-createdAt")).unwrap().unwrap();
    assert_eq!(
        fields,
        vec![
            SortField { name: SortFieldName::Title, direction: SortDirection::Ascending },
            SortField { name: SortFieldName::CreatedAt, direction: SortDirection::Descending },
        ]
    );
}

#[test]
fn order_by_trims_skips_empty_and_reads_prefixes() {
    let fields = validate_order_by(&some(" +id , ,-updatedAt,content ")).unwrap().unwrap();
    assert_eq!(
        fields,
        vec![
            SortField { name: SortFieldName::Id, direction: SortDirection::Ascending },
            SortField { name: SortFieldName::UpdatedAt, direction: SortDirection::Descending },
            SortField { name: SortFieldName::Content, direction: SortDirection::Ascending },
        ]
    );
}

#[test]
fn order_by_absent_gives_none() {
    assert!(validate_order_by(&None).unwrap().is_none());
}

#[test]
fn order_by_without_fields_fails() {
    let expected = format!("Parameter 'orderBy' must contain at least one field. Valid fields: {ALL_NAMES}");
    assert_eq!(validation_message(validate_order_by(&some(","))), expected);
    assert_eq!(validation_message(validate_order_by(&some("   "))), expected);
    assert_eq!(validation_message(validate_order_by(&some(""))), expected);
}

#[test]
fn order_by_unknown_field_fails() {
    assert_eq!(
        validation_message(validate_order_by(&some("bogus"))),
        format!("Unknown sort field: 'bogus'. Valid fields: {ALL_NAMES}")
    );
    assert_eq!(
        validation_message(validate_order_by(&some("title,-Title"))),
        format!("Unknown sort field: 'Title'. Valid fields: {ALL_NAMES}")
    );
    assert_eq!(
        validation_message(validate_order_by(&some("-+id"))),
        format!("Unknown sort field: '+id'. Valid fields: {ALL_NAMES}")
    );
}

#[test]
fn order_by_first_unknown_field_wins() {
    assert_eq!(
        validation_message(validate_order_by(&some("a,,b"))),
        format!("Unknown sort field: 'a'. Valid fields: {ALL_NAMES}")
    );
}

#[test]
fn string_filter_rules() {
    assert!(validate_string_filter(&None, "title").is_ok());
    assert!(validate_string_filter(&some(" x "), "title").is_ok());
    assert_eq!(
        validation_message(validate_string_filter(&some("  "), "content")),
        "Parameter 'content' must not be blank"
    );
}

#[test]
fn create_request_rules() {
    let ok = CreateNoteRequest { title: "A".to_string(), content: "B".to_string() };
    assert!(ok.validate().is_ok());
    let blank_title = CreateNoteRequest { title: " ".to_string(), content: " ".to_string() };
    assert_eq!(validation_message(blank_title.validate()), "Field 'title' must not be empty");
    let long_title = CreateNoteRequest { title: "x".repeat(256), content: "B".to_string() };
    assert_eq!(validation_message(long_title.validate()), "Field 'title' must be at most 255 characters");
    let max_title = CreateNoteRequest { title: "é".repeat(255), content: "B".to_string() };
    assert!(max_title.validate().is_ok());
    let blank_content = CreateNoteRequest { title: "A".to_string(), content: "\n".to_string() };
    assert_eq!(validation_message(blank_content.validate()), "Field 'content' must not be empty");
}

#[test]
fn update_request_rules() {
    let empty = UpdateNoteRequest { title: None, content: None };
    assert!(empty.validate().is_ok());
    let blank_content = UpdateNoteRequest { title: None, content: some(" ") };
    assert_eq!(validation_message(blank_content.validate()), "Field 'content' must not be empty");
    let both_bad = UpdateNoteRequest { title: some(""), content: some(" ") };
    assert_eq!(validation_message(both_bad.validate()), "Field 'title' must not be empty");
}

#[test]
fn search_params_validation_fills_parsed_fields() {
    let mut params = SearchParams::default();
    params.page = some("3");
    params.size = some("10");
    params.order_by = some("-title");
    params.validate().unwrap();
    assert_eq!(params.parsed_page, 3);
    assert_eq!(params.parsed_size, 10);
    assert_eq!(
        params.sort_fields,
        vec![SortField { name: SortFieldName::Title, direction: SortDirection::Descending }]
    );

    let mut defaults = SearchParams::default();
    defaults.validate().unwrap();
    assert_eq!(defaults.parsed_page, 1);
    assert_eq!(defaults.parsed_size, 20);
    assert!(defaults.sort_fields.is_empty());
}

#[test]
fn search_params_validation_order() {
    let mut params = SearchParams::default();
    params.title = some(" ");
    params.page = some("x");
    assert_eq!(validation_message(params.validate()), "Parameter 'title' must not be blank");

    let mut params = SearchParams::default();
    params.page = some("x");
    params.size = some("500");
    assert_eq!(
        validation_message(params.validate()),
        "Parameter 'page' must be a positive integer, got 'x'"
    );

    let mut params = SearchParams::default();
    params.size = some("500");
    params.order_by = some("bogus");
    assert_eq!(validation_message(params.validate()), "Parameter 'size' must not exceed 100");
}
