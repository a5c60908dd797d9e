use notes::error::ServiceError;
use notes::note::{apply_update_fields, CreateNoteRequest, Note, UpdateNoteRequest};
use notes::pagination::{SearchParams, SortDirection, SortField, SortFieldName};
use notes::plan::build_note_query;
use notes::service::NoteServiceImpl;
use notes::store::{delete_result, NoteStore};
use notes::error::NoteRepositoryError;

fn service() -> NoteServiceImpl {
    NoteServiceImpl::new(NoteStore::new())
}

fn create(svc: &mut NoteServiceImpl, title: &str, content: &str, now: i64) -> i64 {
    let req = CreateNoteRequest { title: title.to_string(), content: content.to_string() };
    svc.create_at(req, now).unwrap().id
}

fn is_note_not_found(e: &ServiceError, expected: i64) -> bool {
    matches!(e, ServiceError::NotFound { entity, id } if entity == "Note" && *id == expected)
}

#[test]
fn create_then_find_round_trip() {
    let mut svc = service();
    let created = svc
        .create_at(CreateNoteRequest { title: "A".to_string(), content: "B".to_string() }, 1_000)
        .unwrap();
    assert_eq!(created.id, 1);
    let found = svc.find_by_id(created.id).unwrap();
    assert_eq!(found.title, "A");
    assert_eq!(found.content, "B");
    assert_eq!(found.created_at, found.updated_at);
    assert_eq!(found.created_at.0, 1_000);
}

#[test]
fn create_with_clock_round_trip() {
    let mut svc = service();
    let created = svc.create(CreateNoteRequest { title: "A".to_string(), content: "B".to_string() }).unwrap();
    let found = svc.find_by_id(created.id).unwrap();
    assert_eq!(found.title, "A");
    assert_eq!(found.content, "B");
    assert_eq!(found.created_at, found.updated_at);
}

#[test]
fn create_assigns_increasing_ids() {
    let mut svc = service();
    assert_eq!(create(&mut svc, "one", "x", 1), 1);
    assert_eq!(create(&mut svc, "two", "y", 2), 2);
}

#[test]
fn create_rejects_invalid_request_without_writing() {
    let mut svc = service();
    let err = svc.create_at(CreateNoteRequest { title: "  ".to_string(), content: "B".to_string() }, 5).unwrap_err();
    assert!(matches!(err, ServiceError::Validation(ref m) if m == "Field 'title' must not be empty"));
    assert!(is_note_not_found(&svc.find_by_id(1).unwrap_err(), 1));
}

#[test]
fn empty_update_touches_only_the_time() {
    let mut svc = service();
    let id = create(&mut svc, "A", "B", 100);
    let updated = svc.update_at(id, UpdateNoteRequest { title: None, content: None }, 200).unwrap();
    assert_eq!(updated.title, "A");
    assert_eq!(updated.content, "B");
    assert_eq!(updated.created_at.0, 100);
    assert!(updated.updated_at.0 > 100);
    let found = svc.find_by_id(id).unwrap();
    assert_eq!(found.updated_at.0, 200);
}

#[test]
fn update_replaces_present_fields_only() {
    let mut svc = service();
    let id = create(&mut svc, "A", "B", 100);
    let updated = svc
        .update_at(id, UpdateNoteRequest { title: Some("New".to_string()), content: None }, 300)
        .unwrap();
    assert_eq!(updated.title, "New");
    assert_eq!(updated.content, "B");
    let updated = svc.update(id, UpdateNoteRequest { title: None, content: Some("C".to_string()) }).unwrap();
    assert_eq!(updated.title, "New");
    assert_eq!(updated.content, "C");
}

#[test]
fn update_of_missing_note_is_not_found_and_writes_nothing() {
    let mut svc = service();
    let id = create(&mut svc, "A", "B", 100);
    let err = svc
        .update_at(42, UpdateNoteRequest { title: Some("X".to_string()), content: None }, 500)
        .unwrap_err();
    assert!(is_note_not_found(&err, 42));
    let found = svc.find_by_id(id).unwrap();
    assert_eq!(found.title, "A");
    assert_eq!(found.updated_at.0, 100);
}

#[test]
fn update_validates_before_looking_up() {
    let mut svc = service();
    let err = svc
        .update_at(42, UpdateNoteRequest { title: Some(" ".to_string()), content: None }, 500)
        .unwrap_err();
    assert!(matches!(err, ServiceError::Validation(ref m) if m == "Field 'title' must not be empty"));
}

#[test]
fn delete_missing_then_existing() {
    let mut svc = service();
    let id = create(&mut svc, "A", "B", 100);
    assert!(is_note_not_found(&svc.delete(99).unwrap_err(), 99));
    svc.delete(id).unwrap();
    assert!(is_note_not_found(&svc.find_by_id(id).unwrap_err(), id));
    assert!(is_note_not_found(&svc.delete(id).unwrap_err(), id));
}

#[test]
fn delete_result_from_rows_affected() {
    assert!(matches!(delete_result(5, 0), Err(NoteRepositoryError::NotFound(5))));
    assert!(delete_result(5, 1).is_ok());
}

#[test]
fn find_all_with_no_match_is_empty_page_zero() {
    let mut svc = service();
    create(&mut svc, "hello", "world", 1);
    let mut params = SearchParams::default();
    params.title = Some("zzz-no-match".to_string());
    let page = svc.find_all(params).unwrap();
    assert!(page.notes.is_empty());
    assert_eq!(page.page.number, 0);
    assert_eq!(page.page.total_elements, 0);
    assert_eq!(page.page.total_pages, 0);
    assert_eq!(page.page.size, 20);
}

#[test]
fn find_all_filters_sorts_and_pages() {
    let mut svc = service();
    create(&mut svc, "beta", "shared text", 30);
    create(&mut svc, "alpha", "shared", 10);
    create(&mut svc, "gamma", "other", 20);
    create(&mut svc, "alpha", "shared too", 40);

    let mut params = SearchParams::default();
    params.content = Some("shared".to_string());
    params.order_by = Some("title,-createdAt".to_string());
    params.size = Some("2".to_string());
    let first = svc.find_all(params.clone()).unwrap();
    assert_eq!(first.page.total_elements, 3);
    assert_eq!(first.page.total_pages, 2);
    assert_eq!(first.page.number, 1);
    let ids: Vec<i64> = first.notes.iter().map(|n| n.id).collect();
    assert_eq!(ids, vec![4, 2]);

    params.page = Some("2".to_string());
    let second = svc.find_all(params).unwrap();
    let ids: Vec<i64> = second.notes.iter().map(|n| n.id).collect();
    assert_eq!(ids, vec![1]);
    assert_eq!(second.page.number, 2);
}

#[test]
fn find_all_defaults_to_ascending_id() {
    let mut svc = service();
    create(&mut svc, "c", "x", 3);
    create(&mut svc, "a", "x", 1);
    create(&mut svc, "b", "x", 2);
    let all = svc.find_all(SearchParams::default()).unwrap();
    let ids: Vec<i64> = all.notes.iter().map(|n| n.id).collect();
    assert_eq!(ids, vec![1, 2, 3]);
    let mut params = SearchParams::default();
    params.order_by = Some("-updatedAt".to_string());
    let all = svc.find_all(params).unwrap();
    let ids: Vec<i64> = all.notes.iter().map(|n| n.id).collect();
    assert_eq!(ids, vec![1, 3, 2]);
}

#[test]
fn find_all_page_beyond_the_end() {
    let mut svc = service();
    create(&mut svc, "a", "x", 1);
    let mut params = SearchParams::default();
    params.page = Some("18446744073709551615".to_string());
    let page = svc.find_all(params).unwrap();
    assert!(page.notes.is_empty());
    assert_eq!(page.page.total_elements, 1);
    assert_eq!(page.page.number, u64::MAX);
}

#[test]
fn find_all_reports_validation_errors() {
    let svc = service();
    let mut params = SearchParams::default();
    params.order_by = Some(",".to_string());
    assert!(matches!(svc.find_all(params), Err(ServiceError::Validation(_))));
}

#[test]
fn find_all_with_zero_size_is_an_internal_error() {
    let svc = service();
    let mut params = SearchParams::default();
    params.size = Some("0".to_string());
    assert!(matches!(
        svc.find_all(params),
        Err(ServiceError::Internal(ref m)) if m == "Page size must be positive to page results"
    ));
}

#[test]
fn query_plan_from_params() {
    let mut params = SearchParams::default();
    params.title = Some("t".to_string());
    params.page = Some("3".to_string());
    params.size = Some("25".to_string());
    params.validate().unwrap();
    let plan = build_note_query(&params);
    assert_eq!(plan.offset, 50);
    assert_eq!(plan.limit, 25);
    assert_eq!(plan.title_filter.as_deref(), Some("t"));
    assert!(plan.content_filter.is_none());
    assert_eq!(plan.order, vec![SortField { name: SortFieldName::Id, direction: SortDirection::Ascending }]);
}

#[test]
fn merge_keeps_absent_fields() {
    let note = Note { id: 3, title: "T".to_string(), content: "C".to_string(), created_at: 5, updated_at: 6 };
    let merged = apply_update_fields(note, UpdateNoteRequest { title: None, content: Some("D".to_string()) }, 9);
    assert_eq!(merged.id, 3);
    assert_eq!(merged.title, "T");
    assert_eq!(merged.content, "D");
    assert_eq!(merged.created_at, 5);
    assert_eq!(merged.updated_at, 9);
}
