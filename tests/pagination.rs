use notes::pagination::{build_page_info, PageInfo, SearchParams, SortFieldName};

#[test]
fn page_info_for_empty_result() {
    assert_eq!(
        build_page_info(4, 20, 0),
        PageInfo { size: 20, number: 0, total_elements: 0, total_pages: 0 }
    );
}

#[test]
fn page_info_rounds_pages_up() {
    assert_eq!(
        build_page_info(2, 10, 25),
        PageInfo { size: 10, number: 2, total_elements: 25, total_pages: 3 }
    );
    assert_eq!(build_page_info(1, 100, 100).total_pages, 1);
    assert_eq!(build_page_info(1, 100, 101).total_pages, 2);
    assert_eq!(build_page_info(1, 1, u64::MAX).total_pages, u64::MAX);
    assert_eq!(build_page_info(1, 7, u64::MAX).total_pages, u64::MAX / 7 + 1);
}

#[test]
fn page_info_echoes_page_beyond_the_end() {
    let info = build_page_info(9, 10, 5);
    assert_eq!(info.number, 9);
    assert_eq!(info.total_pages, 1);
}

#[test]
fn page_info_law_on_samples() {
    for size in 1..=100u64 {
        for total in [0u64, 1, 2, 99, 100, 101, 1000, 12345] {
            let info = build_page_info(1, size, total);
            assert_eq!(info.total_pages, total.div_ceil(size));
            assert_eq!(info.number == 0, info.total_pages == 0);
        }
    }
}

#[test]
fn field_names_list() {
    assert_eq!(SortFieldName::all_names(), "id, title, content, createdAt, updatedAt");
    assert_eq!(SortFieldName::CreatedAt.to_string(), "createdAt");
    assert_eq!(SortFieldName::from_str("updatedAt"), Ok(SortFieldName::UpdatedAt));
    assert_eq!(
        SortFieldName::from_str("ID"),
        Err("Unknown sort field: 'ID'. Valid fields: id, title, content, createdAt, updatedAt".to_string())
    );
    assert_eq!(SortFieldName::all().len(), 5);
}

#[test]
fn params_hint_lists_every_parameter() {
    assert_eq!(
        SearchParams::params_hint(),
        "Valid parameters: title (string), content (string), page (positive integer), size (positive integer), \
         orderBy (comma-separated fields: id, title, content, createdAt, updatedAt)"
    );
    let params = SearchParams::query_params();
    assert_eq!(params.len(), 4);
    assert_eq!(params[2].name, "page");
    assert_eq!(params[2].kind, "positive integer");
}
