use notes::app_error::AppError;
use notes::datetime::{format_civil, ordinal_suffix, FormattedDateTime};
use notes::error::{NoteRepositoryError, RepositoryError, ServiceError};

#[test]
fn ordinal_suffixes() {
    let cases = [
        (1, "st"), (2, "nd"), (3, "rd"), (4, "th"), (11, "th"), (12, "th"), (13, "th"),
        (21, "st"), (22, "nd"), (23, "rd"), (30, "th"), (31, "st"), (111, "th"), (112, "th"),
    ];
    for (day, suffix) in cases {
        assert_eq!(ordinal_suffix(day), suffix, "day {day}");
    }
}

#[test]
fn formats_a_timestamp() {
    let t = FormattedDateTime(2_038_221_934_000_000);
    assert_eq!(t.to_display_string().unwrap(), "Thursday, 3rd August 2034, 12:45:34 PM UTC");
    let t = FormattedDateTime(1_709_165_109_000_000);
    assert_eq!(t.to_display_string().unwrap(), "Thursday, 29th February 2024, 12:05:09 AM UTC");
    let t = FormattedDateTime(1_005_570_000_000_000);
    assert_eq!(t.to_display_string().unwrap(), "Monday, 12th November 2001, 01:00:00 PM UTC");
    let t = FormattedDateTime(-1_000_000);
    assert_eq!(t.to_display_string().unwrap(), "Wednesday, 31st December 1969, 11:59:59 PM UTC");
}

#[test]
fn formats_out_of_range_timestamp_as_none() {
    assert!(FormattedDateTime(i64::MAX).to_display_string().is_none());
}

#[test]
fn formats_negative_years() {
    assert_eq!(format_civil((-44, 3, 15, 2, 9, 5, 0)), "Wednesday, 15th March -44, 09:05:00 AM UTC");
}

#[test]
fn service_error_texts() {
    assert_eq!(ServiceError::Validation("bad".to_string()).to_string(), "Validation error: bad");
    assert_eq!(
        ServiceError::NotFound { entity: "Note".to_string(), id: -12 }.to_string(),
        "Note with ID -12 not found"
    );
    assert_eq!(ServiceError::Internal("disk".to_string()).to_string(), "Internal error: disk");
}

#[test]
fn storage_errors_become_service_errors() {
    assert!(matches!(
        ServiceError::from(NoteRepositoryError::NotFound(7)),
        ServiceError::NotFound { ref entity, id: 7 } if entity == "Note"
    ));
    assert!(matches!(
        ServiceError::from(NoteRepositoryError::DatabaseError("boom".to_string())),
        ServiceError::Internal(ref m) if m == "boom"
    ));
    let generic = RepositoryError::from(NoteRepositoryError::NotFound(8));
    assert!(matches!(generic, RepositoryError::NotFound { ref entity, id: 8 } if entity == "Note"));
    assert!(matches!(
        ServiceError::from(RepositoryError::DatabaseError("x".to_string())),
        ServiceError::Internal(ref m) if m == "x"
    ));
}

#[test]
fn status_codes_and_messages() {
    let not_found = AppError::from(ServiceError::NotFound { entity: "Note".to_string(), id: 7 });
    assert_eq!(not_found.status_and_message(), (404, "Note with ID 7 not found".to_string()));
    let invalid = AppError::from(ServiceError::Validation("nope".to_string()));
    assert_eq!(invalid.status_and_message(), (400, "nope".to_string()));
    let internal = AppError::from(ServiceError::Internal("db down".to_string()));
    assert_eq!(internal.status_and_message(), (500, "db down".to_string()));
    let bad = AppError::BadRequest("unreadable".to_string());
    assert_eq!(bad.status_and_message(), (400, "unreadable".to_string()));
}

#[test]
fn query_rejection_names_the_unknown_field() {
    let hint = "Valid parameters: title (string), content (string), page (positive integer), \
                size (positive integer), orderBy (comma-separated fields: id, title, content, createdAt, updatedAt)";
    let e = AppError::from_query_rejection(
        "Failed to deserialize query string: unknown field `sort`, expected one of `title`, `content`",
    );
    match e {
        AppError::BadRequest(m) => assert_eq!(m, format!("Invalid query parameter 'sort'. {hint}")),
        other => panic!("unexpected {other:?}"),
    }
    let e = AppError::from_query_rejection("Failed to deserialize query string: invalid type");
    match e {
        AppError::BadRequest(m) => assert_eq!(m, format!("Invalid query parameters. {hint}")),
        other => panic!("unexpected {other:?}"),
    }
}
