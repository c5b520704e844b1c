use galleria::admission::{admission_after_insert, admission_error, Admission, AdmissionError};
use galleria::db_error::store_error_from_db;
use galleria::store::StoreError;
use galleria::text::contains_text;
use sea_orm::DbErr;

const UNIQUE_VIOLATION: &str = "error returned from database: duplicate key value violates unique constraint \"idx_unique_discord_channel_id\"";

#[test]
fn unique_violation_on_insert_is_a_conflict() {
    assert_eq!(
        store_error_from_db(&DbErr::Exec(UNIQUE_VIOLATION.to_string())),
        StoreError::Conflict
    );
    assert_eq!(
        store_error_from_db(&DbErr::Query(UNIQUE_VIOLATION.to_string())),
        StoreError::Conflict
    );
}

#[test]
fn lost_admission_race_reports_conflict() {
    let err = store_error_from_db(&DbErr::Query(UNIQUE_VIOLATION.to_string()));
    assert_eq!(admission_after_insert(Err(err)), Admission::Failed(AdmissionError::Conflict));
    assert_eq!(admission_error(err), AdmissionError::Conflict);
}

#[test]
fn other_database_errors_are_storage_failures() {
    assert_eq!(
        store_error_from_db(&DbErr::Exec("error returned from database: relation \"gallery\" does not exist".to_string())),
        StoreError::Storage
    );
    assert_eq!(
        store_error_from_db(&DbErr::Conn("pool timed out".to_string())),
        StoreError::Storage
    );
    assert_eq!(
        store_error_from_db(&DbErr::Custom(UNIQUE_VIOLATION.to_string())),
        StoreError::Storage
    );
    assert_eq!(
        store_error_from_db(&DbErr::RecordNotFound("gallery".to_string())),
        StoreError::NotFound
    );
}

#[test]
fn substring_search() {
    assert!(contains_text("abcabd", "abd"));
    assert!(contains_text("abc", ""));
    assert!(contains_text("abc", "abc"));
    assert!(!contains_text("abc", "abcd"));
    assert!(!contains_text("ab_c", "bc"));
    assert!(contains_text("日本語のテキスト", "のテ"));
}
