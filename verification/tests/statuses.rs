use service_notes::status::{Code, Status, StorageError};

fn status(code: Code, message: &str) -> Status {
    Status { code, message: message.to_string() }
}

#[test]
fn database_error_passes_its_detail_through_as_internal() {
    let error = StorageError::Database { message: "duplicate key value".to_string() };
    assert_eq!(error.into_status(), status(Code::Internal, "duplicate key value"));
}

#[test]
fn missing_row_is_not_found() {
    assert_eq!(StorageError::RowNotFound.into_status(), status(Code::NotFound, "Note not found"));
}

#[test]
fn missing_column_is_not_found() {
    let error = StorageError::ColumnNotFound { name: "title".to_string() };
    assert_eq!(error.into_status(), status(Code::NotFound, "Note not found"));
}

#[test]
fn column_of_another_shape_is_internal() {
    let error = StorageError::ColumnDecode { name: "created".to_string() };
    assert_eq!(error.into_status(), status(Code::Internal, "Unknown error"));
}

#[test]
fn pool_failure_is_unavailable_with_its_detail() {
    let error = StorageError::Pool { detail: "timed out waiting for a connection".to_string() };
    assert_eq!(
        error.into_status(),
        status(Code::Unavailable, "timed out waiting for a connection")
    );
}

#[test]
fn transaction_failure_is_internal_with_its_detail() {
    let error = StorageError::Transaction { detail: "could not commit".to_string() };
    assert_eq!(error.into_status(), status(Code::Internal, "could not commit"));
}

#[test]
fn any_other_failure_is_internal_without_detail() {
    assert_eq!(StorageError::Other.into_status(), status(Code::Internal, "Unknown error"));
}

#[test]
fn status_constructors_fix_code_and_message() {
    assert_eq!(Status::not_found(), status(Code::NotFound, "Note not found"));
    assert_eq!(Status::unknown(), status(Code::Internal, "Unknown error"));
    assert_eq!(Status::internal("boom".to_string()), status(Code::Internal, "boom"));
}
