use full_stack_demo::api::{cause_internal_server_error, cause_not_implemented_error};
use full_stack_demo::errors::{AppError, Condition, StorageError};

#[test]
fn every_error_has_its_status() {
    assert_eq!(AppError::NotFound.status_code(), 404);
    assert_eq!(AppError::InternalServerError.status_code(), 500);
    assert_eq!(AppError::NotImplementedError.status_code(), 501);
}

#[test]
fn statuses_are_distinct() {
    let all = [AppError::NotFound, AppError::InternalServerError, AppError::NotImplementedError];
    for a in all.iter() {
        for b in all.iter() {
            assert_eq!(a.status_code() == b.status_code(), a == b);
        }
    }
}

#[test]
fn every_error_has_its_message() {
    assert_eq!(AppError::NotFound.message(), "Not Found");
    assert_eq!(AppError::InternalServerError.message(), "Internal Server Error");
    assert_eq!(AppError::NotImplementedError.message(), "Not Implemented");
}

#[test]
fn conditions_are_classified() {
    assert_eq!(AppError::classify(Condition::Missing), AppError::NotFound);
    assert_eq!(AppError::classify(Condition::Unimplemented), AppError::NotImplementedError);
    assert_eq!(AppError::classify(Condition::Unexpected), AppError::InternalServerError);
    assert_eq!(
        AppError::classify(Condition::Storage(StorageError::Unavailable)),
        AppError::InternalServerError
    );
    assert_eq!(
        AppError::from_storage(StorageError::ConstraintViolation),
        AppError::InternalServerError
    );
}

#[test]
fn diagnostic_operations_always_fail() {
    let mut todos = full_stack_demo::todos::Todos::new();
    assert_eq!(cause_internal_server_error(), Err(AppError::InternalServerError));
    assert_eq!(cause_not_implemented_error(), Err(AppError::NotImplementedError));
    assert_eq!(todos.add_todo("X".to_string()), Ok(()));
    assert_eq!(cause_internal_server_error(), Err(AppError::InternalServerError));
    assert_eq!(cause_not_implemented_error(), Err(AppError::NotImplementedError));
    assert_eq!(cause_internal_server_error().unwrap_err().status_code(), 500);
    assert_eq!(cause_not_implemented_error().unwrap_err().status_code(), 501);
}
