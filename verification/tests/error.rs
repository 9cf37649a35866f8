use rpm_builder::error::{AppError, ErrorKind};

#[test]
fn new_keeps_kind_and_cause() {
    let e = AppError::new(ErrorKind::InvalidDate, "no date".to_string());
    assert_eq!(e.kind, ErrorKind::InvalidDate);
    assert_eq!(e.cause, "no date");
    assert_eq!(e.message(), "no date");
    let e = AppError::new(ErrorKind::Usage, String::new());
    assert_eq!(e.kind, ErrorKind::Usage);
    assert_eq!(e.message(), "");
}

#[test]
fn errors_compare_by_kind_and_cause() {
    let a = AppError::new(ErrorKind::InvalidFileMapping, "x".to_string());
    assert_eq!(a, AppError::new(ErrorKind::InvalidFileMapping, "x".to_string()));
    assert_ne!(a, AppError::new(ErrorKind::InvalidChangelogEntry, "x".to_string()));
    assert_ne!(a, AppError::new(ErrorKind::InvalidFileMapping, "y".to_string()));
    assert_eq!(a.clone(), a);
}
