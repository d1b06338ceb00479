use qork::AppError;

#[test]
fn error_messages() {
    assert_eq!(AppError::invalid_url("bad").message(), "invalid URL: bad");
    assert_eq!(AppError::api("alias taken").message(), "alias taken");
    let io = std::io::Error::new(std::io::ErrorKind::PermissionDenied, "denied");
    let e = AppError::from(io);
    assert!(matches!(e, AppError::Io(_)));
    assert_eq!(e.message(), "I/O error: denied");
}
