use ipinfo::{IpError, IpErrorKind};

#[test]
fn error_keeps_kind_and_message() {
    let error = IpError::new(IpErrorKind::IpRequestError, Some("Unknown token"));
    assert_eq!(error.kind(), IpErrorKind::IpRequestError);
    assert_eq!(error.description(), Some("Unknown token".to_string()));
    assert_eq!(error.status(), None);

    let error = IpError::new(IpErrorKind::RateLimitExceededError, None);
    assert_eq!(error.kind(), IpErrorKind::RateLimitExceededError);
    assert_eq!(error.description(), None);
    assert_eq!(error.status(), None);
}

#[test]
fn refusal_keeps_the_status() {
    let error = IpError::from_status(503);
    assert_eq!(error.kind(), IpErrorKind::IpRequestError);
    assert_eq!(error.description(), None);
    assert_eq!(error.status(), Some(503));
}

#[test]
fn copy_of_an_error_is_equal() {
    let error = IpError::new(IpErrorKind::ParseError, Some("unexpected end"));
    assert_eq!(error.clone(), error);
    assert_ne!(error, IpError::new(IpErrorKind::ParseError, None));
    assert_ne!(
        error,
        IpError::new(IpErrorKind::HTTPClientError, Some("unexpected end"))
    );
}
