//! Status codes: every valid code classifies by its tens digit, every
//! other code is refused.

use gemclient::status::classify;
use gemclient::status::Status;
use gemclient::status::StatusClass;
use gemclient::status::StatusError;

#[test]
fn test_classify_all_valid_codes() {
    for code in 10u8..=69u8 {
        let class = classify(code).unwrap();
        let expected = match code / 10 {
            1 => StatusClass::Input,
            2 => StatusClass::Success,
            3 => StatusClass::Redirect,
            4 => StatusClass::TemporaryFailure,
            5 => StatusClass::PermanentFailure,
            _ => StatusClass::ClientCertificateRequired,
        };
        assert_eq!(class, expected);
    }
}

#[test]
fn test_classify_rejects_codes_out_of_range() {
    for code in 0u8..10u8 {
        assert_eq!(classify(code), Err(StatusError::UnknownStatus(code)));
    }
    for code in 70u8..=255u8 {
        assert_eq!(classify(code), Err(StatusError::UnknownStatus(code)));
    }
}

#[test]
fn test_named_statuses() {
    assert_eq!(Status::try_from(10), Ok(Status::InputExpected));
    assert_eq!(Status::try_from(11), Ok(Status::SensitiveInput));
    assert_eq!(Status::try_from(20), Ok(Status::Success));
    assert_eq!(Status::try_from(30), Ok(Status::TemporaryRedirect));
    assert_eq!(Status::try_from(31), Ok(Status::PermanentRedirect));
    assert_eq!(Status::try_from(40), Ok(Status::TemporaryFailure));
    assert_eq!(Status::try_from(41), Ok(Status::ServerUnavailable));
    assert_eq!(Status::try_from(42), Ok(Status::CgiError));
    assert_eq!(Status::try_from(43), Ok(Status::ProxyError));
    assert_eq!(Status::try_from(44), Ok(Status::SlowDown));
    assert_eq!(Status::try_from(50), Ok(Status::PermanentFailure));
    assert_eq!(Status::try_from(51), Ok(Status::NotFound));
    assert_eq!(Status::try_from(52), Ok(Status::Gone));
    assert_eq!(Status::try_from(53), Ok(Status::ProxyRequestRefused));
    assert_eq!(Status::try_from(59), Ok(Status::BadRequest));
    assert_eq!(Status::try_from(60), Ok(Status::ClientCertificate));
    assert_eq!(Status::try_from(61), Ok(Status::CertificateNotAuthorized));
    assert_eq!(Status::try_from(62), Ok(Status::CertificateNotValid));
}

#[test]
fn test_unnamed_codes_fall_back_to_their_class() {
    assert_eq!(Status::try_from(15), Ok(Status::InputExpected));
    assert_eq!(Status::try_from(27), Ok(Status::Success));
    assert_eq!(Status::try_from(35), Ok(Status::TemporaryRedirect));
    assert_eq!(Status::try_from(45), Ok(Status::TemporaryFailure));
    assert_eq!(Status::try_from(55), Ok(Status::PermanentFailure));
    assert_eq!(Status::try_from(69), Ok(Status::ClientCertificate));
    assert_eq!(Status::try_from(9), Err(StatusError::UnknownStatus(9)));
    assert_eq!(Status::try_from(70), Err(StatusError::UnknownStatus(70)));
}
