//! Status codes of Gemini responses and their classification.
//!
//! A response begins with a two-digit numeric code. Codes from 10 to 69 are
//! valid and fall into six classes by their tens digit; every other code is
//! rejected.

use vstd::prelude::*;

verus! {

/// Error of the status classifier: the code lies outside the valid range.
#[derive(Debug, Clone, Copy, PartialEq, Eq, Structural)]
pub enum StatusError {
    UnknownStatus(u8),
}

/// A recognised status code. Codes with no variant of their own fall back to
/// the first variant of their tens-digit class.
#[derive(Debug, Clone, Copy, PartialEq, Eq, Structural)]
pub enum Status {
    InputExpected,
    SensitiveInput,
    Success,
    TemporaryRedirect,
    PermanentRedirect,
    TemporaryFailure,
    ServerUnavailable,
    CgiError,
    ProxyError,
    SlowDown,
    PermanentFailure,
    NotFound,
    Gone,
    ProxyRequestRefused,
    BadRequest,
    ClientCertificate,
    CertificateNotAuthorized,
    CertificateNotValid,
}

/// One of the six classes a valid status code belongs to, named by its tens
/// digit.
#[derive(Debug, Clone, Copy, PartialEq, Eq, Structural)]
pub enum StatusClass {
    Input,
    Success,
    Redirect,
    TemporaryFailure,
    PermanentFailure,
    ClientCertificateRequired,
}

/// The status a numeric code stands for: the named code where one exists,
/// the first code of its class otherwise, and an error outside 10..=69.
pub open spec fn spec_status_of(code: u8) -> Result<Status, StatusError> {
    if code == 10 {
        Ok(Status::InputExpected)
    } else if code == 11 {
        Ok(Status::SensitiveInput)
    } else if code == 20 {
        Ok(Status::Success)
    } else if code == 30 {
        Ok(Status::TemporaryRedirect)
    } else if code == 31 {
        Ok(Status::PermanentRedirect)
    } else if code == 40 {
        Ok(Status::TemporaryFailure)
    } else if code == 41 {
        Ok(Status::ServerUnavailable)
    } else if code == 42 {
        Ok(Status::CgiError)
    } else if code == 43 {
        Ok(Status::ProxyError)
    } else if code == 44 {
        Ok(Status::SlowDown)
    } else if code == 50 {
        Ok(Status::PermanentFailure)
    } else if code == 51 {
        Ok(Status::NotFound)
    } else if code == 52 {
        Ok(Status::Gone)
    } else if code == 53 {
        Ok(Status::ProxyRequestRefused)
    } else if code == 59 {
        Ok(Status::BadRequest)
    } else if code == 60 {
        Ok(Status::ClientCertificate)
    } else if code == 61 {
        Ok(Status::CertificateNotAuthorized)
    } else if code == 62 {
        Ok(Status::CertificateNotValid)
    } else if 10 <= code && code <= 19 {
        Ok(Status::InputExpected)
    } else if 20 <= code && code <= 29 {
        Ok(Status::Success)
    } else if 30 <= code && code <= 39 {
        Ok(Status::TemporaryRedirect)
    } else if 40 <= code && code <= 49 {
        Ok(Status::TemporaryFailure)
    } else if 50 <= code && code <= 59 {
        Ok(Status::PermanentFailure)
    } else if 60 <= code && code <= 69 {
        Ok(Status::ClientCertificate)
    } else {
        Err(StatusError::UnknownStatus(code))
    }
}

/// The class a valid code belongs to, read off its tens digit.
pub open spec fn spec_class_of(code: u8) -> StatusClass
    recommends
        10 <= code <= 69,
{
    if code / 10 == 1 {
        StatusClass::Input
    } else if code / 10 == 2 {
        StatusClass::Success
    } else if code / 10 == 3 {
        StatusClass::Redirect
    } else if code / 10 == 4 {
        StatusClass::TemporaryFailure
    } else if code / 10 == 5 {
        StatusClass::PermanentFailure
    } else {
        StatusClass::ClientCertificateRequired
    }
}

impl Status {
    /// The class this status belongs to.
    pub open spec fn spec_class(self) -> StatusClass {
        match self {
            Status::InputExpected => StatusClass::Input,
            Status::SensitiveInput => StatusClass::Input,
            Status::Success => StatusClass::Success,
            Status::TemporaryRedirect => StatusClass::Redirect,
            Status::PermanentRedirect => StatusClass::Redirect,
            Status::TemporaryFailure => StatusClass::TemporaryFailure,
            Status::ServerUnavailable => StatusClass::TemporaryFailure,
            Status::CgiError => StatusClass::TemporaryFailure,
            Status::ProxyError => StatusClass::TemporaryFailure,
            Status::SlowDown => StatusClass::TemporaryFailure,
            Status::PermanentFailure => StatusClass::PermanentFailure,
            Status::NotFound => StatusClass::PermanentFailure,
            Status::Gone => StatusClass::PermanentFailure,
            Status::ProxyRequestRefused => StatusClass::PermanentFailure,
            Status::BadRequest => StatusClass::PermanentFailure,
            Status::ClientCertificate => StatusClass::ClientCertificateRequired,
            Status::CertificateNotAuthorized => StatusClass::ClientCertificateRequired,
            Status::CertificateNotValid => StatusClass::ClientCertificateRequired,
        }
    }

    /// The class this status belongs to.
    pub fn class(&self) -> (c: StatusClass)
        ensures
            c == self.spec_class(),
    {
        match self {
            Status::InputExpected => StatusClass::Input,
            Status::SensitiveInput => StatusClass::Input,
            Status::Success => StatusClass::Success,
            Status::TemporaryRedirect => StatusClass::Redirect,
            Status::PermanentRedirect => StatusClass::Redirect,
            Status::TemporaryFailure => StatusClass::TemporaryFailure,
            Status::ServerUnavailable => StatusClass::TemporaryFailure,
            Status::CgiError => StatusClass::TemporaryFailure,
            Status::ProxyError => StatusClass::TemporaryFailure,
            Status::SlowDown => StatusClass::TemporaryFailure,
            Status::PermanentFailure => StatusClass::PermanentFailure,
            Status::NotFound => StatusClass::PermanentFailure,
            Status::Gone => StatusClass::PermanentFailure,
            Status::ProxyRequestRefused => StatusClass::PermanentFailure,
            Status::BadRequest => StatusClass::PermanentFailure,
            Status::ClientCertificate => StatusClass::ClientCertificateRequired,
            Status::CertificateNotAuthorized => StatusClass::ClientCertificateRequired,
            Status::CertificateNotValid => StatusClass::ClientCertificateRequired,
        }
    }

    /// The status a numeric code stands for, or the code itself as an error
    /// when it lies outside 10..=69.
    pub fn try_from(value: u8) -> (r: Result<Status, StatusError>)
        ensures
            r == spec_status_of(value),
    {
        match value {
            10 => Ok(Status::InputExpected),
            11 => Ok(Status::SensitiveInput),
            20 => Ok(Status::Success),
            30 => Ok(Status::TemporaryRedirect),
            31 => Ok(Status::PermanentRedirect),
            40 => Ok(Status::TemporaryFailure),
            41 => Ok(Status::ServerUnavailable),
            42 => Ok(Status::CgiError),
            43 => Ok(Status::ProxyError),
            44 => Ok(Status::SlowDown),
            50 => Ok(Status::PermanentFailure),
            51 => Ok(Status::NotFound),
            52 => Ok(Status::Gone),
            53 => Ok(Status::ProxyRequestRefused),
            59 => Ok(Status::BadRequest),
            60 => Ok(Status::ClientCertificate),
            61 => Ok(Status::CertificateNotAuthorized),
            62 => Ok(Status::CertificateNotValid),
            12..=19 => Ok(Status::InputExpected),
            21..=29 => Ok(Status::Success),
            32..=39 => Ok(Status::TemporaryRedirect),
            45..=49 => Ok(Status::TemporaryFailure),
            54..=58 => Ok(Status::PermanentFailure),
            63..=69 => Ok(Status::ClientCertificate),
            _ => Err(StatusError::UnknownStatus(value)),
        }
    }
}

/// Maps a numeric code to its class: exactly the class of the tens digit on
/// codes from 10 to 69, an error on every other code.
pub fn classify(code: u8) -> (r: Result<StatusClass, StatusError>)
    ensures
        10 <= code <= 69 ==> r == Ok::<StatusClass, StatusError>(spec_class_of(code)),
        !(10 <= code <= 69) ==> r == Err::<StatusClass, StatusError>(
            StatusError::UnknownStatus(code),
        ),
{
    proof {
        lemma_classification_consistent();
    }
    match Status::try_from(code) {
        Ok(status) => Ok(status.class()),
        Err(e) => Err(e),
    }
}

/// Classification is total and consistent: every code from 10 to 69 maps to
/// exactly one status, whose class is the one its tens digit names, and every
/// code outside that range is rejected as unknown.
pub proof fn lemma_classification_consistent()
    ensures
        forall|code: u8|
            10 <= code <= 69 ==> (#[trigger] spec_status_of(code)) is Ok && spec_status_of(
                code,
            )->Ok_0.spec_class() == spec_class_of(code),
        forall|code: u8|
            !(10 <= code <= 69) ==> (#[trigger] spec_status_of(code)) == Err::<
                Status,
                StatusError,
            >(StatusError::UnknownStatus(code)),
{
}

} // verus!
