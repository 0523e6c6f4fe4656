//! The alert that ends a failed handshake.

use vstd::prelude::*;

verus! {

/// How severe an alert is.
#[derive(Clone, Copy, Debug, PartialEq, Eq, Structural)]
pub enum AlertLevel {
    Warning,
    Fatal,
}

/// What an alert reports.
#[derive(Clone, Copy, Debug, PartialEq, Eq, Structural)]
pub enum AlertDescription {
    CloseNotify,
    UnexpectedMessage,
    BadRecordMac,
    DecryptionFailed,
    RecordOverflow,
    DecompressionFailure,
    HandshakeFailure,
    NoCertificate,
    BadCertificate,
    UnsupportedCertificate,
    CertificateRevoked,
    CertificateExpired,
    CertificateUnknown,
    IllegalParameter,
    UnknownCa,
    AccessDenied,
    DecodeError,
    DecryptError,
    ExportRestriction,
    ProtocolVersion,
    InsufficientSecurity,
    InternalError,
    UserCanceled,
    NoRenegotiation,
    UnsupportedExtension,
}

/// An alert to be sent to the peer.
#[derive(Clone, Copy, Debug, PartialEq, Eq, Structural)]
pub struct Alert {
    pub alert_level: AlertLevel,
    pub alert_description: AlertDescription,
}

/// The fatal alert with the given description.
pub open spec fn fatal_alert(alert_description: AlertDescription) -> Alert {
    Alert { alert_level: AlertLevel::Fatal, alert_description }
}

/// Makes the fatal alert with the given description.
pub fn fatal(alert_description: AlertDescription) -> (alert: Alert)
    ensures
        alert == fatal_alert(alert_description),
{
    Alert { alert_level: AlertLevel::Fatal, alert_description }
}

} // verus!
