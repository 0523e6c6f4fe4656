//! What the application has set for the handshake.

use vstd::prelude::*;

use crate::signature_hash_algorithm::SignatureHashAlgorithm;

verus! {

/// A certificate of this side.  The private key stays with its keeper, who
/// knows it by a number.
#[derive(Debug, PartialEq, Eq)]
pub struct Certificate {
    pub certificate: Vec<u8>,
    pub private_key: u64,
}

/// A certificate as plain values.
#[verifier::ext_equal]
pub struct CertificateView {
    pub certificate: Seq<u8>,
    pub private_key: u64,
}

impl View for Certificate {
    type V = CertificateView;

    open spec fn view(&self) -> CertificateView {
        CertificateView { certificate: self.certificate@, private_key: self.private_key }
    }
}

/// The certificate that there may be, as plain values.
pub open spec fn certificate_view(certificate: Option<Certificate>) -> Option<CertificateView> {
    match certificate {
        Some(certificate) => Some(certificate@),
        None => None,
    }
}

/// The settings of a handshake.  Of a callback only its presence is known
/// here; to call it is asked of the caller.
#[derive(Debug)]
pub struct HandshakeConfig {
    /// Whether the application hands out pre-shared keys.
    pub has_local_psk_callback: bool,
    pub local_psk_identity_hint: Vec<u8>,
    pub local_signature_schemes: Vec<SignatureHashAlgorithm>,
    pub server_name: String,
    pub local_certificates: Vec<Certificate>,
    pub insecure_skip_verify: bool,
    /// Whether the application looks at the peer's certificate itself.
    pub has_verify_peer_certificate: bool,
    pub initial_epoch: u16,
}

} // verus!
