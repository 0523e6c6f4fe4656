//! Handshake messages and what they hold.

pub mod handshake_random;

use vstd::prelude::*;

use crate::bytes::{copy, copy_list, list_view};
use crate::curve::{EllipticCurveType, NamedCurve};
use crate::signature_hash_algorithm::{HashAlgorithm, SignatureAlgorithm};

verus! {

/// The kinds of handshake message.
#[derive(Clone, Copy, Debug, PartialEq, Eq, Structural)]
pub enum HandshakeType {
    HelloRequest,
    ClientHello,
    ServerHello,
    HelloVerifyRequest,
    Certificate,
    ServerKeyExchange,
    CertificateRequest,
    ServerHelloDone,
    CertificateVerify,
    ClientKeyExchange,
    Finished,
    Invalid,
}

/// A chain of certificates, or one empty certificate where there is none.
#[derive(Debug, PartialEq, Eq)]
pub struct HandshakeMessageCertificate {
    pub certificate: Vec<Vec<u8>>,
}

/// The proof that the sender of a certificate has its private key.
#[derive(Debug, PartialEq, Eq)]
pub struct HandshakeMessageCertificateVerify {
    pub hash_algorithm: HashAlgorithm,
    pub signature_algorithm: SignatureAlgorithm,
    pub signature: Vec<u8>,
}

/// The client's share of the key exchange.
#[derive(Debug, PartialEq, Eq)]
pub struct HandshakeMessageClientKeyExchange {
    pub identity_hint: Vec<u8>,
    pub public_key: Vec<u8>,
}

/// The server's share of the key exchange.
#[derive(Debug, PartialEq, Eq)]
pub struct HandshakeMessageServerKeyExchange {
    pub identity_hint: Vec<u8>,
    pub elliptic_curve_type: EllipticCurveType,
    pub named_curve: NamedCurve,
    pub public_key: Vec<u8>,
    pub hash_algorithm: HashAlgorithm,
    pub signature_algorithm: SignatureAlgorithm,
    pub signature: Vec<u8>,
}

/// The end of one side's handshake.
#[derive(Debug, PartialEq, Eq)]
pub struct HandshakeMessageFinished {
    pub verify_data: Vec<u8>,
}

/// A handshake message.
#[derive(Debug, PartialEq, Eq)]
pub enum HandshakeMessage {
    Certificate(HandshakeMessageCertificate),
    CertificateVerify(HandshakeMessageCertificateVerify),
    ClientKeyExchange(HandshakeMessageClientKeyExchange),
    ServerKeyExchange(HandshakeMessageServerKeyExchange),
    Finished(HandshakeMessageFinished),
    /// A message of another kind, whose body is not looked into.
    Other(HandshakeType),
}

/// What precedes the body of a message.  The lengths are left to the writer.
#[derive(Clone, Copy, Debug, PartialEq, Eq, Structural)]
pub struct HandshakeHeader {
    pub handshake_type: HandshakeType,
    pub message_sequence: u16,
}

/// A handshake message behind its header.
#[derive(Debug, PartialEq, Eq)]
pub struct Handshake {
    pub handshake_header: HandshakeHeader,
    pub handshake_message: HandshakeMessage,
}

/// The server's share of the key exchange as plain values.
#[verifier::ext_equal]
pub struct ServerKeyExchangeView {
    pub identity_hint: Seq<u8>,
    pub elliptic_curve_type: EllipticCurveType,
    pub named_curve: NamedCurve,
    pub public_key: Seq<u8>,
    pub hash_algorithm: HashAlgorithm,
    pub signature_algorithm: SignatureAlgorithm,
    pub signature: Seq<u8>,
}

/// A handshake message as plain values.
#[verifier::ext_equal]
pub enum HandshakeMessageView {
    Certificate { certificate: Seq<Seq<u8>> },
    CertificateVerify {
        hash_algorithm: HashAlgorithm,
        signature_algorithm: SignatureAlgorithm,
        signature: Seq<u8>,
    },
    ClientKeyExchange { identity_hint: Seq<u8>, public_key: Seq<u8> },
    ServerKeyExchange(ServerKeyExchangeView),
    Finished { verify_data: Seq<u8> },
    Other(HandshakeType),
}

/// A handshake message behind its header, as plain values.
#[verifier::ext_equal]
pub struct HandshakeView {
    pub handshake_header: HandshakeHeader,
    pub handshake_message: HandshakeMessageView,
}

impl View for HandshakeMessageServerKeyExchange {
    type V = ServerKeyExchangeView;

    open spec fn view(&self) -> ServerKeyExchangeView {
        ServerKeyExchangeView {
            identity_hint: self.identity_hint@,
            elliptic_curve_type: self.elliptic_curve_type,
            named_curve: self.named_curve,
            public_key: self.public_key@,
            hash_algorithm: self.hash_algorithm,
            signature_algorithm: self.signature_algorithm,
            signature: self.signature@,
        }
    }
}

impl View for HandshakeMessage {
    type V = HandshakeMessageView;

    open spec fn view(&self) -> HandshakeMessageView {
        match self {
            HandshakeMessage::Certificate(m) => HandshakeMessageView::Certificate {
                certificate: list_view(m.certificate@),
            },
            HandshakeMessage::CertificateVerify(m) => HandshakeMessageView::CertificateVerify {
                hash_algorithm: m.hash_algorithm,
                signature_algorithm: m.signature_algorithm,
                signature: m.signature@,
            },
            HandshakeMessage::ClientKeyExchange(m) => HandshakeMessageView::ClientKeyExchange {
                identity_hint: m.identity_hint@,
                public_key: m.public_key@,
            },
            HandshakeMessage::ServerKeyExchange(m) => HandshakeMessageView::ServerKeyExchange(m@),
            HandshakeMessage::Finished(m) => HandshakeMessageView::Finished {
                verify_data: m.verify_data@,
            },
            HandshakeMessage::Other(typ) => HandshakeMessageView::Other(*typ),
        }
    }
}

impl View for Handshake {
    type V = HandshakeView;

    open spec fn view(&self) -> HandshakeView {
        HandshakeView {
            handshake_header: self.handshake_header,
            handshake_message: self.handshake_message@,
        }
    }
}

impl HandshakeMessageView {
    /// The kind of the message.
    pub open spec fn handshake_type(self) -> HandshakeType {
        match self {
            HandshakeMessageView::Certificate { .. } => HandshakeType::Certificate,
            HandshakeMessageView::CertificateVerify { .. } => HandshakeType::CertificateVerify,
            HandshakeMessageView::ClientKeyExchange { .. } => HandshakeType::ClientKeyExchange,
            HandshakeMessageView::ServerKeyExchange(_) => HandshakeType::ServerKeyExchange,
            HandshakeMessageView::Finished { .. } => HandshakeType::Finished,
            HandshakeMessageView::Other(typ) => typ,
        }
    }
}

/// A message behind a header with its kind and the given number.
pub open spec fn numbered(message: HandshakeMessageView, message_sequence: u16) -> HandshakeView {
    HandshakeView {
        handshake_header: HandshakeHeader {
            handshake_type: message.handshake_type(),
            message_sequence,
        },
        handshake_message: message,
    }
}

/// The server's share of a key exchange in which it sent none.
pub open spec fn no_server_key_exchange() -> ServerKeyExchangeView {
    ServerKeyExchangeView {
        identity_hint: Seq::empty(),
        elliptic_curve_type: EllipticCurveType::Unsupported,
        named_curve: NamedCurve::Unsupported,
        public_key: Seq::empty(),
        hash_algorithm: HashAlgorithm::Unsupported,
        signature_algorithm: SignatureAlgorithm::Unsupported,
        signature: Seq::empty(),
    }
}

impl Default for HandshakeMessageServerKeyExchange {
    /// The share of a server that sent none.
    fn default() -> (r: Self)
        ensures
            r@ == no_server_key_exchange(),
    {
        HandshakeMessageServerKeyExchange {
            identity_hint: Vec::new(),
            elliptic_curve_type: EllipticCurveType::Unsupported,
            named_curve: NamedCurve::Unsupported,
            public_key: Vec::new(),
            hash_algorithm: HashAlgorithm::Unsupported,
            signature_algorithm: SignatureAlgorithm::Unsupported,
            signature: Vec::new(),
        }
    }
}

impl Clone for HandshakeMessageServerKeyExchange {
    fn clone(&self) -> (r: Self)
        ensures
            r@ == self@,
    {
        HandshakeMessageServerKeyExchange {
            identity_hint: copy(self.identity_hint.as_slice()),
            elliptic_curve_type: self.elliptic_curve_type,
            named_curve: self.named_curve,
            public_key: copy(self.public_key.as_slice()),
            hash_algorithm: self.hash_algorithm,
            signature_algorithm: self.signature_algorithm,
            signature: copy(self.signature.as_slice()),
        }
    }
}

impl Clone for HandshakeMessage {
    fn clone(&self) -> (r: Self)
        ensures
            r@ == self@,
    {
        match self {
            HandshakeMessage::Certificate(m) => HandshakeMessage::Certificate(
                HandshakeMessageCertificate { certificate: copy_list(&m.certificate) },
            ),
            HandshakeMessage::CertificateVerify(m) => HandshakeMessage::CertificateVerify(
                HandshakeMessageCertificateVerify {
                    hash_algorithm: m.hash_algorithm,
                    signature_algorithm: m.signature_algorithm,
                    signature: copy(m.signature.as_slice()),
                },
            ),
            HandshakeMessage::ClientKeyExchange(m) => HandshakeMessage::ClientKeyExchange(
                HandshakeMessageClientKeyExchange {
                    identity_hint: copy(m.identity_hint.as_slice()),
                    public_key: copy(m.public_key.as_slice()),
                },
            ),
            HandshakeMessage::ServerKeyExchange(m) => HandshakeMessage::ServerKeyExchange(
                m.clone(),
            ),
            HandshakeMessage::Finished(m) => HandshakeMessage::Finished(
                HandshakeMessageFinished { verify_data: copy(m.verify_data.as_slice()) },
            ),
            HandshakeMessage::Other(typ) => HandshakeMessage::Other(*typ),
        }
    }
}

impl HandshakeMessage {
    /// The kind of the message.
    pub fn handshake_type(&self) -> (typ: HandshakeType)
        ensures
            typ == self@.handshake_type(),
    {
        match self {
            HandshakeMessage::Certificate(_) => HandshakeType::Certificate,
            HandshakeMessage::CertificateVerify(_) => HandshakeType::CertificateVerify,
            HandshakeMessage::ClientKeyExchange(_) => HandshakeType::ClientKeyExchange,
            HandshakeMessage::ServerKeyExchange(_) => HandshakeType::ServerKeyExchange,
            HandshakeMessage::Finished(_) => HandshakeType::Finished,
            HandshakeMessage::Other(typ) => *typ,
        }
    }
}

impl Handshake {
    /// The message behind a header with its kind and the number 0.
    pub fn new(handshake_message: HandshakeMessage) -> (r: Handshake)
        ensures
            r@ == numbered(handshake_message@, 0),
    {
        let handshake_type: HandshakeType = handshake_message.handshake_type();
        Handshake {
            handshake_header: HandshakeHeader { handshake_type, message_sequence: 0 },
            handshake_message,
        }
    }
}

impl Clone for Handshake {
    fn clone(&self) -> (r: Self)
        ensures
            r@ == self@,
    {
        Handshake {
            handshake_header: self.handshake_header,
            handshake_message: self.handshake_message.clone(),
        }
    }
}

/// A message is known by its kind and by the bytes and choices that it holds.
pub proof fn law_message_view(message: HandshakeMessage)
    ensures
        match message {
            HandshakeMessage::Certificate(m) => {
                &&& message@ is Certificate
                &&& message@.handshake_type() is Certificate
                &&& message@->certificate.len() == m.certificate@.len()
                &&& forall|i: int|
                    0 <= i < m.certificate@.len() ==> #[trigger] message@->certificate[i]
                        == m.certificate@[i]@
            },
            HandshakeMessage::CertificateVerify(m) => {
                &&& message@.handshake_type() is CertificateVerify
                &&& message@ == (HandshakeMessageView::CertificateVerify {
                    hash_algorithm: m.hash_algorithm,
                    signature_algorithm: m.signature_algorithm,
                    signature: m.signature@,
                })
            },
            HandshakeMessage::ClientKeyExchange(m) => {
                &&& message@.handshake_type() is ClientKeyExchange
                &&& message@ == (HandshakeMessageView::ClientKeyExchange {
                    identity_hint: m.identity_hint@,
                    public_key: m.public_key@,
                })
            },
            HandshakeMessage::ServerKeyExchange(m) => {
                &&& message@.handshake_type() is ServerKeyExchange
                &&& message@ == HandshakeMessageView::ServerKeyExchange(
                    ServerKeyExchangeView {
                        identity_hint: m.identity_hint@,
                        elliptic_curve_type: m.elliptic_curve_type,
                        named_curve: m.named_curve,
                        public_key: m.public_key@,
                        hash_algorithm: m.hash_algorithm,
                        signature_algorithm: m.signature_algorithm,
                        signature: m.signature@,
                    },
                )
            },
            HandshakeMessage::Finished(m) => {
                &&& message@.handshake_type() is Finished
                &&& message@ == (HandshakeMessageView::Finished { verify_data: m.verify_data@ })
            },
            HandshakeMessage::Other(typ) => {
                &&& message@.handshake_type() == typ
                &&& message@ == HandshakeMessageView::Other(typ)
            },
        },
{
}

} // verus!
