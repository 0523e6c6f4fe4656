//! Flights: what one side sends before it waits for the other.
//!
//! A flight is taken in steps.  A step that needs work from outside returns
//! an `Action` and what it has so far; the caller does the work and hands the
//! reply, an `Event`, to the next step.

pub mod flight5;

use vstd::prelude::*;

use crate::alert::{fatal, fatal_alert, Alert, AlertDescription, AlertLevel};
use crate::bytes::list_view;
use crate::cipher_suite::CipherSuiteHash;
use crate::config::{Certificate, CertificateView};
use crate::curve::{keypair_view, NamedCurve, NamedCurveKeypair, NamedCurveKeypairView};
use crate::error::Error;
use crate::handshake::{
    Handshake, HandshakeMessage, HandshakeMessageServerKeyExchange, HandshakeMessageView,
    HandshakeType, HandshakeView, ServerKeyExchangeView,
};
use crate::signature_hash_algorithm::SignatureHashAlgorithm;
use crate::state::{CipherSuiteInit, CipherSuiteInitView};

verus! {

/// Which message of the handshake is meant in a lookup.
#[derive(Clone, Copy, Debug, PartialEq, Eq, Structural)]
pub struct HandshakeCachePullRule {
    pub typ: HandshakeType,
    pub epoch: u16,
    pub is_client: bool,
    pub optional: bool,
}

/// A message that was looked up, and the kind it was looked up as.
#[derive(Debug, PartialEq, Eq)]
pub struct PulledMessage {
    pub typ: HandshakeType,
    pub message: HandshakeMessage,
}

/// What a key exchange leaves behind.
#[derive(Debug, PartialEq, Eq)]
pub struct KeyAgreement {
    pub pre_master_secret: Vec<u8>,
    /// The key pair that was made for it; without one the key pair of the
    /// state stays.
    pub local_keypair: Option<NamedCurveKeypair>,
}

/// The alert to send and the error to report when a flight fails.
pub type Failure = (Option<Alert>, Option<Error>);

/// What a step asks its caller to do.
#[derive(Debug, PartialEq, Eq)]
pub enum Action {
    /// Nothing: the next step can be taken at once.
    Proceed,
    /// Choose the certificate of this side for a server name.
    GetCertificate { server_name: String },
    /// Look messages up, each by itself, from a message number on.
    FullPullMap { start_sequence: isize, rules: Vec<HandshakeCachePullRule> },
    /// Look messages up and put their bytes one after the other.
    PullAndMerge { rules: Vec<HandshakeCachePullRule> },
    /// Agree on a pre-master secret, with the state and the settings that the
    /// caller holds.
    HandleServerKeyExchange { server_key_exchange: HandshakeMessageServerKeyExchange },
    /// Read a handshake message from its bytes.
    UnmarshalHandshake { data: Vec<u8> },
    /// Write a handshake message to bytes.
    MarshalHandshake { handshake: Handshake },
    /// Hash the messages of the handshake so far, and some that follow them.
    SessionHash { hash: CipherSuiteHash, epoch: u16, additional: Vec<u8> },
    /// Check the server's signature over its share of the key exchange, with
    /// the randoms before it.
    VerifyKeySignature {
        client_random: Vec<u8>,
        server_random: Vec<u8>,
        public_key: Vec<u8>,
        named_curve: NamedCurve,
        signature: Vec<u8>,
        certificate: Vec<u8>,
    },
    /// Check a certificate, and find the chains that lead to it.
    VerifyCert { certificate: Vec<u8> },
    /// Show a certificate and its chains to the application.
    VerifyPeerCertificate { certificate: Vec<u8>, chains: Vec<Vec<u8>> },
    /// Set the keys of the cipher suite.
    InitCipherSuite { init: CipherSuiteInit },
    /// Find a signature scheme, among those given, that a private key can sign with.
    SelectSignatureScheme { schemes: Vec<SignatureHashAlgorithm>, private_key: u64 },
    /// Sign the messages of the handshake so far.
    GenerateCertificateVerify { plain_text: Vec<u8>, private_key: u64 },
}

/// What came of an action.
#[derive(Debug)]
pub enum Event {
    /// Of `Proceed`.
    Proceed,
    /// Of `GetCertificate`.
    Certificate(Result<Certificate, Error>),
    /// Of `FullPullMap`.
    Messages(Result<Vec<PulledMessage>, Error>),
    /// Of `PullAndMerge`.
    Merged(Vec<u8>),
    /// Of `HandleServerKeyExchange`.
    KeyAgreement(Result<KeyAgreement, Failure>),
    /// Of `UnmarshalHandshake`.
    Handshake(Result<Handshake, Error>),
    /// Of `MarshalHandshake`, `SessionHash` and `GenerateCertificateVerify`.
    Data(Result<Vec<u8>, Error>),
    /// Of `VerifyKeySignature`, `VerifyPeerCertificate` and `InitCipherSuite`.
    Outcome(Result<(), Error>),
    /// Of `VerifyCert`.
    Chains(Result<Vec<Vec<u8>>, Error>),
    /// Of `SelectSignatureScheme`.
    Scheme(Result<SignatureHashAlgorithm, Error>),
}

/// How far a step has brought a flight.
#[derive(Debug)]
pub enum Step<P, T> {
    /// The action is to be done, and what came of it handed to the next step.
    Ask(P, Action),
    Done(T),
    Fail(Failure),
}

/// A message that was looked up, as plain values.
#[verifier::ext_equal]
pub struct PulledMessageView {
    pub typ: HandshakeType,
    pub message: HandshakeMessageView,
}

/// What a key exchange leaves behind, as plain values.
#[verifier::ext_equal]
pub struct KeyAgreementView {
    pub pre_master_secret: Seq<u8>,
    pub local_keypair: Option<NamedCurveKeypairView>,
}

/// An action as plain values.
#[verifier::ext_equal]
pub enum ActionView {
    Proceed,
    GetCertificate { server_name: Seq<char> },
    FullPullMap { start_sequence: isize, rules: Seq<HandshakeCachePullRule> },
    PullAndMerge { rules: Seq<HandshakeCachePullRule> },
    HandleServerKeyExchange { server_key_exchange: ServerKeyExchangeView },
    UnmarshalHandshake { data: Seq<u8> },
    MarshalHandshake { handshake: HandshakeView },
    SessionHash { hash: CipherSuiteHash, epoch: u16, additional: Seq<u8> },
    VerifyKeySignature {
        client_random: Seq<u8>,
        server_random: Seq<u8>,
        public_key: Seq<u8>,
        named_curve: NamedCurve,
        signature: Seq<u8>,
        certificate: Seq<u8>,
    },
    VerifyCert { certificate: Seq<u8> },
    VerifyPeerCertificate { certificate: Seq<u8>, chains: Seq<Seq<u8>> },
    InitCipherSuite { init: CipherSuiteInitView },
    SelectSignatureScheme { schemes: Seq<SignatureHashAlgorithm>, private_key: u64 },
    GenerateCertificateVerify { plain_text: Seq<u8>, private_key: u64 },
}

/// What came of an action, as plain values.
#[verifier::ext_equal]
pub enum EventView {
    Proceed,
    Certificate(Result<CertificateView, Error>),
    Messages(Result<Seq<PulledMessageView>, Error>),
    Merged(Seq<u8>),
    KeyAgreement(Result<KeyAgreementView, Failure>),
    Handshake(Result<HandshakeView, Error>),
    Data(Result<Seq<u8>, Error>),
    Outcome(Result<(), Error>),
    Chains(Result<Seq<Seq<u8>>, Error>),
    Scheme(Result<SignatureHashAlgorithm, Error>),
}

/// How far a step has brought a flight, as plain values.
#[verifier::ext_equal]
#[verifier::reject_recursive_types(P)]
#[verifier::reject_recursive_types(T)]
pub enum StepView<P, T> {
    Ask(P, ActionView),
    Done(T),
    Fail(Failure),
}

impl View for PulledMessage {
    type V = PulledMessageView;

    open spec fn view(&self) -> PulledMessageView {
        PulledMessageView { typ: self.typ, message: self.message@ }
    }
}

/// Messages that were looked up, as plain values.
pub open spec fn messages_view(messages: Seq<PulledMessage>) -> Seq<PulledMessageView> {
    Seq::new(messages.len(), |i: int| messages[i]@)
}

impl View for KeyAgreement {
    type V = KeyAgreementView;

    open spec fn view(&self) -> KeyAgreementView {
        KeyAgreementView {
            pre_master_secret: self.pre_master_secret@,
            local_keypair: keypair_view(self.local_keypair),
        }
    }
}

impl View for Action {
    type V = ActionView;

    open spec fn view(&self) -> ActionView {
        match self {
            Action::Proceed => ActionView::Proceed,
            Action::GetCertificate { server_name } => ActionView::GetCertificate {
                server_name: server_name@,
            },
            Action::FullPullMap { start_sequence, rules } => ActionView::FullPullMap {
                start_sequence: *start_sequence,
                rules: rules@,
            },
            Action::PullAndMerge { rules } => ActionView::PullAndMerge { rules: rules@ },
            Action::HandleServerKeyExchange {
                server_key_exchange,
            } => ActionView::HandleServerKeyExchange { server_key_exchange: server_key_exchange@ },
            Action::UnmarshalHandshake { data } => ActionView::UnmarshalHandshake { data: data@ },
            Action::MarshalHandshake { handshake } => ActionView::MarshalHandshake {
                handshake: handshake@,
            },
            Action::SessionHash { hash, epoch, additional } => ActionView::SessionHash {
                hash: *hash,
                epoch: *epoch,
                additional: additional@,
            },
            Action::VerifyKeySignature {
                client_random,
                server_random,
                public_key,
                named_curve,
                signature,
                certificate,
            } => ActionView::VerifyKeySignature {
                client_random: client_random@,
                server_random: server_random@,
                public_key: public_key@,
                named_curve: *named_curve,
                signature: signature@,
                certificate: certificate@,
            },
            Action::VerifyCert { certificate } => ActionView::VerifyCert {
                certificate: certificate@,
            },
            Action::VerifyPeerCertificate {
                certificate,
                chains,
            } => ActionView::VerifyPeerCertificate {
                certificate: certificate@,
                chains: list_view(chains@),
            },
            Action::InitCipherSuite { init } => ActionView::InitCipherSuite { init: init@ },
            Action::SelectSignatureScheme {
                schemes,
                private_key,
            } => ActionView::SelectSignatureScheme { schemes: schemes@, private_key: *private_key },
            Action::GenerateCertificateVerify {
                plain_text,
                private_key,
            } => ActionView::GenerateCertificateVerify {
                plain_text: plain_text@,
                private_key: *private_key,
            },
        }
    }
}

/// Bytes or an error, the bytes as plain values.
pub open spec fn data_view(data: Result<Vec<u8>, Error>) -> Result<Seq<u8>, Error> {
    match data {
        Ok(data) => Ok(data@),
        Err(err) => Err(err),
    }
}

impl View for Event {
    type V = EventView;

    open spec fn view(&self) -> EventView {
        match *self {
            Event::Proceed => EventView::Proceed,
            Event::Certificate(Ok(certificate)) => EventView::Certificate(Ok(certificate@)),
            Event::Certificate(Err(err)) => EventView::Certificate(Err(err)),
            Event::Messages(Ok(messages)) => EventView::Messages(Ok(messages_view(messages@))),
            Event::Messages(Err(err)) => EventView::Messages(Err(err)),
            Event::Merged(data) => EventView::Merged(data@),
            Event::KeyAgreement(Ok(agreement)) => EventView::KeyAgreement(Ok(agreement@)),
            Event::KeyAgreement(Err(failure)) => EventView::KeyAgreement(Err(failure)),
            Event::Handshake(Ok(handshake)) => EventView::Handshake(Ok(handshake@)),
            Event::Handshake(Err(err)) => EventView::Handshake(Err(err)),
            Event::Data(data) => EventView::Data(data_view(data)),
            Event::Outcome(outcome) => EventView::Outcome(outcome),
            Event::Chains(Ok(chains)) => EventView::Chains(Ok(list_view(chains@))),
            Event::Chains(Err(err)) => EventView::Chains(Err(err)),
            Event::Scheme(scheme) => EventView::Scheme(scheme),
        }
    }
}

impl EventView {
    /// Tells whether the work that was asked for failed.
    pub open spec fn is_error(self) -> bool {
        match self {
            EventView::Proceed => false,
            EventView::Certificate(r) => r is Err,
            EventView::Messages(r) => r is Err,
            EventView::Merged(_) => false,
            EventView::KeyAgreement(r) => r is Err,
            EventView::Handshake(r) => r is Err,
            EventView::Data(r) => r is Err,
            EventView::Outcome(r) => r is Err,
            EventView::Chains(r) => r is Err,
            EventView::Scheme(r) => r is Err,
        }
    }

    /// Tells whether this can be what came of `action`.
    pub open spec fn answers(self, action: ActionView) -> bool {
        match action {
            ActionView::Proceed => self is Proceed,
            ActionView::GetCertificate { .. } => self is Certificate,
            ActionView::FullPullMap { .. } => self is Messages,
            ActionView::PullAndMerge { .. } => self is Merged,
            ActionView::HandleServerKeyExchange { .. } => self is KeyAgreement,
            ActionView::UnmarshalHandshake { .. } => self is Handshake,
            ActionView::MarshalHandshake { .. } => self is Data,
            ActionView::SessionHash { .. } => self is Data,
            ActionView::VerifyKeySignature { .. } => self is Outcome,
            ActionView::VerifyCert { .. } => self is Chains,
            ActionView::VerifyPeerCertificate { .. } => self is Outcome,
            ActionView::InitCipherSuite { .. } => self is Outcome,
            ActionView::SelectSignatureScheme { .. } => self is Scheme,
            ActionView::GenerateCertificateVerify { .. } => self is Data,
        }
    }
}

/// The failure with a fatal alert and an error.
pub open spec fn fatal_failure(alert_description: AlertDescription, err: Error) -> Failure {
    (Some(fatal_alert(alert_description)), Some(err))
}

/// The failure with a fatal alert and an error.
pub fn fail(alert_description: AlertDescription, err: Error) -> (r: Failure)
    ensures
        r == fatal_failure(alert_description, err),
{
    (Some(fatal(alert_description)), Some(err))
}

/// The rule for a message that has to be there.
pub open spec fn pull_rule(
    typ: HandshakeType,
    epoch: u16,
    is_client: bool,
) -> HandshakeCachePullRule {
    HandshakeCachePullRule { typ, epoch, is_client, optional: false }
}

/// The rule for a message that has to be there.
pub fn rule(typ: HandshakeType, epoch: u16, is_client: bool) -> (r: HandshakeCachePullRule)
    ensures
        r == pull_rule(typ, epoch, is_client),
{
    HandshakeCachePullRule { typ, epoch, is_client, optional: false }
}

/// The failure with a fatal alert says so to the peer, and gives the error.
pub proof fn law_fatal_failure(alert_description: AlertDescription, err: Error)
    ensures
        fatal_failure(alert_description, err) == (
            Some(Alert { alert_level: AlertLevel::Fatal, alert_description }),
            Some(err),
        ),
{
}

/// Every reply of the kind that an action asks for answers it, and no other does.
pub proof fn law_answers(event: EventView, action: ActionView)
    ensures
        action is Proceed ==> (event.answers(action) <==> event is Proceed),
        action is GetCertificate ==> (event.answers(action) <==> event is Certificate),
        action is FullPullMap ==> (event.answers(action) <==> event is Messages),
        action is PullAndMerge ==> (event.answers(action) <==> event is Merged),
        action is HandleServerKeyExchange ==> (event.answers(action) <==> event is KeyAgreement),
        action is UnmarshalHandshake ==> (event.answers(action) <==> event is Handshake),
        action is MarshalHandshake ==> (event.answers(action) <==> event is Data),
        action is SessionHash ==> (event.answers(action) <==> event is Data),
        action is GenerateCertificateVerify ==> (event.answers(action) <==> event is Data),
        action is VerifyKeySignature ==> (event.answers(action) <==> event is Outcome),
        action is VerifyPeerCertificate ==> (event.answers(action) <==> event is Outcome),
        action is InitCipherSuite ==> (event.answers(action) <==> event is Outcome),
        action is VerifyCert ==> (event.answers(action) <==> event is Chains),
        action is SelectSignatureScheme ==> (event.answers(action) <==> event is Scheme),
{
}

/// An action is known by what it is to be done with.
pub proof fn law_action_view(action: Action)
    ensures
        match action {
            Action::Proceed => action@ is Proceed,
            Action::GetCertificate { server_name } => action@ == (ActionView::GetCertificate {
                server_name: server_name@,
            }),
            Action::FullPullMap { start_sequence, rules } => action@ == (ActionView::FullPullMap {
                start_sequence,
                rules: rules@,
            }),
            Action::PullAndMerge { rules } => action@ == (ActionView::PullAndMerge {
                rules: rules@,
            }),
            Action::HandleServerKeyExchange { server_key_exchange } => action@ == (
            ActionView::HandleServerKeyExchange { server_key_exchange: server_key_exchange@ }),
            Action::UnmarshalHandshake { data } => action@ == (ActionView::UnmarshalHandshake {
                data: data@,
            }),
            Action::MarshalHandshake { handshake } => {
                &&& action@ is MarshalHandshake
                &&& action@->handshake.handshake_header == handshake.handshake_header
                &&& action@->handshake.handshake_message == handshake.handshake_message@
            },
            Action::SessionHash { hash, epoch, additional } => action@ == (
            ActionView::SessionHash { hash, epoch, additional: additional@ }),
            Action::VerifyKeySignature {
                client_random,
                server_random,
                public_key,
                named_curve,
                signature,
                certificate,
            } => action@ == (ActionView::VerifyKeySignature {
                client_random: client_random@,
                server_random: server_random@,
                public_key: public_key@,
                named_curve,
                signature: signature@,
                certificate: certificate@,
            }),
            Action::VerifyCert { certificate } => action@ == (ActionView::VerifyCert {
                certificate: certificate@,
            }),
            Action::VerifyPeerCertificate { certificate, chains } => {
                &&& action@ is VerifyPeerCertificate
                &&& action@->VerifyPeerCertificate_certificate == certificate@
                &&& action@->chains.len() == chains@.len()
                &&& forall|i: int|
                    0 <= i < chains@.len() ==> #[trigger] action@->chains[i] == chains@[i]@
            },
            Action::InitCipherSuite { init } => action@ == (ActionView::InitCipherSuite {
                init: init@,
            }),
            Action::SelectSignatureScheme { schemes, private_key } => action@ == (
            ActionView::SelectSignatureScheme { schemes: schemes@, private_key }),
            Action::GenerateCertificateVerify { plain_text, private_key } => action@ == (
            ActionView::GenerateCertificateVerify { plain_text: plain_text@, private_key }),
        },
{
}

/// A reply is known by what it brings, or by its error.
pub proof fn law_event_view(event: Event)
    ensures
        match event {
            Event::Proceed => event@ is Proceed,
            Event::Certificate(Ok(c)) => {
                &&& event@ is Certificate && event@->Certificate_0 is Ok
                &&& event@->Certificate_0->Ok_0.certificate == c.certificate@
                &&& event@->Certificate_0->Ok_0.private_key == c.private_key
            },
            Event::Certificate(Err(err)) => event@ == EventView::Certificate(Err(err)),
            Event::Messages(Ok(m)) => {
                &&& event@ is Messages && event@->Messages_0 is Ok
                &&& event@->Messages_0->Ok_0.len() == m@.len()
                &&& forall|i: int|
                    0 <= i < m@.len() ==> (#[trigger] event@->Messages_0->Ok_0[i]).typ == m@[i].typ
                        && event@->Messages_0->Ok_0[i].message == m@[i].message@
            },
            Event::Messages(Err(err)) => event@ == EventView::Messages(Err(err)),
            Event::Merged(data) => event@ == EventView::Merged(data@),
            Event::KeyAgreement(Ok(a)) => {
                &&& event@ is KeyAgreement && event@->KeyAgreement_0 is Ok
                &&& event@->KeyAgreement_0->Ok_0.pre_master_secret == a.pre_master_secret@
                &&& event@->KeyAgreement_0->Ok_0.local_keypair is Some <==> a.local_keypair is Some
                &&& a.local_keypair is Some ==> {
                    let (keypair, view) = (
                        a.local_keypair->0,
                        event@->KeyAgreement_0->Ok_0.local_keypair->0,
                    );
                    &&& view.curve == keypair.curve
                    &&& view.public_key == keypair.public_key@
                    &&& view.private_key == keypair.private_key
                }
            },
            Event::KeyAgreement(Err(failure)) => event@ == EventView::KeyAgreement(Err(failure)),
            Event::Handshake(Ok(h)) => {
                &&& event@ is Handshake && event@->Handshake_0 is Ok
                &&& event@->Handshake_0->Ok_0.handshake_header == h.handshake_header
                &&& event@->Handshake_0->Ok_0.handshake_message == h.handshake_message@
            },
            Event::Handshake(Err(err)) => event@ == EventView::Handshake(Err(err)),
            Event::Data(Ok(data)) => event@ == EventView::Data(Ok(data@)),
            Event::Data(Err(err)) => event@ == EventView::Data(Err(err)),
            Event::Outcome(outcome) => event@ == EventView::Outcome(outcome),
            Event::Chains(Ok(chains)) => {
                &&& event@ is Chains && event@->Chains_0 is Ok
                &&& event@->Chains_0->Ok_0.len() == chains@.len()
                &&& forall|i: int|
                    0 <= i < chains@.len() ==> #[trigger] event@->Chains_0->Ok_0[i] == chains@[i]@
            },
            Event::Chains(Err(err)) => event@ == EventView::Chains(Err(err)),
            Event::Scheme(scheme) => event@ == EventView::Scheme(scheme),
        },
{
}

/// A reply reports a failure if and only if it holds an error.
pub proof fn law_error_replies(event: EventView)
    ensures
        event.is_error() <==> {
            ||| event matches EventView::Certificate(r) && r is Err
            ||| event matches EventView::Messages(r) && r is Err
            ||| event matches EventView::KeyAgreement(r) && r is Err
            ||| event matches EventView::Handshake(r) && r is Err
            ||| event matches EventView::Data(r) && r is Err
            ||| event matches EventView::Outcome(r) && r is Err
            ||| event matches EventView::Chains(r) && r is Err
            ||| event matches EventView::Scheme(r) && r is Err
        },
{
}

} // verus!
