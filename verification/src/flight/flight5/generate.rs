//! The packets of flight 5.

use vstd::prelude::*;

use crate::alert::AlertDescription;
use crate::bytes::{copy, extend};
use crate::config::{certificate_view, Certificate, CertificateView, HandshakeConfig};
use crate::error::Error;
use crate::flight::flight5::initialize::{
    initalize_cipher_suite, initialize_begin, initialize_resume, resume_initalize_cipher_suite,
    InitializeProgress, InitializeProgressView, InitializeStep,
};
use crate::flight::flight5::{
    key_exchange_rules, pull_key_exchange, pull_server_key_exchange, pull_transcript,
    server_key_exchange_rules, transcript_rules, Flight5,
};
use crate::flight::{
    fail, fatal_failure, Action, ActionView, Event, EventView, Failure, KeyAgreementView, Step,
    StepView,
};
use crate::handshake::{
    no_server_key_exchange, numbered, Handshake, HandshakeMessage, HandshakeMessageCertificate,
    HandshakeMessageCertificateVerify, HandshakeMessageClientKeyExchange, HandshakeMessageFinished,
    HandshakeMessageServerKeyExchange, HandshakeMessageView, HandshakeView, ServerKeyExchangeView,
};
use crate::prf::{client_verify_data, prf_verify_data_client};
use crate::record_layer::{
    first_encrypted_packet, packets_view, plain_packet, Content, ContentView, Packet, PacketView,
};
use crate::signature_hash_algorithm::{copy_schemes, SignatureHashAlgorithm};
use crate::state::{State, StateView};

verus! {

/// What a flight in the making waits for.
#[derive(Debug, PartialEq, Eq)]
enum GenerateStage {
    /// The certificate of this side.
    Certificate,
    /// The bytes of the server's share of the key exchange.
    ServerKeyExchange,
    /// The key agreement without a share of the server.
    KeyAgreement,
    /// The server's share of the key exchange.
    Handshake,
    /// Nothing: the next message is numbered.
    Number,
    /// The bytes of the message that was numbered.
    Marshal,
    /// What the cipher suite waits for.
    Initialize(InitializeProgress),
    /// The bytes of the messages so far, to be signed.
    VerifyTranscript,
    /// The scheme to sign them with.
    SignatureScheme { plain_text: Vec<u8> },
    /// The signature.
    CertificateVerify { scheme: SignatureHashAlgorithm },
    /// The bytes of the message with the signature.
    MarshalVerify,
    /// Nothing: the change of the cipher is announced.
    Finish,
    /// The bytes of the messages so far, to be vouched for.
    Transcript,
}

/// A flight in the making.
#[derive(Debug, PartialEq, Eq)]
struct Draft {
    /// The certificate of this side.
    certificate: Option<Certificate>,
    /// The messages that come before the keys are set.
    unsent: Vec<HandshakeMessage>,
    /// The server's share of the key exchange.
    server_key_exchange: HandshakeMessageServerKeyExchange,
    /// The number of the next message.
    next_sequence: u16,
    /// The packets so far.
    packets: Vec<Packet>,
    /// The bytes of the messages in those packets.
    merged: Vec<u8>,
}

/// How far a flight has been made.  Only the steps make and change it.
#[derive(Debug, PartialEq, Eq)]
pub struct GenerateProgress {
    stage: GenerateStage,
    draft: Draft,
}

/// What a flight in the making waits for, as plain values.
#[verifier::ext_equal]
pub enum GenerateStageView {
    Certificate,
    ServerKeyExchange,
    KeyAgreement,
    Handshake,
    Number,
    Marshal,
    Initialize(InitializeProgressView),
    VerifyTranscript,
    SignatureScheme { plain_text: Seq<u8> },
    CertificateVerify { scheme: SignatureHashAlgorithm },
    MarshalVerify,
    Finish,
    Transcript,
}

/// A flight in the making, as plain values.
#[verifier::ext_equal]
pub struct DraftView {
    pub certificate: Option<CertificateView>,
    pub unsent: Seq<HandshakeMessageView>,
    pub server_key_exchange: ServerKeyExchangeView,
    pub next_sequence: u16,
    pub packets: Seq<PacketView>,
    pub merged: Seq<u8>,
}

/// How far a flight has been made, as plain values.
#[verifier::ext_equal]
pub struct GenerateProgressView {
    pub stage: GenerateStageView,
    pub draft: DraftView,
}

impl View for GenerateStage {
    type V = GenerateStageView;

    closed spec fn view(&self) -> GenerateStageView {
        match self {
            GenerateStage::Certificate => GenerateStageView::Certificate,
            GenerateStage::ServerKeyExchange => GenerateStageView::ServerKeyExchange,
            GenerateStage::KeyAgreement => GenerateStageView::KeyAgreement,
            GenerateStage::Handshake => GenerateStageView::Handshake,
            GenerateStage::Number => GenerateStageView::Number,
            GenerateStage::Marshal => GenerateStageView::Marshal,
            GenerateStage::Initialize(progress) => GenerateStageView::Initialize(progress@),
            GenerateStage::VerifyTranscript => GenerateStageView::VerifyTranscript,
            GenerateStage::SignatureScheme { plain_text } => GenerateStageView::SignatureScheme {
                plain_text: plain_text@,
            },
            GenerateStage::CertificateVerify { scheme } => GenerateStageView::CertificateVerify {
                scheme: *scheme,
            },
            GenerateStage::MarshalVerify => GenerateStageView::MarshalVerify,
            GenerateStage::Finish => GenerateStageView::Finish,
            GenerateStage::Transcript => GenerateStageView::Transcript,
        }
    }
}

/// Messages as plain values.
pub open spec fn handshake_messages_view(messages: Seq<HandshakeMessage>) -> Seq<
    HandshakeMessageView,
> {
    Seq::new(messages.len(), |i: int| messages[i]@)
}

impl View for Draft {
    type V = DraftView;

    closed spec fn view(&self) -> DraftView {
        DraftView {
            certificate: certificate_view(self.certificate),
            unsent: handshake_messages_view(self.unsent@),
            server_key_exchange: self.server_key_exchange@,
            next_sequence: self.next_sequence,
            packets: packets_view(self.packets@),
            merged: self.merged@,
        }
    }
}

impl View for GenerateProgress {
    type V = GenerateProgressView;

    closed spec fn view(&self) -> GenerateProgressView {
        GenerateProgressView { stage: self.stage@, draft: self.draft@ }
    }
}

impl View for Step<GenerateProgress, Vec<Packet>> {
    type V = StepView<GenerateProgressView, Seq<PacketView>>;

    open spec fn view(&self) -> StepView<GenerateProgressView, Seq<PacketView>> {
        match *self {
            Step::Ask(progress, action) => StepView::Ask(progress@, action@),
            Step::Done(packets) => StepView::Done(packets_view(packets@)),
            Step::Fail(failure) => StepView::Fail(failure),
        }
    }
}

/// A step and the state that it leaves.
pub type GenerateStep = (StateView, StepView<GenerateProgressView, Seq<PacketView>>);

impl GenerateProgressView {
    /// Tells whether the next step takes `event`.
    pub open spec fn awaits(self, event: EventView) -> bool {
        match self.stage {
            GenerateStageView::Certificate => event is Certificate,
            GenerateStageView::ServerKeyExchange => event is Merged,
            GenerateStageView::KeyAgreement => event is KeyAgreement,
            GenerateStageView::Handshake => event is Handshake,
            GenerateStageView::Number => event is Proceed,
            GenerateStageView::Marshal => event is Data,
            GenerateStageView::Initialize(progress) => progress.awaits(event),
            GenerateStageView::VerifyTranscript => event is Merged,
            GenerateStageView::SignatureScheme { .. } => event is Scheme,
            GenerateStageView::CertificateVerify { .. } => event is Data,
            GenerateStageView::MarshalVerify => event is Data,
            GenerateStageView::Finish => event is Proceed,
            GenerateStageView::Transcript => event is Merged,
        }
    }

    /// Tells whether the next step can be taken: a message that is numbered
    /// has to have a number after its own, the server's certificate has to be
    /// there where it is needed, and so has the epoch of the Finished message.
    pub open spec fn can_resume(self, state: StateView, cfg: HandshakeConfig) -> bool {
        match self.stage {
            GenerateStageView::Number => self.draft.next_sequence < u16::MAX,
            GenerateStageView::Initialize(progress) => progress.can_resume(state, cfg),
            GenerateStageView::Finish => state.local_verify_data.len() == 0 ==> cfg.initial_epoch
                < u16::MAX,
            _ => true,
        }
    }

    /// What holds of every flight in the making: the certificate has been
    /// chosen if there are any, and a message that is to be numbered exists.
    pub open spec fn well_formed(self, cfg: HandshakeConfig) -> bool {
        let draft = self.draft;
        &&& if self.stage is Certificate {
            cfg.local_certificates@.len() > 0
        } else {
            draft.certificate is Some <==> cfg.local_certificates@.len() > 0
        }
        &&& (self.stage is VerifyTranscript || self.stage is SignatureScheme)
            ==> draft.certificate is Some
        &&& (self.stage is ServerKeyExchange || self.stage is KeyAgreement
            || self.stage is Handshake || self.stage is Number) ==> draft.packets.len()
            < draft.unsent.len()
    }
}

/// Tells whether a flight that goes on can be taken further: it is well
/// formed, and the next step takes exactly the answers to what it asks for.
pub open spec fn goes_on_well(
    step: StepView<GenerateProgressView, Seq<PacketView>>,
    cfg: HandshakeConfig,
) -> bool {
    match step {
        StepView::Ask(progress, action) => {
            &&& progress.well_formed(cfg)
            &&& forall|answer: EventView| #[trigger]
                answer.answers(action) <==> progress.awaits(answer)
        },
        _ => true,
    }
}

/// The flight before anything of it has been made.
pub open spec fn empty_draft() -> DraftView {
    DraftView {
        certificate: None,
        unsent: Seq::empty(),
        server_key_exchange: no_server_key_exchange(),
        next_sequence: 0,
        packets: Seq::empty(),
        merged: Seq::empty(),
    }
}

/// The step that asks for `action`.
pub open spec fn ask(stage: GenerateStageView, draft: DraftView, action: ActionView) -> StepView<
    GenerateProgressView,
    Seq<PacketView>,
> {
    StepView::Ask(GenerateProgressView { stage, draft }, action)
}

/// The client's share of the key exchange: with a pre-shared key the hint
/// which key it is, without one the public key.
pub open spec fn client_key_exchange(
    state: StateView,
    cfg: HandshakeConfig,
) -> HandshakeMessageView {
    if cfg.has_local_psk_callback {
        HandshakeMessageView::ClientKeyExchange {
            identity_hint: cfg.local_psk_identity_hint@,
            public_key: Seq::empty(),
        }
    } else {
        HandshakeMessageView::ClientKeyExchange {
            identity_hint: Seq::empty(),
            public_key: match state.local_keypair {
                Some(keypair) => keypair.public_key,
                None => Seq::empty(),
            },
        }
    }
}

/// The message with the client's certificate, which is empty where it has none.
pub open spec fn certificate_message(certificate: Option<CertificateView>) -> HandshakeMessageView {
    HandshakeMessageView::Certificate {
        certificate: seq![
            match certificate {
                Some(certificate) => certificate.certificate,
                None => Seq::empty(),
            },
        ],
    }
}

/// The messages that come before the keys are set: the certificate if the
/// server asked for one, and the client's share of the key exchange.
pub open spec fn first_messages(
    state: StateView,
    cfg: HandshakeConfig,
    certificate: Option<CertificateView>,
) -> Seq<HandshakeMessageView> {
    if state.remote_requested_certificate {
        seq![certificate_message(certificate), client_key_exchange(state, cfg)]
    } else {
        seq![client_key_exchange(state, cfg)]
    }
}

/// The first messages are there, and the server's share of the key exchange is
/// to be looked up.
pub open spec fn certificate_chosen(
    state: StateView,
    cfg: HandshakeConfig,
    certificate: Option<CertificateView>,
) -> GenerateStep {
    (
        state,
        ask(
            GenerateStageView::ServerKeyExchange,
            DraftView {
                certificate,
                unsent: first_messages(state, cfg, certificate),
                ..empty_draft()
            },
            ActionView::PullAndMerge { rules: server_key_exchange_rules(cfg.initial_epoch) },
        ),
    )
}

/// The first step: where there are certificates one is to be chosen.
pub open spec fn generate_begin(state: StateView, cfg: HandshakeConfig) -> GenerateStep {
    if cfg.local_certificates@.len() > 0 {
        (
            state,
            ask(
                GenerateStageView::Certificate,
                empty_draft(),
                ActionView::GetCertificate { server_name: cfg.server_name@ },
            ),
        )
    } else {
        certificate_chosen(state, cfg, None)
    }
}

/// Without a share of the server, which is optional with a pre-shared key, the
/// secret is to be agreed on now; otherwise the share is to be read.
pub open spec fn server_share_found(
    state: StateView,
    draft: DraftView,
    data: Seq<u8>,
) -> GenerateStep {
    if data.len() == 0 {
        (
            state,
            ask(
                GenerateStageView::KeyAgreement,
                draft,
                ActionView::HandleServerKeyExchange {
                    server_key_exchange: no_server_key_exchange(),
                },
            ),
        )
    } else {
        (state, ask(GenerateStageView::Handshake, draft, ActionView::UnmarshalHandshake { data }))
    }
}

/// The server's share is known, and the first message can be numbered.
pub open spec fn server_share_known(
    state: StateView,
    draft: DraftView,
    server_key_exchange: ServerKeyExchangeView,
) -> GenerateStep {
    (
        state,
        ask(
            GenerateStageView::Number,
            DraftView {
                server_key_exchange,
                next_sequence: state.handshake_send_sequence as u16,
                ..draft
            },
            ActionView::Proceed,
        ),
    )
}

/// The state once a secret has been agreed on.  Where no key pair was made for
/// that, as with a pre-shared key, the one there is stays.
pub open spec fn with_agreement(state: StateView, agreement: KeyAgreementView) -> StateView {
    StateView {
        pre_master_secret: agreement.pre_master_secret,
        local_keypair: match agreement.local_keypair {
            Some(keypair) => Some(keypair),
            None => state.local_keypair,
        },
        ..state
    }
}

/// The message that was read has to be the server's share.
pub open spec fn server_share_read(
    state: StateView,
    draft: DraftView,
    handshake: HandshakeView,
) -> GenerateStep {
    match handshake.handshake_message {
        HandshakeMessageView::ServerKeyExchange(h) => server_share_known(state, draft, h),
        _ => (
            state,
            StepView::Fail(
                fatal_failure(AlertDescription::UnexpectedMessage, Error::InvalidContentType),
            ),
        ),
    }
}

/// The next message gets its number, goes into a packet, and is to be written.
pub open spec fn number_next(state: StateView, draft: DraftView) -> GenerateStep {
    let handshake = numbered(draft.unsent[draft.packets.len() as int], draft.next_sequence);
    (
        state,
        ask(
            GenerateStageView::Marshal,
            DraftView {
                next_sequence: (draft.next_sequence + 1) as u16,
                packets: draft.packets.push(plain_packet(ContentView::Handshake(handshake))),
                ..draft
            },
            ActionView::MarshalHandshake { handshake },
        ),
    )
}

/// The keys are set.  A client that sent a certificate with a private key
/// proves that it has the key; otherwise the flight can be finished.
pub open spec fn keys_set(
    state: StateView,
    cfg: HandshakeConfig,
    draft: DraftView,
) -> GenerateStep {
    if state.remote_requested_certificate && cfg.local_certificates@.len() > 0 {
        (
            state,
            ask(
                GenerateStageView::VerifyTranscript,
                draft,
                ActionView::PullAndMerge { rules: key_exchange_rules(cfg.initial_epoch) },
            ),
        )
    } else {
        (state, ask(GenerateStageView::Finish, draft, ActionView::Proceed))
    }
}

/// The flight goes where the cipher suite goes.
pub open spec fn follow_initialize(
    step: InitializeStep,
    cfg: HandshakeConfig,
    draft: DraftView,
) -> GenerateStep {
    match step.1 {
        StepView::Ask(progress, action) => (
            step.0,
            ask(GenerateStageView::Initialize(progress), draft, action),
        ),
        StepView::Done(_) => keys_set(step.0, cfg, draft),
        StepView::Fail(failure) => (step.0, StepView::Fail(failure)),
    }
}

/// A message has been written.  After the last one the keys are to be set.
pub open spec fn message_written(
    state: StateView,
    cfg: HandshakeConfig,
    draft: DraftView,
    raw: Seq<u8>,
) -> GenerateStep {
    let draft = DraftView { merged: draft.merged + raw, ..draft };
    if draft.packets.len() < draft.unsent.len() {
        (state, ask(GenerateStageView::Number, draft, ActionView::Proceed))
    } else {
        follow_initialize(
            initialize_begin(state, cfg, draft.server_key_exchange, draft.merged),
            cfg,
            draft,
        )
    }
}

/// The messages to be signed are there: those looked up, then those of this flight.
pub open spec fn verify_transcript_found(
    state: StateView,
    cfg: HandshakeConfig,
    draft: DraftView,
    data: Seq<u8>,
) -> GenerateStep {
    (
        state,
        ask(
            GenerateStageView::SignatureScheme { plain_text: data + draft.merged },
            draft,
            ActionView::SelectSignatureScheme {
                schemes: cfg.local_signature_schemes@,
                private_key: draft.certificate->0.private_key,
            },
        ),
    )
}

/// The signature is there, and the message that carries it is to be written.
pub open spec fn signature_made(
    state: StateView,
    draft: DraftView,
    scheme: SignatureHashAlgorithm,
    signature: Seq<u8>,
) -> GenerateStep {
    let handshake = numbered(
        HandshakeMessageView::CertificateVerify {
            hash_algorithm: scheme.hash,
            signature_algorithm: scheme.signature,
            signature,
        },
        draft.next_sequence,
    );
    (
        StateView { local_certificates_verify: signature, ..state },
        ask(
            GenerateStageView::MarshalVerify,
            DraftView {
                packets: draft.packets.push(plain_packet(ContentView::Handshake(handshake))),
                ..draft
            },
            ActionView::MarshalHandshake { handshake },
        ),
    )
}

/// The packets with the Finished message behind them.
pub open spec fn finished_flight(state: StateView, draft: DraftView) -> Seq<PacketView> {
    draft.packets.push(
        first_encrypted_packet(
            ContentView::Handshake(
                numbered(HandshakeMessageView::Finished { verify_data: state.local_verify_data }, 0),
            ),
        ),
    )
}

/// The change of the cipher is announced.  Verify data that are there already
/// are sent again; otherwise the messages to vouch for are to be looked up.
pub open spec fn finish(state: StateView, cfg: HandshakeConfig, draft: DraftView) -> GenerateStep {
    let draft = DraftView {
        packets: draft.packets.push(plain_packet(ContentView::ChangeCipherSpec)),
        ..draft
    };
    if state.local_verify_data.len() == 0 {
        (
            state,
            ask(
                GenerateStageView::Transcript,
                draft,
                ActionView::PullAndMerge { rules: transcript_rules(cfg.initial_epoch) },
            ),
        )
    } else {
        (state, StepView::Done(finished_flight(state, draft)))
    }
}

/// The state once the verify data over `plain_text` have been derived, if
/// there is a cipher suite to derive them with.
pub open spec fn with_verify_data(state: StateView, plain_text: Seq<u8>) -> StateView {
    match state.cipher_suite {
        Some(suite) => StateView {
            local_verify_data: client_verify_data(
                state.master_secret,
                plain_text,
                suite.spec_hash_func(),
            ),
            ..state
        },
        None => state,
    }
}

/// The messages to vouch for are there: those looked up, then those of this flight.
pub open spec fn transcript_found(
    state: StateView,
    draft: DraftView,
    data: Seq<u8>,
) -> GenerateStep {
    let state = with_verify_data(state, data + draft.merged);
    (state, StepView::Done(finished_flight(state, draft)))
}

/// The failure of a step.
pub open spec fn failed(
    state: StateView,
    alert_description: AlertDescription,
    err: Error,
) -> GenerateStep {
    (state, StepView::Fail(fatal_failure(alert_description, err)))
}

/// The step that an awaited event leads to.
pub open spec fn generate_resume(
    progress: GenerateProgressView,
    event: EventView,
    state: StateView,
    cfg: HandshakeConfig,
) -> GenerateStep
    recommends
        progress.awaits(event),
        progress.can_resume(state, cfg),
        progress.well_formed(cfg),
{
    let draft = progress.draft;
    match (progress.stage, event) {
        (
            GenerateStageView::Certificate,
            EventView::Certificate(Ok(certificate)),
        ) => certificate_chosen(state, cfg, Some(certificate)),
        (GenerateStageView::Certificate, EventView::Certificate(Err(err))) => failed(
            state,
            AlertDescription::HandshakeFailure,
            err,
        ),
        (GenerateStageView::ServerKeyExchange, EventView::Merged(data)) => server_share_found(
            state,
            draft,
            data,
        ),
        (
            GenerateStageView::KeyAgreement,
            EventView::KeyAgreement(Ok(agreement)),
        ) => server_share_known(with_agreement(state, agreement), draft, no_server_key_exchange()),
        (GenerateStageView::KeyAgreement, EventView::KeyAgreement(Err(failure))) => (
            state,
            StepView::Fail(failure),
        ),
        (
            GenerateStageView::Handshake,
            EventView::Handshake(Ok(handshake)),
        ) => server_share_read(state, draft, handshake),
        (GenerateStageView::Handshake, EventView::Handshake(Err(err))) => failed(
            state,
            AlertDescription::UnexpectedMessage,
            err,
        ),
        (GenerateStageView::Number, EventView::Proceed) => number_next(state, draft),
        (GenerateStageView::Marshal, EventView::Data(Ok(raw))) => message_written(
            state,
            cfg,
            draft,
            raw,
        ),
        (GenerateStageView::Marshal, EventView::Data(Err(err))) => failed(
            state,
            AlertDescription::InternalError,
            err,
        ),
        (GenerateStageView::Initialize(inner), event) => follow_initialize(
            initialize_resume(inner, event, state, cfg),
            cfg,
            draft,
        ),
        (GenerateStageView::VerifyTranscript, EventView::Merged(data)) => verify_transcript_found(
            state,
            cfg,
            draft,
            data,
        ),
        (
            GenerateStageView::SignatureScheme { plain_text },
            EventView::Scheme(Ok(scheme)),
        ) => (
            state,
            ask(
                GenerateStageView::CertificateVerify { scheme },
                draft,
                ActionView::GenerateCertificateVerify {
                    plain_text,
                    private_key: draft.certificate->0.private_key,
                },
            ),
        ),
        (GenerateStageView::SignatureScheme { .. }, EventView::Scheme(Err(err))) => failed(
            state,
            AlertDescription::InsufficientSecurity,
            err,
        ),
        (
            GenerateStageView::CertificateVerify { scheme },
            EventView::Data(Ok(signature)),
        ) => signature_made(state, draft, scheme, signature),
        (GenerateStageView::CertificateVerify { .. }, EventView::Data(Err(err))) => failed(
            state,
            AlertDescription::InternalError,
            err,
        ),
        (GenerateStageView::MarshalVerify, EventView::Data(Ok(raw))) => (
            state,
            ask(
                GenerateStageView::Finish,
                DraftView { merged: draft.merged + raw, ..draft },
                ActionView::Proceed,
            ),
        ),
        (GenerateStageView::MarshalVerify, EventView::Data(Err(err))) => failed(
            state,
            AlertDescription::InternalError,
            err,
        ),
        (GenerateStageView::Finish, EventView::Proceed) => finish(state, cfg, draft),
        (GenerateStageView::Transcript, EventView::Merged(data)) => transcript_found(
            state,
            draft,
            data,
        ),
        _ => arbitrary(),
    }
}

/// Every step that an awaited event leads to goes on well.
proof fn lemma_resume_goes_on_well(
    progress: GenerateProgressView,
    event: EventView,
    state: StateView,
    cfg: HandshakeConfig,
)
    requires
        progress.awaits(event),
        progress.well_formed(cfg),
    ensures
        goes_on_well(generate_resume(progress, event, state, cfg).1, cfg),
{
}

impl GenerateProgress {
    /// Tells whether the next step can be taken.
    pub fn can_resume(&self, state: &State, cfg: &HandshakeConfig) -> (r: bool)
        ensures
            r == self@.can_resume(state@, *cfg),
    {
        match &self.stage {
            GenerateStage::Number => self.draft.next_sequence < u16::MAX,
            GenerateStage::Initialize(progress) => progress.can_resume(state, cfg),
            GenerateStage::Finish => state.local_verify_data.len() > 0 || cfg.initial_epoch
                < u16::MAX,
            _ => true,
        }
    }
}

/// The step that asks for `action`.
fn ask_for(stage: GenerateStage, draft: Draft, action: Action) -> (r: Step<
    GenerateProgress,
    Vec<Packet>,
>)
    ensures
        r@ == ask(stage@, draft@, action@),
        r is Ask,
        r->Ask_0@ == (GenerateProgressView { stage: stage@, draft: draft@ }),
{
    Step::Ask(GenerateProgress { stage, draft }, action)
}

/// The client's share of the key exchange.
fn make_client_key_exchange(state: &State, cfg: &HandshakeConfig) -> (r: HandshakeMessage)
    ensures
        r@ == client_key_exchange(state@, *cfg),
{
    let mut message = HandshakeMessageClientKeyExchange {
        identity_hint: Vec::new(),
        public_key: Vec::new(),
    };
    if !cfg.has_local_psk_callback {
        if let Some(keypair) = &state.local_keypair {
            message.public_key = copy(keypair.public_key.as_slice());
        }
    } else {
        message.identity_hint = copy(cfg.local_psk_identity_hint.as_slice());
    }
    HandshakeMessage::ClientKeyExchange(message)
}

/// The message with the client's certificate.
fn make_certificate_message(certificate: &Option<Certificate>) -> (r: HandshakeMessage)
    ensures
        r@ == certificate_message(certificate_view(*certificate)),
{
    let first: Vec<u8> = match certificate {
        Some(certificate) => copy(certificate.certificate.as_slice()),
        None => Vec::new(),
    };
    let mut chain: Vec<Vec<u8>> = Vec::new();
    chain.push(first);
    let r = HandshakeMessage::Certificate(HandshakeMessageCertificate { certificate: chain });
    assert(r@->certificate =~= certificate_message(certificate_view(*certificate))->certificate);
    r
}

/// Goes on once the certificate has been chosen.
fn go_on_with_certificate(
    state: &State,
    cfg: &HandshakeConfig,
    certificate: Option<Certificate>,
) -> (r: Step<GenerateProgress, Vec<Packet>>)
    requires
        certificate is Some <==> cfg.local_certificates@.len() > 0,
    ensures
        (state@, r@) == certificate_chosen(state@, *cfg, certificate_view(certificate)),
        goes_on_well(r@, *cfg),
{
    let mut unsent: Vec<HandshakeMessage> = Vec::new();
    if state.remote_requested_certificate {
        unsent.push(make_certificate_message(&certificate));
    }
    unsent.push(make_client_key_exchange(state, cfg));
    assert(handshake_messages_view(unsent@) =~= first_messages(
        state@,
        *cfg,
        certificate_view(certificate),
    ));
    let draft = Draft {
        certificate,
        unsent,
        server_key_exchange: HandshakeMessageServerKeyExchange::default(),
        next_sequence: 0,
        packets: Vec::new(),
        merged: Vec::new(),
    };
    assert(draft@.packets =~= Seq::empty());
    ask_for(
        GenerateStage::ServerKeyExchange,
        draft,
        Action::PullAndMerge { rules: pull_server_key_exchange(cfg.initial_epoch) },
    )
}

/// Goes on once the server's share of the key exchange is known.
fn go_on_with_server_share(
    state: &State,
    draft: Draft,
    server_key_exchange: HandshakeMessageServerKeyExchange,
) -> (r: Step<GenerateProgress, Vec<Packet>>)
    ensures
        (state@, r@) == server_share_known(state@, draft@, server_key_exchange@),
{
    ask_for(
        GenerateStage::Number,
        Draft {
            certificate: draft.certificate,
            unsent: draft.unsent,
            server_key_exchange,
            next_sequence: state.handshake_send_sequence as u16,
            packets: draft.packets,
            merged: draft.merged,
        },
        Action::Proceed,
    )
}

/// Puts a handshake message into a packet behind the others.
fn add_handshake(draft: &mut Draft, handshake: &Handshake)
    ensures
        final(draft)@ == (DraftView {
            packets: old(draft)@.packets.push(
                plain_packet(ContentView::Handshake(handshake@)),
            ),
            ..old(draft)@
        }),
{
    draft.packets.push(Packet::plain(Content::Handshake(handshake.clone())));
    assert(draft@.packets =~= old(draft)@.packets.push(
        plain_packet(ContentView::Handshake(handshake@)),
    ));
}

/// Numbers the next message and asks for its bytes.
fn number_next_message(draft: Draft) -> (r: Step<GenerateProgress, Vec<Packet>>)
    requires
        draft@.packets.len() < draft@.unsent.len(),
        draft@.next_sequence < u16::MAX,
    ensures
        forall|state: StateView| (state, r@) == #[trigger] number_next(state, draft@),
{
    let mut draft = draft;
    let mut handshake: Handshake = Handshake::new(draft.unsent[draft.packets.len()].clone());
    handshake.handshake_header.message_sequence = draft.next_sequence;
    draft.next_sequence = draft.next_sequence + 1;
    add_handshake(&mut draft, &handshake);
    ask_for(GenerateStage::Marshal, draft, Action::MarshalHandshake { handshake })
}

/// Goes on once the keys are set.
fn go_on_with_keys(state: &State, cfg: &HandshakeConfig, draft: Draft) -> (r: Step<
    GenerateProgress,
    Vec<Packet>,
>)
    ensures
        (state@, r@) == keys_set(state@, *cfg, draft@),
{
    if state.remote_requested_certificate && cfg.local_certificates.len() > 0 {
        ask_for(
            GenerateStage::VerifyTranscript,
            draft,
            Action::PullAndMerge { rules: pull_key_exchange(cfg.initial_epoch) },
        )
    } else {
        ask_for(GenerateStage::Finish, draft, Action::Proceed)
    }
}

/// Goes where the cipher suite goes.
fn go_on_with_initialize(
    step: Step<InitializeProgress, ()>,
    state: &State,
    cfg: &HandshakeConfig,
    draft: Draft,
) -> (r: Step<GenerateProgress, Vec<Packet>>)
    ensures
        (state@, r@) == follow_initialize((state@, step@), *cfg, draft@),
{
    match step {
        Step::Ask(progress, action) => ask_for(GenerateStage::Initialize(progress), draft, action),
        Step::Done(_) => go_on_with_keys(state, cfg, draft),
        Step::Fail(failure) => Step::Fail(failure),
    }
}

/// Goes on once a message has been written.
fn go_on_with_message(state: &mut State, cfg: &HandshakeConfig, draft: Draft, raw: Vec<u8>) -> (r:
    Step<GenerateProgress, Vec<Packet>>)
    ensures
        (final(state)@, r@) == message_written(old(state)@, *cfg, draft@, raw@),
{
    let mut draft = draft;
    extend(&mut draft.merged, raw.as_slice());
    if draft.packets.len() < draft.unsent.len() {
        return ask_for(GenerateStage::Number, draft, Action::Proceed);
    }
    let step: Step<InitializeProgress, ()> = initalize_cipher_suite(
        state,
        cfg,
        draft.server_key_exchange.clone(),
        draft.merged.as_slice(),
    );
    go_on_with_initialize(step, state, cfg, draft)
}

/// Goes on once the messages are signed.
fn go_on_with_signature(
    state: &mut State,
    draft: Draft,
    scheme: SignatureHashAlgorithm,
    signature: Vec<u8>,
) -> (r: Step<GenerateProgress, Vec<Packet>>)
    ensures
        (final(state)@, r@) == signature_made(old(state)@, draft@, scheme, signature@),
{
    let mut draft = draft;
    state.local_certificates_verify = copy(signature.as_slice());
    let mut handshake: Handshake = Handshake::new(
        HandshakeMessage::CertificateVerify(
            HandshakeMessageCertificateVerify {
                hash_algorithm: scheme.hash,
                signature_algorithm: scheme.signature,
                signature,
            },
        ),
    );
    handshake.handshake_header.message_sequence = draft.next_sequence;
    add_handshake(&mut draft, &handshake);
    ask_for(GenerateStage::MarshalVerify, draft, Action::MarshalHandshake { handshake })
}

/// Puts the Finished message behind the other packets.
fn add_finished(state: &State, draft: Draft) -> (r: Vec<Packet>)
    ensures
        packets_view(r@) == finished_flight(state@, draft@),
{
    let mut packets: Vec<Packet> = draft.packets;
    packets.push(
        Packet::first_encrypted(
            Content::Handshake(
                Handshake::new(
                    HandshakeMessage::Finished(
                        HandshakeMessageFinished {
                            verify_data: copy(state.local_verify_data.as_slice()),
                        },
                    ),
                ),
            ),
        ),
    );
    assert(packets_view(packets@) =~= finished_flight(state@, draft@));
    packets
}

/// Announces the change of the cipher, and finishes the flight or asks for
/// what is still missing.
fn announce_change(state: &State, cfg: &HandshakeConfig, draft: Draft) -> (r: Step<
    GenerateProgress,
    Vec<Packet>,
>)
    requires
        state@.local_verify_data.len() == 0 ==> cfg.initial_epoch < u16::MAX,
    ensures
        (state@, r@) == finish(state@, *cfg, draft@),
{
    let ghost before = draft@;
    let mut draft = draft;
    draft.packets.push(Packet::plain(Content::ChangeCipherSpec));
    assert(draft@.packets =~= before.packets.push(plain_packet(ContentView::ChangeCipherSpec)));
    if state.local_verify_data.len() == 0 {
        ask_for(
            GenerateStage::Transcript,
            draft,
            Action::PullAndMerge { rules: pull_transcript(cfg.initial_epoch) },
        )
    } else {
        Step::Done(add_finished(state, draft))
    }
}

/// Takes over the verify data that were derived, or reports that they could
/// not be.
pub fn install_verify_data(state: &mut State, derived: Result<Vec<u8>, Error>) -> (r: Result<
    (),
    Failure,
>)
    ensures
        match derived {
            Ok(data) => r == Ok::<(), Failure>(()) && final(state)@ == (StateView {
                local_verify_data: data@,
                ..old(state)@
            }),
            Err(err) => r == Err::<(), Failure>(
                fatal_failure(AlertDescription::InternalError, err),
            ) && final(state)@ == old(state)@,
        },
{
    match derived {
        Ok(data) => {
            state.local_verify_data = data;
            Ok(())
        },
        Err(err) => Err(fail(AlertDescription::InternalError, err)),
    }
}

/// Goes on once the messages to vouch for have been looked up.
fn go_on_with_transcript(state: &mut State, draft: Draft, data: Vec<u8>) -> (r: Step<
    GenerateProgress,
    Vec<Packet>,
>)
    ensures
        (final(state)@, r@) == transcript_found(old(state)@, draft@, data@),
{
    let mut plain_text: Vec<u8> = data;
    extend(&mut plain_text, draft.merged.as_slice());
    if let Some(suite) = state.cipher_suite {
        let derived: Result<Vec<u8>, Error> = prf_verify_data_client(
            state.master_secret.as_slice(),
            plain_text.as_slice(),
            suite.hash_func(),
        );
        if let Err(failure) = install_verify_data(state, derived) {
            return Step::Fail(failure);
        }
    }
    Step::Done(add_finished(state, draft))
}

impl Flight5 {
    /// Starts to make the flight.
    pub fn generate(&self, state: &State, cfg: &HandshakeConfig) -> (r: Step<
        GenerateProgress,
        Vec<Packet>,
    >)
        ensures
            (state@, r@) == generate_begin(state@, *cfg),
            goes_on_well(r@, *cfg),
    {
        if cfg.local_certificates.len() > 0 {
            let draft = Draft {
                certificate: None,
                unsent: Vec::new(),
                server_key_exchange: HandshakeMessageServerKeyExchange::default(),
                next_sequence: 0,
                packets: Vec::new(),
                merged: Vec::new(),
            };
            assert(draft@ =~= empty_draft());
            ask_for(
                GenerateStage::Certificate,
                draft,
                Action::GetCertificate { server_name: cfg.server_name.clone() },
            )
        } else {
            go_on_with_certificate(state, cfg, None)
        }
    }

    /// Goes on to make the flight.
    #[verifier::rlimit(40)]
    pub fn resume_generate(
        &self,
        progress: GenerateProgress,
        event: Event,
        state: &mut State,
        cfg: &HandshakeConfig,
    ) -> (r: Step<GenerateProgress, Vec<Packet>>)
        requires
            progress@.awaits(event@),
            progress@.can_resume(old(state)@, *cfg),
            progress@.well_formed(*cfg),
        ensures
            (final(state)@, r@) == generate_resume(progress@, event@, old(state)@, *cfg),
            goes_on_well(r@, *cfg),
    {
        proof {
            lemma_resume_goes_on_well(progress@, event@, state@, *cfg);
        }
        let draft: Draft = progress.draft;
        match (progress.stage, event) {
            (
                GenerateStage::Certificate,
                Event::Certificate(Ok(certificate)),
            ) => go_on_with_certificate(state, cfg, Some(certificate)),
            (GenerateStage::Certificate, Event::Certificate(Err(err))) => Step::Fail(
                fail(AlertDescription::HandshakeFailure, err),
            ),
            (GenerateStage::ServerKeyExchange, Event::Merged(data)) => {
                if data.len() == 0 {
                    ask_for(
                        GenerateStage::KeyAgreement,
                        draft,
                        Action::HandleServerKeyExchange {
                            server_key_exchange: HandshakeMessageServerKeyExchange::default(),
                        },
                    )
                } else {
                    ask_for(GenerateStage::Handshake, draft, Action::UnmarshalHandshake { data })
                }
            },
            (GenerateStage::KeyAgreement, Event::KeyAgreement(Ok(agreement))) => {
                state.pre_master_secret = agreement.pre_master_secret;
                if agreement.local_keypair.is_some() {
                    state.local_keypair = agreement.local_keypair;
                }
                go_on_with_server_share(
                    state,
                    draft,
                    HandshakeMessageServerKeyExchange::default(),
                )
            },
            (GenerateStage::KeyAgreement, Event::KeyAgreement(Err(failure))) => Step::Fail(failure),
            (GenerateStage::Handshake, Event::Handshake(Ok(handshake))) => {
                match handshake.handshake_message {
                    HandshakeMessage::ServerKeyExchange(h) => go_on_with_server_share(
                        state,
                        draft,
                        h,
                    ),
                    _ => Step::Fail(
                        fail(AlertDescription::UnexpectedMessage, Error::InvalidContentType),
                    ),
                }
            },
            (GenerateStage::Handshake, Event::Handshake(Err(err))) => Step::Fail(
                fail(AlertDescription::UnexpectedMessage, err),
            ),
            (GenerateStage::Number, Event::Proceed) => number_next_message(draft),
            (GenerateStage::Marshal, Event::Data(Ok(raw))) => go_on_with_message(
                state,
                cfg,
                draft,
                raw,
            ),
            (GenerateStage::Marshal, Event::Data(Err(err))) => Step::Fail(
                fail(AlertDescription::InternalError, err),
            ),
            (GenerateStage::Initialize(inner), event) => {
                let step: Step<InitializeProgress, ()> = resume_initalize_cipher_suite(
                    inner,
                    event,
                    state,
                    cfg,
                );
                go_on_with_initialize(step, state, cfg, draft)
            },
            (GenerateStage::VerifyTranscript, Event::Merged(data)) => {
                let mut plain_text: Vec<u8> = data;
                extend(&mut plain_text, draft.merged.as_slice());
                let private_key: u64 = match &draft.certificate {
                    Some(certificate) => certificate.private_key,
                    None => 0,
                };
                ask_for(
                    GenerateStage::SignatureScheme { plain_text },
                    draft,
                    Action::SelectSignatureScheme {
                        schemes: copy_schemes(&cfg.local_signature_schemes),
                        private_key,
                    },
                )
            },
            (GenerateStage::SignatureScheme { plain_text }, Event::Scheme(Ok(scheme))) => {
                let private_key: u64 = match &draft.certificate {
                    Some(certificate) => certificate.private_key,
                    None => 0,
                };
                ask_for(
                    GenerateStage::CertificateVerify { scheme },
                    draft,
                    Action::GenerateCertificateVerify { plain_text, private_key },
                )
            },
            (GenerateStage::SignatureScheme { .. }, Event::Scheme(Err(err))) => Step::Fail(
                fail(AlertDescription::InsufficientSecurity, err),
            ),
            (
                GenerateStage::CertificateVerify { scheme },
                Event::Data(Ok(signature)),
            ) => go_on_with_signature(state, draft, scheme, signature),
            (GenerateStage::CertificateVerify { .. }, Event::Data(Err(err))) => Step::Fail(
                fail(AlertDescription::InternalError, err),
            ),
            (GenerateStage::MarshalVerify, Event::Data(Ok(raw))) => {
                let mut draft = draft;
                extend(&mut draft.merged, raw.as_slice());
                ask_for(GenerateStage::Finish, draft, Action::Proceed)
            },
            (GenerateStage::MarshalVerify, Event::Data(Err(err))) => Step::Fail(
                fail(AlertDescription::InternalError, err),
            ),
            (GenerateStage::Finish, Event::Proceed) => announce_change(state, cfg, draft),
            (GenerateStage::Transcript, Event::Merged(data)) => go_on_with_transcript(
                state,
                draft,
                data,
            ),
            _ => Step::Fail((None, None)),
        }
    }
}

/// A step of a flight is known by what it asks for, by its packets, or by its
/// failure.
pub proof fn law_generate_step_view(step: Step<GenerateProgress, Vec<Packet>>)
    ensures
        match step {
            Step::Ask(progress, action) => {
                step@ is Ask && step@->Ask_0 == progress@ && step@->Ask_1 == action@
            },
            Step::Done(packets) => step@ is Done && step@->Done_0 == packets_view(packets@),
            Step::Fail(failure) => step@ is Fail && step@->Fail_0 == failure,
        },
{
}

} // verus!
