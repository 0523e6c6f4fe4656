//! The master secret is derived, the server authenticated, and the keys of the
//! cipher suite set.

use vstd::prelude::*;

use crate::alert::AlertDescription;
use crate::bytes::{copy, list_view};
use crate::cipher_suite::CipherSuiteHash;
use crate::config::HandshakeConfig;
use crate::error::Error;
use crate::flight::{
    data_view, fail, fatal_failure, Action, ActionView, Event, EventView, Step, StepView,
};
use crate::handshake::{HandshakeMessageServerKeyExchange, ServerKeyExchangeView};
use crate::prf::{
    extended_master_secret, master_secret, prf_extended_master_secret, prf_master_secret,
};
use crate::signature_hash_algorithm::{is_scheme_listed, lists_scheme};
use crate::state::{CipherSuiteInit, CipherSuiteInitView, State, StateView};

verus! {

/// How far the cipher suite has been brought.
#[derive(Debug, PartialEq, Eq)]
pub enum InitializeProgress {
    /// The hash of the handshake so far is being made.
    SessionHash {
        hash: CipherSuiteHash,
        server_key_exchange: HandshakeMessageServerKeyExchange,
    },
    /// The master secret is there; the server is to be authenticated.
    Authenticate { server_key_exchange: HandshakeMessageServerKeyExchange },
    /// The server's signature is being checked.
    KeySignature { certificate: Vec<u8> },
    /// The server's certificate is being checked.
    Chains { certificate: Vec<u8> },
    /// The application is looking at the server's certificate.
    PeerCertificate,
    /// The keys are being set.
    Keys,
}

/// How far the cipher suite has been brought, as plain values.
#[verifier::ext_equal]
pub enum InitializeProgressView {
    SessionHash { hash: CipherSuiteHash, server_key_exchange: ServerKeyExchangeView },
    Authenticate { server_key_exchange: ServerKeyExchangeView },
    KeySignature { certificate: Seq<u8> },
    Chains { certificate: Seq<u8> },
    PeerCertificate,
    Keys,
}

impl View for InitializeProgress {
    type V = InitializeProgressView;

    open spec fn view(&self) -> InitializeProgressView {
        match self {
            InitializeProgress::SessionHash {
                hash,
                server_key_exchange,
            } => InitializeProgressView::SessionHash {
                hash: *hash,
                server_key_exchange: server_key_exchange@,
            },
            InitializeProgress::Authenticate {
                server_key_exchange,
            } => InitializeProgressView::Authenticate { server_key_exchange: server_key_exchange@ },
            InitializeProgress::KeySignature { certificate } => InitializeProgressView::KeySignature {
                certificate: certificate@,
            },
            InitializeProgress::Chains { certificate } => InitializeProgressView::Chains {
                certificate: certificate@,
            },
            InitializeProgress::PeerCertificate => InitializeProgressView::PeerCertificate,
            InitializeProgress::Keys => InitializeProgressView::Keys,
        }
    }
}

impl View for Step<InitializeProgress, ()> {
    type V = StepView<InitializeProgressView, ()>;

    open spec fn view(&self) -> StepView<InitializeProgressView, ()> {
        match *self {
            Step::Ask(progress, action) => StepView::Ask(progress@, action@),
            Step::Done(done) => StepView::Done(done),
            Step::Fail(failure) => StepView::Fail(failure),
        }
    }
}

/// A step and the state that it leaves.
pub type InitializeStep = (StateView, StepView<InitializeProgressView, ()>);

impl InitializeProgressView {
    /// Tells whether the next step takes `event`.
    pub open spec fn awaits(self, event: EventView) -> bool {
        match self {
            InitializeProgressView::SessionHash { .. } => event is Data,
            InitializeProgressView::Authenticate { .. } => event is Proceed,
            InitializeProgressView::KeySignature { .. } => event is Outcome,
            InitializeProgressView::Chains { .. } => event is Chains,
            InitializeProgressView::PeerCertificate => event is Outcome,
            InitializeProgressView::Keys => event is Outcome,
        }
    }

    /// Tells whether the next step can be taken: a server whose signature
    /// scheme is acceptable must have sent a certificate.
    pub open spec fn can_resume(self, state: StateView, cfg: HandshakeConfig) -> bool {
        match self {
            InitializeProgressView::Authenticate { server_key_exchange } => has_listed_scheme(
                server_key_exchange,
                cfg,
            ) ==> state.peer_certificates.len() > 0,
            _ => true,
        }
    }
}

/// Tells whether the server signed with a scheme that is acceptable.
pub open spec fn has_listed_scheme(h: ServerKeyExchangeView, cfg: HandshakeConfig) -> bool {
    lists_scheme(cfg.local_signature_schemes@, h.hash_algorithm, h.signature_algorithm)
}

/// The keys are to be set, if there is a cipher suite to set them in.
pub open spec fn set_keys(state: StateView) -> InitializeStep {
    match state.cipher_suite {
        Some(suite) => (
            state,
            StepView::Ask(
                InitializeProgressView::Keys,
                ActionView::InitCipherSuite {
                    init: CipherSuiteInitView {
                        suite: suite.id,
                        master_secret: state.master_secret,
                        client_random: state.local_random,
                        server_random: state.remote_random,
                        is_client: true,
                    },
                },
            ),
        ),
        None => (state, StepView::Done(())),
    }
}

/// The master secret is there.  With a pre-shared key the server needs no
/// other authentication.
pub open spec fn master_secret_ready(
    state: StateView,
    cfg: HandshakeConfig,
    h: ServerKeyExchangeView,
) -> InitializeStep {
    if cfg.has_local_psk_callback {
        set_keys(state)
    } else {
        (
            state,
            StepView::Ask(
                InitializeProgressView::Authenticate { server_key_exchange: h },
                ActionView::Proceed,
            ),
        )
    }
}

/// The master secret has been derived, or could not be.
pub open spec fn master_secret_derived(
    state: StateView,
    cfg: HandshakeConfig,
    h: ServerKeyExchangeView,
    derived: Result<Seq<u8>, Error>,
) -> InitializeStep {
    match derived {
        Ok(secret) => master_secret_ready(StateView { master_secret: secret, ..state }, cfg, h),
        Err(err) => (state, StepView::Fail(fatal_failure(AlertDescription::InternalError, err))),
    }
}

/// The extended master secret has been derived, or could not be.
pub open spec fn extended_master_secret_derived(
    state: StateView,
    cfg: HandshakeConfig,
    h: ServerKeyExchangeView,
    derived: Result<Seq<u8>, Error>,
) -> InitializeStep {
    match derived {
        Ok(secret) => master_secret_ready(StateView { master_secret: secret, ..state }, cfg, h),
        Err(err) => (state, StepView::Fail(fatal_failure(AlertDescription::IllegalParameter, err))),
    }
}

/// The first step.  Keys that are set stay; the extended master secret waits
/// for the session hash; the other one is derived at once.
pub open spec fn initialize_begin(
    state: StateView,
    cfg: HandshakeConfig,
    h: ServerKeyExchangeView,
    sending_plain_text: Seq<u8>,
) -> InitializeStep {
    match state.cipher_suite {
        Some(suite) => if suite.initialized {
            (state, StepView::Done(()))
        } else if state.extended_master_secret {
            (
                state,
                StepView::Ask(
                    InitializeProgressView::SessionHash {
                        hash: suite.spec_hash_func(),
                        server_key_exchange: h,
                    },
                    ActionView::SessionHash {
                        hash: suite.spec_hash_func(),
                        epoch: cfg.initial_epoch,
                        additional: sending_plain_text,
                    },
                ),
            )
        } else {
            master_secret_derived(
                state,
                cfg,
                h,
                Ok(
                    master_secret(
                        state.pre_master_secret,
                        state.local_random,
                        state.remote_random,
                        suite.spec_hash_func(),
                    ),
                ),
            )
        },
        None => master_secret_ready(state, cfg, h),
    }
}

/// The server's signature is to be checked with its first certificate.
pub open spec fn authenticate(
    state: StateView,
    cfg: HandshakeConfig,
    h: ServerKeyExchangeView,
) -> InitializeStep {
    if has_listed_scheme(h, cfg) {
        (
            state,
            StepView::Ask(
                InitializeProgressView::KeySignature { certificate: state.peer_certificates[0] },
                ActionView::VerifyKeySignature {
                    client_random: state.local_random,
                    server_random: state.remote_random,
                    public_key: h.public_key,
                    named_curve: h.named_curve,
                    signature: h.signature,
                    certificate: state.peer_certificates[0],
                },
            ),
        )
    } else {
        (
            state,
            StepView::Fail(
                fatal_failure(
                    AlertDescription::InsufficientSecurity,
                    Error::NoAvailableSignatureSchemes,
                ),
            ),
        )
    }
}

/// The application may want to look at the certificate and its chains.
pub open spec fn show_certificate(
    state: StateView,
    cfg: HandshakeConfig,
    certificate: Seq<u8>,
    chains: Seq<Seq<u8>>,
) -> InitializeStep {
    if cfg.has_verify_peer_certificate {
        (
            state,
            StepView::Ask(
                InitializeProgressView::PeerCertificate,
                ActionView::VerifyPeerCertificate { certificate, chains },
            ),
        )
    } else {
        set_keys(state)
    }
}

/// The server's signature is good; its certificate is to be checked, unless
/// that is switched off.
pub open spec fn signature_verified(
    state: StateView,
    cfg: HandshakeConfig,
    certificate: Seq<u8>,
) -> InitializeStep {
    if cfg.insecure_skip_verify {
        show_certificate(state, cfg, certificate, Seq::empty())
    } else {
        (
            state,
            StepView::Ask(
                InitializeProgressView::Chains { certificate },
                ActionView::VerifyCert { certificate },
            ),
        )
    }
}

/// The step that an awaited event leads to.
pub open spec fn initialize_resume(
    progress: InitializeProgressView,
    event: EventView,
    state: StateView,
    cfg: HandshakeConfig,
) -> InitializeStep
    recommends
        progress.awaits(event),
        progress.can_resume(state, cfg),
{
    match (progress, event) {
        (
            InitializeProgressView::SessionHash { hash, server_key_exchange },
            EventView::Data(Ok(session_hash)),
        ) => extended_master_secret_derived(
            state,
            cfg,
            server_key_exchange,
            Ok(extended_master_secret(state.pre_master_secret, session_hash, hash)),
        ),
        (InitializeProgressView::SessionHash { .. }, EventView::Data(Err(err))) => (
            state,
            StepView::Fail(fatal_failure(AlertDescription::InternalError, err)),
        ),
        (
            InitializeProgressView::Authenticate { server_key_exchange },
            EventView::Proceed,
        ) => authenticate(state, cfg, server_key_exchange),
        (
            InitializeProgressView::KeySignature { certificate },
            EventView::Outcome(Ok(_)),
        ) => signature_verified(state, cfg, certificate),
        (InitializeProgressView::KeySignature { .. }, EventView::Outcome(Err(err))) => (
            state,
            StepView::Fail(fatal_failure(AlertDescription::BadCertificate, err)),
        ),
        (
            InitializeProgressView::Chains { certificate },
            EventView::Chains(Ok(chains)),
        ) => show_certificate(state, cfg, certificate, chains),
        (InitializeProgressView::Chains { .. }, EventView::Chains(Err(err))) => (
            state,
            StepView::Fail(fatal_failure(AlertDescription::BadCertificate, err)),
        ),
        (InitializeProgressView::PeerCertificate, EventView::Outcome(Ok(_))) => set_keys(state),
        (InitializeProgressView::PeerCertificate, EventView::Outcome(Err(err))) => (
            state,
            StepView::Fail(fatal_failure(AlertDescription::BadCertificate, err)),
        ),
        (InitializeProgressView::Keys, EventView::Outcome(Ok(_))) => (
            state.with_keys_set(),
            StepView::Done(()),
        ),
        (InitializeProgressView::Keys, EventView::Outcome(Err(err))) => (
            state,
            StepView::Fail(fatal_failure(AlertDescription::InternalError, err)),
        ),
        _ => arbitrary(),
    }
}

impl InitializeProgress {
    /// Tells whether the next step can be taken.
    pub fn can_resume(&self, state: &State, cfg: &HandshakeConfig) -> (r: bool)
        ensures
            r == self@.can_resume(state@, *cfg),
    {
        match self {
            InitializeProgress::Authenticate { server_key_exchange } => {
                !is_scheme_listed(
                    &cfg.local_signature_schemes,
                    server_key_exchange.hash_algorithm,
                    server_key_exchange.signature_algorithm,
                ) || state.peer_certificates.len() > 0
            },
            _ => true,
        }
    }
}

/// The 32 bytes of the client's random, which is the local one.
fn local_random(state: &State) -> (r: Vec<u8>)
    ensures
        r@ == state@.local_random,
{
    let mut r: Vec<u8> = Vec::new();
    state.local_random.marshal(&mut r);
    assert(r@ =~= state@.local_random);
    r
}

/// The 32 bytes of the server's random, which is the remote one.
fn remote_random(state: &State) -> (r: Vec<u8>)
    ensures
        r@ == state@.remote_random,
{
    let mut r: Vec<u8> = Vec::new();
    state.remote_random.marshal(&mut r);
    assert(r@ =~= state@.remote_random);
    r
}

/// Asks for the keys to be set, if there is a cipher suite.
fn ask_for_keys(state: &State) -> (r: Step<InitializeProgress, ()>)
    ensures
        (state@, r@) == set_keys(state@),
{
    match &state.cipher_suite {
        Some(suite) => Step::Ask(
            InitializeProgress::Keys,
            Action::InitCipherSuite {
                init: CipherSuiteInit {
                    suite: suite.id,
                    master_secret: copy(state.master_secret.as_slice()),
                    client_random: local_random(state),
                    server_random: remote_random(state),
                    is_client: true,
                },
            },
        ),
        None => Step::Done(()),
    }
}

/// Goes on once the master secret is there.
fn go_on_with_master_secret(
    state: &State,
    cfg: &HandshakeConfig,
    h: HandshakeMessageServerKeyExchange,
) -> (r: Step<InitializeProgress, ()>)
    ensures
        (state@, r@) == master_secret_ready(state@, *cfg, h@),
{
    if cfg.has_local_psk_callback {
        ask_for_keys(state)
    } else {
        Step::Ask(InitializeProgress::Authenticate { server_key_exchange: h }, Action::Proceed)
    }
}

/// Takes over the master secret that was derived and goes on, or reports that
/// it could not be.
pub fn go_on_with_derived_secret(
    state: &mut State,
    cfg: &HandshakeConfig,
    h: HandshakeMessageServerKeyExchange,
    derived: Result<Vec<u8>, Error>,
) -> (r: Step<InitializeProgress, ()>)
    ensures
        (final(state)@, r@) == master_secret_derived(old(state)@, *cfg, h@, data_view(derived)),
{
    match derived {
        Ok(secret) => {
            state.master_secret = secret;
            go_on_with_master_secret(state, cfg, h)
        },
        Err(err) => Step::Fail(fail(AlertDescription::InternalError, err)),
    }
}

/// Takes over the extended master secret that was derived and goes on, or
/// reports that it could not be.
pub fn go_on_with_extended_secret(
    state: &mut State,
    cfg: &HandshakeConfig,
    h: HandshakeMessageServerKeyExchange,
    derived: Result<Vec<u8>, Error>,
) -> (r: Step<InitializeProgress, ()>)
    ensures
        (final(state)@, r@) == extended_master_secret_derived(
            old(state)@,
            *cfg,
            h@,
            data_view(derived),
        ),
{
    match derived {
        Ok(secret) => {
            state.master_secret = secret;
            go_on_with_master_secret(state, cfg, h)
        },
        Err(err) => Step::Fail(fail(AlertDescription::IllegalParameter, err)),
    }
}

/// Goes on once the chains of the certificate are known.
fn go_on_with_chains(
    state: &State,
    cfg: &HandshakeConfig,
    certificate: Vec<u8>,
    chains: Vec<Vec<u8>>,
) -> (r: Step<InitializeProgress, ()>)
    ensures
        (state@, r@) == show_certificate(
            state@,
            *cfg,
            certificate@,
            list_view(chains@),
        ),
{
    if cfg.has_verify_peer_certificate {
        Step::Ask(
            InitializeProgress::PeerCertificate,
            Action::VerifyPeerCertificate { certificate, chains },
        )
    } else {
        ask_for_keys(state)
    }
}

/// Checks the scheme of the server's signature and asks for the signature to
/// be checked.
fn check_scheme(
    state: &State,
    cfg: &HandshakeConfig,
    h: HandshakeMessageServerKeyExchange,
) -> (r: Step<InitializeProgress, ()>)
    requires
        has_listed_scheme(h@, *cfg) ==> state@.peer_certificates.len() > 0,
    ensures
        (state@, r@) == authenticate(state@, *cfg, h@),
{
    if !is_scheme_listed(&cfg.local_signature_schemes, h.hash_algorithm, h.signature_algorithm) {
        return Step::Fail(
            fail(AlertDescription::InsufficientSecurity, Error::NoAvailableSignatureSchemes),
        );
    }
    Step::Ask(
        InitializeProgress::KeySignature {
            certificate: copy(state.peer_certificates[0].as_slice()),
        },
        Action::VerifyKeySignature {
            client_random: local_random(state),
            server_random: remote_random(state),
            public_key: h.public_key,
            named_curve: h.named_curve,
            signature: h.signature,
            certificate: copy(state.peer_certificates[0].as_slice()),
        },
    )
}

/// Starts to bring the cipher suite up.  `h` is the server's share of the key
/// exchange, and `sending_plain_text` the messages of this flight so far.
pub fn initalize_cipher_suite(
    state: &mut State,
    cfg: &HandshakeConfig,
    h: HandshakeMessageServerKeyExchange,
    sending_plain_text: &[u8],
) -> (r: Step<InitializeProgress, ()>)
    ensures
        (final(state)@, r@) == initialize_begin(old(state)@, *cfg, h@, sending_plain_text@),
        r is Ask ==> forall|answer: EventView| #[trigger]
            answer.answers(r->Ask_1@) <==> r->Ask_0@.awaits(answer),
{
    if let Some(suite) = state.cipher_suite {
        if suite.initialized {
            return Step::Done(());
        }
        if state.extended_master_secret {
            return Step::Ask(
                InitializeProgress::SessionHash {
                    hash: suite.hash_func(),
                    server_key_exchange: h,
                },
                Action::SessionHash {
                    hash: suite.hash_func(),
                    epoch: cfg.initial_epoch,
                    additional: copy(sending_plain_text),
                },
            );
        }
        let client_random: Vec<u8> = local_random(state);
        let server_random: Vec<u8> = remote_random(state);
        let derived: Result<Vec<u8>, Error> = prf_master_secret(
            state.pre_master_secret.as_slice(),
            client_random.as_slice(),
            server_random.as_slice(),
            suite.hash_func(),
        );
        return go_on_with_derived_secret(state, cfg, h, derived);
    }
    go_on_with_master_secret(state, cfg, h)
}

/// Goes on to bring the cipher suite up.
pub fn resume_initalize_cipher_suite(
    progress: InitializeProgress,
    event: Event,
    state: &mut State,
    cfg: &HandshakeConfig,
) -> (r: Step<InitializeProgress, ()>)
    requires
        progress@.awaits(event@),
        progress@.can_resume(old(state)@, *cfg),
    ensures
        (final(state)@, r@) == initialize_resume(progress@, event@, old(state)@, *cfg),
        r is Ask ==> forall|answer: EventView| #[trigger]
            answer.answers(r->Ask_1@) <==> r->Ask_0@.awaits(answer),
{
    match (progress, event) {
        (
            InitializeProgress::SessionHash { hash, server_key_exchange },
            Event::Data(Ok(session_hash)),
        ) => {
            let derived: Result<Vec<u8>, Error> = prf_extended_master_secret(
                state.pre_master_secret.as_slice(),
                session_hash.as_slice(),
                hash,
            );
            go_on_with_extended_secret(state, cfg, server_key_exchange, derived)
        },
        (InitializeProgress::SessionHash { .. }, Event::Data(Err(err))) => Step::Fail(
            fail(AlertDescription::InternalError, err),
        ),
        (
            InitializeProgress::Authenticate { server_key_exchange },
            Event::Proceed,
        ) => check_scheme(state, cfg, server_key_exchange),
        (InitializeProgress::KeySignature { certificate }, Event::Outcome(Ok(_))) => {
            if cfg.insecure_skip_verify {
                let chains: Vec<Vec<u8>> = Vec::new();
                assert(list_view(chains@) =~= Seq::<Seq<u8>>::empty());
                go_on_with_chains(state, cfg, certificate, chains)
            } else {
                Step::Ask(
                    InitializeProgress::Chains { certificate: copy(certificate.as_slice()) },
                    Action::VerifyCert { certificate },
                )
            }
        },
        (InitializeProgress::KeySignature { .. }, Event::Outcome(Err(err))) => Step::Fail(
            fail(AlertDescription::BadCertificate, err),
        ),
        (
            InitializeProgress::Chains { certificate },
            Event::Chains(Ok(chains)),
        ) => go_on_with_chains(state, cfg, certificate, chains),
        (InitializeProgress::Chains { .. }, Event::Chains(Err(err))) => Step::Fail(
            fail(AlertDescription::BadCertificate, err),
        ),
        (InitializeProgress::PeerCertificate, Event::Outcome(Ok(_))) => ask_for_keys(state),
        (InitializeProgress::PeerCertificate, Event::Outcome(Err(err))) => Step::Fail(
            fail(AlertDescription::BadCertificate, err),
        ),
        (InitializeProgress::Keys, Event::Outcome(outcome)) => match state.cipher_suite_initialized(
            outcome,
        ) {
            Ok(()) => Step::Done(()),
            Err(err) => Step::Fail(fail(AlertDescription::InternalError, err)),
        },
        _ => Step::Fail((None, None)),
    }
}

/// A step of the cipher suite is known by what it asks for or ends in.
pub proof fn law_initialize_step_view(step: Step<InitializeProgress, ()>)
    ensures
        match step {
            Step::Ask(progress, action) => {
                step@ is Ask && step@->Ask_0 == progress@ && step@->Ask_1 == action@
            },
            Step::Done(_) => step@ is Done,
            Step::Fail(failure) => step@ is Fail && step@->Fail_0 == failure,
        },
{
}

} // verus!
