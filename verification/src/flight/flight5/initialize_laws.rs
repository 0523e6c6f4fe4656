//! What holds of every run that brings the cipher suite up, whatever the
//! replies.

use vstd::prelude::*;
use vstd::utf8::encode_utf8;

use crate::config::HandshakeConfig;
use crate::error::Error;
use crate::flight::flight5::initialize::{
    has_listed_scheme, initialize_begin, initialize_resume, InitializeProgressView, InitializeStep,
};
use crate::flight::{ActionView, EventView, StepView};
use crate::handshake::ServerKeyExchangeView;
use crate::prf::{extended_master_secret, master_secret, p_hash};
use crate::signature_hash_algorithm::law_scheme_is_listed;
use crate::state::{CipherSuiteInitView, StateView};

verus! {

/// What the cipher suite is brought up with.
#[verifier::ext_equal]
pub struct InitializeCall {
    pub state: StateView,
    pub cfg: HandshakeConfig,
    pub server_key_exchange: ServerKeyExchangeView,
    pub sending_plain_text: Seq<u8>,
}

/// How far the cipher suite has come after `events`.
pub open spec fn initialize_run(call: InitializeCall, events: Seq<EventView>) -> InitializeStep
    decreases events.len(),
{
    if events.len() == 0 {
        initialize_begin(
            call.state,
            call.cfg,
            call.server_key_exchange,
            call.sending_plain_text,
        )
    } else {
        let before = initialize_run(call, events.drop_last());
        match before.1 {
            StepView::Ask(progress, _) => initialize_resume(
                progress,
                events.last(),
                before.0,
                call.cfg,
            ),
            _ => before,
        }
    }
}

/// Tells whether each event answers what had been asked for, and each step
/// could be taken.
pub open spec fn is_initialize_run(call: InitializeCall, events: Seq<EventView>) -> bool
    decreases events.len(),
{
    events.len() > 0 ==> {
        let before = initialize_run(call, events.drop_last());
        &&& is_initialize_run(call, events.drop_last())
        &&& before.1 is Ask
        &&& events.last().answers(before.1->Ask_1)
        &&& before.1->Ask_0.can_resume(before.0, call.cfg)
    }
}

/// Tells whether `action` was asked for during a run, and did not fail.
pub open spec fn initialize_passed(
    call: InitializeCall,
    events: Seq<EventView>,
    action: ActionView,
) -> bool
    decreases events.len(),
{
    events.len() > 0 && {
        let front = events.drop_last();
        ||| initialize_passed(call, front, action)
        ||| {
            &&& initialize_run(call, front).1 is Ask
            &&& initialize_run(call, front).1->Ask_1 == action
            &&& !events.last().is_error()
        }
    }
}

/// The chains to the server's certificate that were found during a run.
pub open spec fn initialize_chains(events: Seq<EventView>) -> Seq<Seq<u8>>
    decreases events.len(),
{
    if events.len() == 0 {
        Seq::empty()
    } else {
        match events.last() {
            EventView::Chains(Ok(chains)) => chains,
            _ => initialize_chains(events.drop_last()),
        }
    }
}

/// The hash of the session that was made during a run, where one was.
pub open spec fn initialize_session_hash(events: Seq<EventView>) -> Option<Seq<u8>>
    decreases events.len(),
{
    if events.len() == 0 {
        None
    } else {
        match events.last() {
            EventView::Data(Ok(hash)) => Some(hash),
            _ => initialize_session_hash(events.drop_last()),
        }
    }
}

/// Tells whether the keys are set, if there is a cipher suite.
pub open spec fn keys_are_set(state: StateView) -> bool {
    state.cipher_suite is Some ==> state.cipher_suite->0.initialized
}

/// Tells whether the server is to be authenticated: without a pre-shared key,
/// unless the keys are set already.
pub open spec fn must_authenticate(start: StateView, cfg: HandshakeConfig) -> bool {
    &&& !cfg.has_local_psk_callback
    &&& start.cipher_suite is Some ==> !start.cipher_suite->0.initialized
}

/// The check of the server's signature: over both randoms and the share `h`,
/// with the server's first certificate.
pub open spec fn signature_check(start: StateView, h: ServerKeyExchangeView) -> ActionView {
    ActionView::VerifyKeySignature {
        client_random: start.local_random,
        server_random: start.remote_random,
        public_key: h.public_key,
        named_curve: h.named_curve,
        signature: h.signature,
        certificate: start.peer_certificates[0],
    }
}

/// The check of the server's first certificate.
pub open spec fn certificate_check(start: StateView) -> ActionView {
    ActionView::VerifyCert { certificate: start.peer_certificates[0] }
}

/// The check of the server's first certificate by the application, which is
/// shown the chains to it.
pub open spec fn application_check(start: StateView, chains: Seq<Seq<u8>>) -> ActionView {
    ActionView::VerifyPeerCertificate { certificate: start.peer_certificates[0], chains }
}

/// The request to set the keys of the client with what `state` holds.
pub open spec fn keys_request(state: StateView) -> ActionView {
    ActionView::InitCipherSuite {
        init: CipherSuiteInitView {
            suite: state.cipher_suite->0.id,
            master_secret: state.master_secret,
            client_random: state.local_random,
            server_random: state.remote_random,
            is_client: true,
        },
    }
}

/// Tells whether the server passed every check that the settings ask for: its
/// scheme is listed, its signature over its share is good, and so is its
/// certificate, also in the eyes of the application.
pub open spec fn initialize_authenticated(call: InitializeCall, events: Seq<EventView>) -> bool {
    let (start, cfg, h) = (call.state, call.cfg, call.server_key_exchange);
    &&& has_listed_scheme(h, cfg)
    &&& initialize_passed(call, events, signature_check(start, h))
    &&& !cfg.insecure_skip_verify ==> initialize_passed(call, events, certificate_check(start))
    &&& cfg.has_verify_peer_certificate ==> initialize_passed(
        call,
        events,
        application_check(start, initialize_chains(events)),
    )
}

/// Tells whether `end` differs from `start` only in the master secret and in
/// that the keys may have been set.
pub open spec fn settles_only_keys(start: StateView, end: StateView) -> bool {
    &&& end == (StateView {
        master_secret: end.master_secret,
        cipher_suite: end.cipher_suite,
        ..start
    })
    &&& end.cipher_suite == start.cipher_suite || end.cipher_suite
        == start.with_keys_set().cipher_suite
}

/// Tells whether the master secret is the one that the handshake gives: the
/// one there was, where there is no cipher suite or its keys were set before;
/// otherwise the extended one where that was agreed on, and else the plain one.
pub open spec fn has_master_secret(
    state: StateView,
    start: StateView,
    session_hash: Option<Seq<u8>>,
) -> bool {
    if start.cipher_suite is None || start.cipher_suite->0.initialized {
        state.master_secret == start.master_secret
    } else if start.extended_master_secret {
        session_hash is Some && state.master_secret == extended_master_secret(
            state.pre_master_secret,
            session_hash->0,
            start.cipher_suite->0.spec_hash_func(),
        )
    } else {
        state.master_secret == master_secret(
            state.pre_master_secret,
            start.local_random,
            start.remote_random,
            start.cipher_suite->0.spec_hash_func(),
        )
    }
}

/// How many events the cipher suite can still take.
pub open spec fn initialize_events_left(progress: InitializeProgressView) -> int {
    match progress {
        InitializeProgressView::SessionHash { .. } => 6,
        InitializeProgressView::Authenticate { .. } => 5,
        InitializeProgressView::KeySignature { .. } => 4,
        InitializeProgressView::Chains { .. } => 3,
        InitializeProgressView::PeerCertificate => 2,
        InitializeProgressView::Keys => 1,
    }
}

/// What holds after every step, but for the checks of the server.
spec fn is_initialize_on_course(
    step: InitializeStep,
    call: InitializeCall,
    events: Seq<EventView>,
) -> bool {
    let start = call.state;
    let hash = initialize_session_hash(events);
    &&& settles_only_keys(start, step.0)
    &&& start.cipher_suite is None || start.cipher_suite->0.initialized ==> step.0.master_secret
        == start.master_secret
    &&& step.1 !is Done ==> step.0.cipher_suite == start.cipher_suite
    &&& match step.1 {
        StepView::Ask(progress, action) => {
            &&& forall|event: EventView| #[trigger]
                event.answers(action) <==> progress.awaits(event)
            &&& action is InitCipherSuite <==> progress is Keys
            &&& events.len() + initialize_events_left(progress) <= 6
            &&& start.cipher_suite is Some ==> !start.cipher_suite->0.initialized
            &&& call.cfg.has_local_psk_callback ==> (progress is SessionHash || progress is Keys)
            &&& progress is SessionHash ==> action is SessionHash
            &&& match progress {
                InitializeProgressView::SessionHash { server_key_exchange, .. } => {
                    &&& server_key_exchange == call.server_key_exchange
                    &&& start.cipher_suite is Some && start.extended_master_secret
                    &&& hash is None && step.0.master_secret == start.master_secret
                    &&& events.len() == 0
                },
                InitializeProgressView::Authenticate { server_key_exchange } => {
                    &&& server_key_exchange == call.server_key_exchange
                    &&& has_master_secret(step.0, start, hash)
                },
                InitializeProgressView::Keys => {
                    &&& start.cipher_suite is Some
                    &&& action == keys_request(step.0)
                    &&& has_master_secret(step.0, start, hash)
                },
                _ => has_master_secret(step.0, start, hash),
            }
        },
        StepView::Done(_) => keys_are_set(step.0) && has_master_secret(step.0, start, hash),
        StepView::Fail(_) => true,
    }
}

/// Which checks the server has passed, by what the cipher suite waits for.
spec fn is_initialize_checked(
    step: InitializeStep,
    call: InitializeCall,
    events: Seq<EventView>,
) -> bool {
    let (start, cfg, h) = (call.state, call.cfg, call.server_key_exchange);
    match step.1 {
        StepView::Ask(progress, action) => match progress {
            InitializeProgressView::SessionHash { .. } => initialize_chains(events)
                == Seq::<Seq<u8>>::empty(),
            InitializeProgressView::Authenticate { .. } => initialize_chains(events)
                == Seq::<Seq<u8>>::empty(),
            InitializeProgressView::KeySignature { certificate } => {
                &&& has_listed_scheme(h, cfg)
                &&& certificate == start.peer_certificates[0]
                &&& action == signature_check(start, h)
                &&& initialize_chains(events) == Seq::<Seq<u8>>::empty()
            },
            InitializeProgressView::Chains { certificate } => {
                &&& has_listed_scheme(h, cfg)
                &&& certificate == start.peer_certificates[0]
                &&& !cfg.insecure_skip_verify
                &&& action == certificate_check(start)
                &&& initialize_passed(call, events, signature_check(start, h))
            },
            InitializeProgressView::PeerCertificate => {
                &&& has_listed_scheme(h, cfg)
                &&& action == application_check(start, initialize_chains(events))
                &&& initialize_passed(call, events, signature_check(start, h))
                &&& !cfg.insecure_skip_verify ==> initialize_passed(
                    call,
                    events,
                    certificate_check(start),
                )
            },
            InitializeProgressView::Keys => initialize_authenticated(call, events),
        },
        StepView::Done(_) => initialize_authenticated(call, events),
        StepView::Fail(_) => true,
    }
}

/// Every run stays on course.
#[verifier::rlimit(40)]
proof fn lemma_initialize_on_course(call: InitializeCall, events: Seq<EventView>)
    requires
        is_initialize_run(call, events),
    ensures
        is_initialize_on_course(initialize_run(call, events), call, events),
    decreases events.len(),
{
    if events.len() > 0 {
        let front = events.drop_last();
        lemma_initialize_on_course(call, front);
        assert(initialize_run(call, front).1->Ask_0.awaits(events.last()));
    }
}

/// Every run that must authenticate the server checks it on its way.
#[verifier::rlimit(40)]
proof fn lemma_initialize_checks_server(call: InitializeCall, events: Seq<EventView>)
    requires
        is_initialize_run(call, events),
        must_authenticate(call.state, call.cfg),
    ensures
        is_initialize_checked(initialize_run(call, events), call, events),
    decreases events.len(),
{
    if events.len() > 0 {
        let front = events.drop_last();
        lemma_initialize_on_course(call, front);
        lemma_initialize_checks_server(call, front);
        assert(initialize_run(call, front).1->Ask_0.awaits(events.last()));
    }
}

/// However far the cipher suite comes, nothing in the state changes but the
/// master secret and whether the keys are set.  Where there is no suite, or its
/// keys were set before, the master secret does not change either, also where
/// the run fails.
pub proof fn law_initialize_settles_only_keys(call: InitializeCall, events: Seq<EventView>)
    requires
        is_initialize_run(call, events),
    ensures
        settles_only_keys(call.state, initialize_run(call, events).0),
        call.state.cipher_suite is None || call.state.cipher_suite->0.initialized ==> {
            initialize_run(call, events).0.master_secret == call.state.master_secret
        },
        initialize_run(call, events).1 !is Done ==> initialize_run(call, events).0.cipher_suite
            == call.state.cipher_suite,
{
    lemma_initialize_on_course(call, events);
}

/// Where the cipher suite comes up, its keys are set, and the master secret is
/// the one that the handshake gives.
pub proof fn law_initialize_sets_keys(call: InitializeCall, events: Seq<EventView>)
    requires
        is_initialize_run(call, events),
        initialize_run(call, events).1 is Done,
    ensures
        keys_are_set(initialize_run(call, events).0),
        has_master_secret(
            initialize_run(call, events).0,
            call.state,
            initialize_session_hash(events),
        ),
{
    lemma_initialize_on_course(call, events);
}

/// Without a pre-shared key, and unless the keys were set before, the cipher
/// suite only comes up, and its keys are only asked for, once the server has
/// passed every check that the settings ask for.
pub proof fn law_initialize_authenticates(call: InitializeCall, events: Seq<EventView>)
    requires
        is_initialize_run(call, events),
        must_authenticate(call.state, call.cfg),
        initialize_run(call, events).1 is Done || (initialize_run(call, events).1 is Ask
            && initialize_run(call, events).1->Ask_1 is InitCipherSuite),
    ensures
        initialize_authenticated(call, events),
{
    lemma_initialize_on_course(call, events);
    lemma_initialize_checks_server(call, events);
}

/// A step of a run, and that its start is a run.
proof fn lemma_initialize_prefix(call: InitializeCall, events: Seq<EventView>, i: int)
    requires
        is_initialize_run(call, events),
        0 <= i <= events.len(),
    ensures
        is_initialize_run(call, events.take(i)),
        i < events.len() ==> {
            let before = initialize_run(call, events.take(i));
            &&& before.1 is Ask
            &&& before.1->Ask_0.awaits(events[i])
            &&& initialize_run(call, events.take(i + 1)) == initialize_resume(
                before.1->Ask_0,
                events[i],
                before.0,
                call.cfg,
            )
        },
    decreases events.len(),
{
    if i == events.len() {
        assert(events.take(i) =~= events);
    } else {
        let front = events.drop_last();
        if i < front.len() {
            lemma_initialize_prefix(call, front, i);
            assert(front.take(i) =~= events.take(i));
            assert(front.take(i + 1) =~= events.take(i + 1));
            assert(front[i] == events[i]);
        } else {
            assert(events.take(i) =~= front);
            assert(events.take(i + 1) =~= events);
            lemma_initialize_on_course(call, front);
        }
    }
}

/// The keys are asked for last: they are asked for with what the state then
/// holds, and the reply to that ends the run.
pub proof fn law_keys_are_asked_for_last(call: InitializeCall, events: Seq<EventView>, i: int)
    requires
        is_initialize_run(call, events),
        0 <= i <= events.len(),
        initialize_run(call, events.take(i)).1 is Ask,
        initialize_run(call, events.take(i)).1->Ask_1 is InitCipherSuite,
    ensures
        initialize_run(call, events.take(i)).1->Ask_1 == keys_request(
            initialize_run(call, events.take(i)).0,
        ),
        events.len() <= i + 1,
        events.len() == i + 1 ==> initialize_run(call, events).1 !is Ask,
{
    lemma_initialize_prefix(call, events, i);
    lemma_initialize_on_course(call, events.take(i));
    if i < events.len() {
        assert(initialize_run(call, events.take(i + 1)).1 !is Ask);
        if i + 1 < events.len() {
            lemma_initialize_prefix(call, events, i + 1);
        } else {
            assert(events.take(i + 1) =~= events);
        }
    }
}

/// The keys are asked for at most once.
pub proof fn law_keys_are_asked_for_once(
    call: InitializeCall,
    events: Seq<EventView>,
    i: int,
    j: int,
)
    requires
        is_initialize_run(call, events),
        0 <= i <= events.len(),
        0 <= j <= events.len(),
        initialize_run(call, events.take(i)).1 is Ask,
        initialize_run(call, events.take(i)).1->Ask_1 is InitCipherSuite,
        initialize_run(call, events.take(j)).1 is Ask,
        initialize_run(call, events.take(j)).1->Ask_1 is InitCipherSuite,
    ensures
        i == j,
{
    law_keys_are_asked_for_last(call, events, i);
    law_keys_are_asked_for_last(call, events, j);
    assert(events.take(events.len() as int) =~= events);
}

/// Tells whether two steps ask for the same, or end in the same way.
pub open spec fn same_outcome(a: InitializeStep, b: InitializeStep) -> bool {
    match (a.1, b.1) {
        (StepView::Ask(_, asked), StepView::Ask(_, other)) => asked == other,
        (StepView::Done(_), StepView::Done(_)) => true,
        (StepView::Fail(failure), StepView::Fail(other)) => failure == other,
        _ => false,
    }
}

/// The state with other certificates of the peer.
pub open spec fn with_certificates(state: StateView, certificates: Seq<Seq<u8>>) -> StateView {
    StateView { peer_certificates: certificates, ..state }
}

/// Tells whether two calls with a pre-shared key differ only in what concerns
/// the server: its share, its certificates, and how the settings want it
/// checked.
pub open spec fn differ_in_server(call: InitializeCall, other: InitializeCall) -> bool {
    &&& call.cfg.has_local_psk_callback
    &&& other.cfg.has_local_psk_callback
    &&& other.cfg.initial_epoch == call.cfg.initial_epoch
    &&& other.state == with_certificates(call.state, other.state.peer_certificates)
    &&& other.sending_plain_text == call.sending_plain_text
}

/// Tells whether a step asks for no check of the server.
pub open spec fn asks_no_check(step: InitializeStep) -> bool {
    match step.1 {
        StepView::Ask(_, action) => {
            &&& action !is VerifyKeySignature
            &&& action !is VerifyCert
            &&& action !is VerifyPeerCertificate
        },
        _ => true,
    }
}

/// Tells whether two calls wait for the same in the same stage.
spec fn same_stage(a: InitializeStep, b: InitializeStep) -> bool {
    match (a.1, b.1) {
        (StepView::Ask(progress, _), StepView::Ask(other, _)) => {
            ||| progress is Keys && other is Keys
            ||| {
                &&& progress is SessionHash && other is SessionHash
                &&& progress->SessionHash_hash == other->SessionHash_hash
            }
        },
        _ => true,
    }
}

/// With a pre-shared key neither the share nor the certificates of the server
/// matter, nor how the settings want it checked: with others the same is asked
/// for, the same replies lead to the same end, and the state ends up the same.
pub proof fn law_pre_shared_key_needs_no_server(
    call: InitializeCall,
    other: InitializeCall,
    events: Seq<EventView>,
)
    requires
        differ_in_server(call, other),
        is_initialize_run(call, events),
    ensures
        is_initialize_run(other, events),
        same_outcome(initialize_run(call, events), initialize_run(other, events)),
        initialize_run(other, events).0 == with_certificates(
            initialize_run(call, events).0,
            other.state.peer_certificates,
        ),
{
    lemma_pre_shared_key(call, other, events);
}

/// With a pre-shared key no check of the server is asked for, at any point of
/// a run.
pub proof fn law_pre_shared_key_asks_no_check(
    call: InitializeCall,
    events: Seq<EventView>,
    i: int,
)
    requires
        call.cfg.has_local_psk_callback,
        is_initialize_run(call, events),
        0 <= i <= events.len(),
    ensures
        asks_no_check(initialize_run(call, events.take(i))),
{
    lemma_initialize_prefix(call, events, i);
    lemma_initialize_on_course(call, events.take(i));
}

/// As `law_pre_shared_key_needs_no_server`, with the stage.
#[verifier::rlimit(40)]
proof fn lemma_pre_shared_key(
    call: InitializeCall,
    other: InitializeCall,
    events: Seq<EventView>,
)
    requires
        differ_in_server(call, other),
        is_initialize_run(call, events),
    ensures
        is_initialize_run(other, events),
        same_outcome(initialize_run(call, events), initialize_run(other, events)),
        same_stage(initialize_run(call, events), initialize_run(other, events)),
        initialize_run(other, events).0 == with_certificates(
            initialize_run(call, events).0,
            other.state.peer_certificates,
        ),
    decreases events.len(),
{
    if events.len() > 0 {
        let front = events.drop_last();
        lemma_initialize_on_course(call, front);
        lemma_pre_shared_key(call, other, front);
        assert(initialize_run(call, front).1->Ask_0.awaits(events.last()));
    }
}

/// A reply that reports an error ends the run at once, and leaves the state as
/// it was.
pub proof fn law_error_ends_initialize(
    progress: InitializeProgressView,
    event: EventView,
    state: StateView,
    cfg: HandshakeConfig,
)
    requires
        progress.awaits(event),
        event.is_error(),
    ensures
        initialize_resume(progress, event, state, cfg).1 is Fail,
        initialize_resume(progress, event, state, cfg).0 == state,
{
}

/// The cipher suite is up, or has failed, after six events at the latest.
pub proof fn law_initialize_ends(call: InitializeCall, events: Seq<EventView>)
    requires
        is_initialize_run(call, events),
    ensures
        events.len() <= 6,
        events.len() == 6 ==> initialize_run(call, events).1 !is Ask,
{
    lemma_initialize_on_course(call, events);
    if events.len() > 0 {
        lemma_initialize_on_course(call, events.drop_last());
    }
}

/// What may be asked for after `events`: with what, and under which
/// circumstances.
pub open spec fn is_initialize_request(
    step: InitializeStep,
    call: InitializeCall,
    events: Seq<EventView>,
) -> bool {
    let (start, cfg, h) = (call.state, call.cfg, call.server_key_exchange);
    &&& start.cipher_suite is Some ==> !start.cipher_suite->0.initialized
    &&& match step.1->Ask_1 {
        ActionView::Proceed => !cfg.has_local_psk_callback,
        ActionView::SessionHash { hash, epoch, additional } => {
            &&& events.len() == 0
            &&& start.cipher_suite is Some && !start.cipher_suite->0.initialized
            &&& start.extended_master_secret
            &&& hash == start.cipher_suite->0.spec_hash_func()
            &&& epoch == cfg.initial_epoch
            &&& additional == call.sending_plain_text
        },
        ActionView::VerifyKeySignature {
            client_random,
            server_random,
            public_key,
            named_curve,
            signature,
            certificate,
        } => {
            &&& !cfg.has_local_psk_callback
            &&& client_random == start.local_random
            &&& server_random == start.remote_random
            &&& public_key == h.public_key
            &&& named_curve == h.named_curve
            &&& signature == h.signature
            &&& certificate == start.peer_certificates[0]
            &&& exists|i: int|
                0 <= i < cfg.local_signature_schemes@.len() && (
                #[trigger] cfg.local_signature_schemes@[i]).hash == h.hash_algorithm
                    && cfg.local_signature_schemes@[i].signature == h.signature_algorithm
        },
        ActionView::VerifyCert { certificate } => {
            &&& !cfg.has_local_psk_callback && !cfg.insecure_skip_verify
            &&& certificate == start.peer_certificates[0]
        },
        ActionView::VerifyPeerCertificate { certificate, chains } => {
            &&& !cfg.has_local_psk_callback && cfg.has_verify_peer_certificate
            &&& certificate == start.peer_certificates[0]
            &&& cfg.insecure_skip_verify ==> chains.len() == 0
            &&& !cfg.insecure_skip_verify ==> events.len() > 0 && events.last()
                == EventView::Chains(Ok(chains))
        },
        ActionView::InitCipherSuite { init } => {
            &&& start.cipher_suite is Some && !start.cipher_suite->0.initialized
            &&& init.suite == start.cipher_suite->0.id
            &&& init.master_secret == step.0.master_secret
            &&& init.client_random == start.local_random
            &&& init.server_random == start.remote_random
            &&& init.is_client
        },
        _ => false,
    }
}

/// What belongs to the stage that the cipher suite is in.
spec fn is_initialize_stage(
    step: InitializeStep,
    call: InitializeCall,
    events: Seq<EventView>,
) -> bool {
    step.1 matches StepView::Ask(progress, action) ==> {
        &&& is_initialize_request(step, call, events)
        &&& match progress {
            InitializeProgressView::SessionHash { .. } => action is SessionHash,
            InitializeProgressView::Authenticate { .. } => action is Proceed,
            InitializeProgressView::KeySignature { certificate } => {
                action is VerifyKeySignature && certificate == call.state.peer_certificates[0]
            },
            InitializeProgressView::Chains { certificate } => {
                action is VerifyCert && certificate == call.state.peer_certificates[0]
            },
            InitializeProgressView::PeerCertificate => action is VerifyPeerCertificate,
            InitializeProgressView::Keys => action is InitCipherSuite,
        }
    }
}

/// Every run asks in order.
#[verifier::rlimit(80)]
proof fn lemma_initialize_asks_in_order(call: InitializeCall, events: Seq<EventView>)
    requires
        is_initialize_run(call, events),
    ensures
        is_initialize_stage(initialize_run(call, events), call, events),
    decreases events.len(),
{
    let h = call.server_key_exchange;
    law_scheme_is_listed(
        call.cfg.local_signature_schemes@,
        h.hash_algorithm,
        h.signature_algorithm,
    );
    if events.len() > 0 {
        let front = events.drop_last();
        lemma_initialize_on_course(call, front);
        lemma_initialize_asks_in_order(call, front);
        assert(initialize_run(call, front).1->Ask_0.awaits(events.last()));
    }
}

/// Whatever is asked for on the way to the keys is asked for with what it is to
/// be asked for, and only under the circumstances that call for it.
pub proof fn law_initialize_requests(call: InitializeCall, events: Seq<EventView>)
    requires
        is_initialize_run(call, events),
        initialize_run(call, events).1 is Ask,
    ensures
        is_initialize_request(initialize_run(call, events), call, events),
{
    lemma_initialize_asks_in_order(call, events);
}

/// Why the cipher suite does not come up, and what is then told the peer and the
/// caller.  Nothing else makes it fail, and the failing step leaves the state as
/// it was.
#[verifier::rlimit(40)]
pub proof fn law_initialize_failures(call: InitializeCall, events: Seq<EventView>)
    requires
        is_initialize_run(call, events),
        initialize_run(call, events).1 is Fail,
    ensures
        events.len() > 0,
        initialize_run(call, events).0 == initialize_run(call, events.drop_last()).0,
        initialize_run(call, events).1->Fail_0.0 matches Some(alert) && alert.alert_level is Fatal
            && ({
            let description = alert.alert_description;
            let error = initialize_run(call, events).1->Fail_0.1;
            let h = call.server_key_exchange;
            match (initialize_run(call, events.drop_last()).1->Ask_1, events.last()) {
                (ActionView::SessionHash { .. }, EventView::Data(Err(err))) => {
                    description is InternalError && error == Some(err)
                },
                (ActionView::Proceed, EventView::Proceed) => {
                    &&& description is InsufficientSecurity
                    &&& error == Some(Error::NoAvailableSignatureSchemes)
                    &&& forall|i: int|
                        0 <= i < call.cfg.local_signature_schemes@.len() ==> !((
                        #[trigger] call.cfg.local_signature_schemes@[i]).hash == h.hash_algorithm
                            && call.cfg.local_signature_schemes@[i].signature
                            == h.signature_algorithm)
                },
                (ActionView::VerifyKeySignature { .. }, EventView::Outcome(Err(err))) => {
                    description is BadCertificate && error == Some(err)
                },
                (ActionView::VerifyCert { .. }, EventView::Chains(Err(err))) => {
                    description is BadCertificate && error == Some(err)
                },
                (ActionView::VerifyPeerCertificate { .. }, EventView::Outcome(Err(err))) => {
                    description is BadCertificate && error == Some(err)
                },
                (ActionView::InitCipherSuite { .. }, EventView::Outcome(Err(err))) => {
                    description is InternalError && error == Some(err)
                },
                _ => false,
            }
        }),
{
    let front = events.drop_last();
    let h = call.server_key_exchange;
    law_scheme_is_listed(
        call.cfg.local_signature_schemes@,
        h.hash_algorithm,
        h.signature_algorithm,
    );
    lemma_initialize_on_course(call, front);
    lemma_initialize_asks_in_order(call, front);
    assert(initialize_run(call, front).1->Ask_0.awaits(events.last()));
}

/// Where the cipher suite comes up, the master secret is the one at the start if
/// there is no suite or its keys were set before.  Otherwise it is the 48-byte
/// expansion of the pre-master secret over "master secret", the client's random
/// and the server's random or, where the extended one was agreed on, over
/// "extended master secret" and the whole session hash that the first reply
/// brought.
pub proof fn law_initialize_secret(call: InitializeCall, events: Seq<EventView>)
    requires
        is_initialize_run(call, events),
        initialize_run(call, events).1 is Done,
    ensures
        ({
            let (start, end) = (call.state, initialize_run(call, events).0);
            if start.cipher_suite is None || start.cipher_suite->0.initialized {
                end.master_secret == start.master_secret
            } else if start.extended_master_secret {
                &&& events.len() > 0 && events[0] is Data && events[0]->Data_0 is Ok
                &&& end.master_secret == p_hash(
                    start.pre_master_secret,
                    encode_utf8("extended master secret"@) + events[0]->Data_0->Ok_0,
                    48,
                    start.cipher_suite->0.spec_hash_func(),
                )
            } else {
                end.master_secret == p_hash(
                    start.pre_master_secret,
                    encode_utf8("master secret"@) + start.local_random + start.remote_random,
                    48,
                    start.cipher_suite->0.spec_hash_func(),
                )
            }
        }),
{
    lemma_initialize_on_course(call, events);
    lemma_session_hash_first(call, events);
}

/// The session hash, where there is one, is the first reply.
proof fn lemma_session_hash_first(call: InitializeCall, events: Seq<EventView>)
    requires
        is_initialize_run(call, events),
    ensures
        initialize_session_hash(events) matches Some(hash) ==> events.len() > 0 && events[0]
            == EventView::Data(Ok(hash)),
    decreases events.len(),
{
    if events.len() > 0 {
        let front = events.drop_last();
        lemma_initialize_on_course(call, front);
        lemma_session_hash_first(call, front);
        assert(initialize_run(call, front).1->Ask_0.awaits(events.last()));
        if front.len() > 0 {
            assert(front[0] == events[0]);
        }
    }
}

/// An action that passed was asked for at some point of the run, and the reply
/// to it there was no error.
pub proof fn law_passed_at_some_point(
    call: InitializeCall,
    events: Seq<EventView>,
    action: ActionView,
)
    requires
        initialize_passed(call, events, action),
    ensures
        exists|i: int|
            0 <= i < events.len() && (#[trigger] initialize_run(call, events.take(i))).1 is Ask
                && initialize_run(call, events.take(i)).1->Ask_1 == action && !events[i].is_error(),
    decreases events.len(),
{
    let front = events.drop_last();
    if initialize_passed(call, front, action) {
        law_passed_at_some_point(call, front, action);
        let i = choose|i: int|
            0 <= i < front.len() && (#[trigger] initialize_run(call, front.take(i))).1 is Ask
                && initialize_run(call, front.take(i)).1->Ask_1 == action && !front[i].is_error();
        assert(front.take(i) =~= events.take(i));
        assert(front[i] == events[i]);
        assert(initialize_run(call, events.take(i)).1 is Ask);
    } else {
        let i = events.len() - 1;
        assert(events.take(i) =~= front);
        assert(initialize_run(call, events.take(i)).1 is Ask);
    }
}

} // verus!
