//! What a run of flight 5 asks for, sends and leaves behind, told by the
//! replies in their places, the starting state and the settings alone.

use vstd::prelude::*;
use vstd::utf8::encode_utf8;

use crate::alert::{Alert, AlertDescription, AlertLevel};
use crate::config::{CertificateView, HandshakeConfig};
use crate::curve::{EllipticCurveType, NamedCurve};
use crate::error::Error;
use crate::flight::flight5::generate::{GenerateProgressView, GenerateStageView, GenerateStep};
use crate::flight::flight5::initialize::{
    extended_master_secret_derived, master_secret_derived, InitializeProgressView,
};
use crate::flight::flight5::laws::{
    chosen_certificate, generate_run, is_generate_run, is_on_course, law_flight_master_secret, law_flight_packets,
    law_flight_settles_only_secrets, law_flight_verify_data, law_secret_before_keys,
    lemma_run_on_course, session_hash,
    proves_possession, written_bytes,
};
use crate::flight::flight5::parse::{
    message_of_type, parse_begin, parse_resume, ParseProgressView,
};
use crate::flight::flight5::{
    key_exchange_rules, server_finished_rules, server_key_exchange_rules, transcript_rules, Flight5,
};
use crate::flight::{ActionView, EventView, Failure, PulledMessageView, StepView};
use crate::handshake::{
    HandshakeHeader, HandshakeMessageView, HandshakeType, HandshakeView, ServerKeyExchangeView,
};
use crate::prf::{p_hash, sha256_of};
use crate::record_layer::{ContentView, PacketView};
use crate::signature_hash_algorithm::{
    law_scheme_is_listed, HashAlgorithm, SignatureAlgorithm,
};
use crate::state::{CipherSuiteInitView, StateView};

verus! {

/// How many replies come before the lookup of the server's share: the
/// certificate of this side, where there are any to choose from.
pub open spec fn lead(cfg: HandshakeConfig) -> int {
    if cfg.local_certificates@.len() > 0 {
        1
    } else {
        0
    }
}

/// How many replies come before the cipher suite is brought up.
pub open spec fn base(start: StateView, cfg: HandshakeConfig) -> int {
    if start.remote_requested_certificate {
        lead(cfg) + 6
    } else {
        lead(cfg) + 4
    }
}

/// The bytes that the reply `k` brought.
pub open spec fn reply(events: Seq<EventView>, k: int) -> Seq<u8> {
    events[k]->Data_0->Ok_0
}

/// The bytes of the messages before the keys are set: the certificate, if it
/// was asked for, and the client's share.
pub open spec fn first_written(
    start: StateView,
    cfg: HandshakeConfig,
    events: Seq<EventView>,
) -> Seq<u8> {
    if start.remote_requested_certificate {
        reply(events, lead(cfg) + 3) + reply(events, lead(cfg) + 5)
    } else {
        reply(events, lead(cfg) + 3)
    }
}

/// The server's share that a reply brought; one without anything in it where
/// the reply is a key agreement.
pub open spec fn share_in(event: EventView) -> ServerKeyExchangeView {
    match event {
        EventView::Handshake(Ok(handshake)) => handshake.handshake_message->ServerKeyExchange_0,
        _ => ServerKeyExchangeView {
            identity_hint: Seq::empty(),
            elliptic_curve_type: EllipticCurveType::Unsupported,
            named_curve: NamedCurve::Unsupported,
            public_key: Seq::empty(),
            hash_algorithm: HashAlgorithm::Unsupported,
            signature_algorithm: SignatureAlgorithm::Unsupported,
            signature: Seq::empty(),
        },
    }
}

/// What is asked for after the first `i` events of a run.
pub open spec fn asked(
    start: StateView,
    cfg: HandshakeConfig,
    events: Seq<EventView>,
    i: int,
) -> ActionView {
    generate_run(start, cfg, events.take(i)).1->Ask_1
}

/// The private key of the certificate that the first reply brought.
pub open spec fn first_key(events: Seq<EventView>) -> u64 {
    events[0]->Certificate_0->Ok_0.private_key
}

/// Tells whether the events from `i` on sign the handshake: the messages up to
/// the client's key exchange are looked up; a scheme for the key of the chosen
/// certificate is found among the listed ones; and that key signs what was
/// looked up with the messages of this flight behind it.
pub open spec fn signs_at(
    start: StateView,
    cfg: HandshakeConfig,
    events: Seq<EventView>,
    i: int,
) -> bool {
    &&& base(start, cfg) <= i && i + 2 < events.len()
    &&& asked(start, cfg, events, i) == (ActionView::PullAndMerge {
        rules: key_exchange_rules(cfg.initial_epoch),
    })
    &&& events[i] is Merged
    &&& asked(start, cfg, events, i + 1) == (ActionView::SelectSignatureScheme {
        schemes: cfg.local_signature_schemes@,
        private_key: first_key(events),
    })
    &&& events[i + 1] is Scheme && events[i + 1]->Scheme_0 is Ok
    &&& asked(start, cfg, events, i + 2) == (ActionView::GenerateCertificateVerify {
        plain_text: events[i]->Merged_0 + first_written(start, cfg, events),
        private_key: first_key(events),
    })
    &&& events[i + 2] is Data && events[i + 2]->Data_0 is Ok
}

/// The packet in the clear with a message and its number.
spec fn clear_packet(message: HandshakeMessageView, typ: HandshakeType, sequence: int) -> PacketView {
    PacketView {
        protocol_version: 0xfefd,
        epoch: 0,
        content: ContentView::Handshake(
            HandshakeView {
                handshake_header: HandshakeHeader {
                    handshake_type: typ,
                    message_sequence: sequence as u16,
                },
                handshake_message: message,
            },
        ),
        should_encrypt: false,
        reset_local_sequence_number: false,
    }
}

/// The packet with the signature that the events from `i` on brought.
spec fn signature_packet(start: StateView, events: Seq<EventView>, i: int) -> PacketView {
    clear_packet(
        HandshakeMessageView::CertificateVerify {
            hash_algorithm: events[i + 1]->Scheme_0->Ok_0.hash,
            signature_algorithm: events[i + 1]->Scheme_0->Ok_0.signature,
            signature: events[i + 2]->Data_0->Ok_0,
        },
        HandshakeType::CertificateVerify,
        (start.handshake_send_sequence as u16) + 2,
    )
}

/// Tells whether the signature of the events from `i` on stands where it has to.
spec fn is_signed(
    packets: Seq<PacketView>,
    start: StateView,
    cfg: HandshakeConfig,
    events: Seq<EventView>,
    end: StateView,
    i: int,
) -> bool {
    &&& signs_at(start, cfg, events, i)
    &&& packets.len() > 2
    &&& packets[2] == signature_packet(start, events, i)
    &&& end.local_certificates_verify == events[i + 2]->Data_0->Ok_0
}

/// Where the replies stand, by what the flight waits for.
spec fn is_placed(
    step: GenerateStep,
    start: StateView,
    cfg: HandshakeConfig,
    events: Seq<EventView>,
) -> bool {
    let k = lead(cfg);
    let len = events.len() as int;
    let b = base(start, cfg);
    let proves = proves_possession(start, cfg);
    match step.1 {
        StepView::Ask(progress, action) => {
            let draft = progress.draft;
            let n = draft.packets.len() as int;
            match progress.stage {
                GenerateStageView::Certificate => len == 0 && k == 1 && action == (
                ActionView::GetCertificate { server_name: cfg.server_name@ }),
                GenerateStageView::ServerKeyExchange => {
                    len == k && draft.merged == Seq::<u8>::empty()
                },
                GenerateStageView::KeyAgreement => {
                    &&& len == k + 1 && draft.merged == Seq::<u8>::empty()
                    &&& events[k] is Merged && events[k]->Merged_0.len() == 0
                    &&& action == (ActionView::HandleServerKeyExchange {
                        server_key_exchange: share_in(EventView::Proceed),
                    })
                },
                GenerateStageView::Handshake => {
                    &&& len == k + 1 && draft.merged == Seq::<u8>::empty()
                    &&& events[k] is Merged && events[k]->Merged_0.len() > 0
                    &&& action == (ActionView::UnmarshalHandshake { data: events[k]->Merged_0 })
                },
                GenerateStageView::Number => {
                    &&& len == k + 2 + 2 * n && n <= 1
                    &&& draft.server_key_exchange == share_in(events[k + 1])
                    &&& n == 0 ==> draft.merged == Seq::<u8>::empty()
                    &&& n == 1 ==> start.remote_requested_certificate && draft.merged == reply(
                        events,
                        k + 3,
                    )
                },
                GenerateStageView::Marshal => {
                    &&& len == k + 1 + 2 * n && 1 <= n <= 2
                    &&& draft.server_key_exchange == share_in(events[k + 1])
                    &&& n == 1 ==> draft.merged == Seq::<u8>::empty()
                    &&& n == 2 ==> start.remote_requested_certificate && draft.merged == reply(
                        events,
                        k + 3,
                    )
                },
                GenerateStageView::Initialize(inner) => {
                    &&& len >= b
                    &&& draft.merged == first_written(start, cfg, events)
                    &&& is_initialize_placed(inner, action, step.0, start, cfg, events)
                },
                GenerateStageView::VerifyTranscript => {
                    len >= b && draft.merged == first_written(start, cfg, events)
                },
                GenerateStageView::SignatureScheme { plain_text } => {
                    &&& len >= b + 1
                    &&& draft.merged == first_written(start, cfg, events)
                    &&& events[len - 1] is Merged
                    &&& asked(start, cfg, events, len - 1) == (ActionView::PullAndMerge {
                        rules: key_exchange_rules(cfg.initial_epoch),
                    })
                    &&& plain_text == events[len - 1]->Merged_0 + first_written(start, cfg, events)
                },
                GenerateStageView::CertificateVerify { scheme } => {
                    &&& len >= b + 2
                    &&& draft.merged == first_written(start, cfg, events)
                    &&& events[len - 2] is Merged
                    &&& asked(start, cfg, events, len - 2) == (ActionView::PullAndMerge {
                        rules: key_exchange_rules(cfg.initial_epoch),
                    })
                    &&& asked(start, cfg, events, len - 1) == (ActionView::SelectSignatureScheme {
                        schemes: cfg.local_signature_schemes@,
                        private_key: first_key(events),
                    })
                    &&& events[len - 1] == EventView::Scheme(Ok(scheme))
                    &&& action == (ActionView::GenerateCertificateVerify {
                        plain_text: events[len - 2]->Merged_0 + first_written(start, cfg, events),
                        private_key: first_key(events),
                    })
                },
                GenerateStageView::MarshalVerify => {
                    &&& draft.merged == first_written(start, cfg, events)
                    &&& is_signed(draft.packets, start, cfg, events, step.0, len - 3)
                },
                GenerateStageView::Finish => {
                    &&& len >= b
                    &&& if proves {
                        &&& is_signed(draft.packets, start, cfg, events, step.0, len - 4)
                        &&& draft.merged == first_written(start, cfg, events) + reply(
                            events,
                            len - 1,
                        )
                    } else {
                        draft.merged == first_written(start, cfg, events)
                    }
                },
                GenerateStageView::Transcript => {
                    &&& len >= b + 1
                    &&& if proves {
                        &&& is_signed(draft.packets, start, cfg, events, step.0, len - 5)
                        &&& draft.merged == first_written(start, cfg, events) + reply(
                            events,
                            len - 2,
                        )
                    } else {
                        draft.merged == first_written(start, cfg, events)
                    }
                },
            }
        },
        StepView::Done(packets) => {
            let e: int = if start.local_verify_data.len() == 0 {
                1
            } else {
                0
            };
            &&& len >= b + 1 + e
            &&& proves ==> {
                &&& is_signed(packets, start, cfg, events, step.0, len - 5 - e)
                &&& written_bytes(start, cfg, events) == first_written(start, cfg, events) + reply(
                    events,
                    len - 2 - e,
                )
            }
            &&& !proves ==> written_bytes(start, cfg, events) == first_written(start, cfg, events)
        },
        StepView::Fail(_) => true,
    }
}

/// Tells whether the keys of a suite are still to be set.
pub open spec fn must_set_keys(start: StateView) -> bool {
    start.cipher_suite is Some && !start.cipher_suite->0.initialized
}

/// Where the replies to the cipher suite stand.
spec fn is_initialize_placed(
    inner: InitializeProgressView,
    action: ActionView,
    state: StateView,
    start: StateView,
    cfg: HandshakeConfig,
    events: Seq<EventView>,
) -> bool {
    let h = share_in(events[lead(cfg) + 1]);
    let len = events.len() as int;
    let certificate = start.peer_certificates[0];
    &&& start.cipher_suite is Some ==> !start.cipher_suite->0.initialized
    &&& state.cipher_suite == start.cipher_suite
    &&& match inner {
        InitializeProgressView::SessionHash { server_key_exchange, .. } => {
            &&& server_key_exchange == h
            &&& len == base(start, cfg)
            &&& must_set_keys(start) && start.extended_master_secret
            &&& action == (ActionView::SessionHash {
                hash: start.cipher_suite->0.spec_hash_func(),
                epoch: cfg.initial_epoch,
                additional: first_written(start, cfg, events),
            })
        },
        InitializeProgressView::Authenticate { server_key_exchange } => {
            server_key_exchange == h && !cfg.has_local_psk_callback && action is Proceed
        },
        InitializeProgressView::KeySignature { certificate: kept } => {
            &&& !cfg.has_local_psk_callback
            &&& kept == certificate
            &&& exists|i: int|
                0 <= i < cfg.local_signature_schemes@.len() && (
                #[trigger] cfg.local_signature_schemes@[i]).hash == h.hash_algorithm
                    && cfg.local_signature_schemes@[i].signature == h.signature_algorithm
            &&& action == (ActionView::VerifyKeySignature {
                client_random: start.local_random,
                server_random: start.remote_random,
                public_key: h.public_key,
                named_curve: h.named_curve,
                signature: h.signature,
                certificate,
            })
        },
        InitializeProgressView::Chains { certificate: kept } => {
            &&& !cfg.has_local_psk_callback && !cfg.insecure_skip_verify
            &&& kept == certificate
            &&& action == (ActionView::VerifyCert { certificate })
        },
        InitializeProgressView::PeerCertificate => {
            &&& !cfg.has_local_psk_callback && cfg.has_verify_peer_certificate
            &&& !cfg.insecure_skip_verify ==> len > 0 && events[len - 1] is Chains
                && events[len - 1]->Chains_0 is Ok
            &&& action == (ActionView::VerifyPeerCertificate {
                certificate,
                chains: if cfg.insecure_skip_verify {
                    Seq::empty()
                } else {
                    events[len - 1]->Chains_0->Ok_0
                },
            })
        },
        InitializeProgressView::Keys => {
            &&& must_set_keys(start)
            &&& action == (ActionView::InitCipherSuite {
                init: CipherSuiteInitView {
                    suite: start.cipher_suite->0.id,
                    master_secret: state.master_secret,
                    client_random: start.local_random,
                    server_random: start.remote_random,
                    is_client: true,
                },
            })
        },
    }
}

/// The replies that have come stay in their places.
proof fn lemma_front(
    start: StateView,
    cfg: HandshakeConfig,
    events: Seq<EventView>,
    i: int,
)
    requires
        events.len() > 0,
    ensures
        ({
            let front = events.drop_last();
            let len = events.len();
            &&& forall|j: int| 0 <= j < len - 1 ==> #[trigger] events[j] == front[j]
            &&& 0 <= i <= len - 1 ==> events.take(i) == front.take(i)
            &&& 0 <= i <= len - 2 ==> events.take(i + 1) == front.take(i + 1)
            &&& 0 <= i <= len - 3 ==> events.take(i + 2) == front.take(i + 2)
            &&& events.take(len - 1) == front
            &&& len > lead(cfg) + 6 ==> first_written(start, cfg, events) == first_written(
                start,
                cfg,
                front,
            )
            &&& len > lead(cfg) + 4 && !start.remote_requested_certificate ==> first_written(
                start,
                cfg,
                events,
            ) == first_written(start, cfg, front)
        }),
{
    let front = events.drop_last();
    let len = events.len();
    assert(events.take(len - 1) =~= front);
    if 0 <= i <= len - 1 {
        assert(events.take(i) =~= front.take(i));
    }
    if 0 <= i <= len - 2 {
        assert(events.take(i + 1) =~= front.take(i + 1));
    }
    if 0 <= i <= len - 3 {
        assert(events.take(i + 2) =~= front.take(i + 2));
    }
}

/// A signature stays where it is.
proof fn lemma_signed_stays(
    packets: Seq<PacketView>,
    more: Seq<PacketView>,
    start: StateView,
    cfg: HandshakeConfig,
    events: Seq<EventView>,
    before: StateView,
    after: StateView,
    i: int,
)
    requires
        events.len() > 0,
        is_signed(packets, start, cfg, events.drop_last(), before, i),
        more.len() > 2,
        packets[2] == more[2],
        before.local_certificates_verify == after.local_certificates_verify,
    ensures
        is_signed(more, start, cfg, events, after, i),
{
    lemma_front(start, cfg, events, i);
}

/// Every run has its replies in their places.
#[verifier::rlimit(100)]
proof fn lemma_run_is_placed(start: StateView, cfg: HandshakeConfig, events: Seq<EventView>)
    requires
        is_generate_run(start, cfg, events),
    ensures
        is_placed(generate_run(start, cfg, events), start, cfg, events),
    decreases events.len(),
{
    if events.len() > 0 {
        let front = events.drop_last();
        let before = generate_run(start, cfg, front);
        let after = generate_run(start, cfg, events);
        let event = events.last();
        let len = events.len() as int;
        lemma_run_on_course(start, cfg, front);
        lemma_run_on_course(start, cfg, events);
        lemma_run_is_placed(start, cfg, front);
        let progress = before.1->Ask_0;
        let packets = progress.draft.packets;
        assert(progress.awaits(event));
        lemma_front(start, cfg, events, len - 2);
        match progress.stage {
            GenerateStageView::Initialize(inner) => {
                lemma_initialize_placed(start, cfg, events);
            },
            GenerateStageView::Marshal => {
                lemma_first_placed(start, cfg, events);
            },
            GenerateStageView::CertificateVerify { scheme } => {
                lemma_front(start, cfg, events, len - 3);
            },
            GenerateStageView::MarshalVerify => {
                if after.1 is Ask {
                    let more = after.1->Ask_0.draft.packets;
                    lemma_signed_stays(
                        packets,
                        more,
                        start,
                        cfg,
                        events,
                        before.0,
                        after.0,
                        len - 4,
                    );
                }
            },
            GenerateStageView::Finish => {
                let more = match after.1 {
                    StepView::Done(more) => more,
                    StepView::Ask(next, _) => next.draft.packets,
                    _ => packets,
                };
                if proves_possession(start, cfg) {
                    lemma_signed_stays(
                        packets,
                        more,
                        start,
                        cfg,
                        events,
                        before.0,
                        after.0,
                        len - 5,
                    );
                }
            },
            GenerateStageView::Transcript => {
                if proves_possession(start, cfg) {
                    lemma_signed_stays(
                        packets,
                        after.1->Done_0,
                        start,
                        cfg,
                        events,
                        before.0,
                        after.0,
                        len - 6,
                    );
                }
            },
            _ => {},
        }
    }
}

/// As `lemma_run_is_placed`, for a reply to a message of the first ones.
#[verifier::rlimit(60)]
proof fn lemma_first_placed(start: StateView, cfg: HandshakeConfig, events: Seq<EventView>)
    requires
        is_generate_run(start, cfg, events),
        events.len() > 0,
        is_placed(
            generate_run(start, cfg, events.drop_last()),
            start,
            cfg,
            events.drop_last(),
        ),
        generate_run(start, cfg, events.drop_last()).1->Ask_0.stage is Marshal,
    ensures
        is_placed(generate_run(start, cfg, events), start, cfg, events),
{
    let front = events.drop_last();
    let len = events.len() as int;
    lemma_run_on_course(start, cfg, front);
    lemma_front(start, cfg, events, len - 2);
    let h = generate_run(start, cfg, front).1->Ask_0.draft.server_key_exchange;
    law_scheme_is_listed(cfg.local_signature_schemes@, h.hash_algorithm, h.signature_algorithm);
    if events.last()->Data_0 is Ok {
        let merged = generate_run(start, cfg, front).1->Ask_0.draft.merged;
        assert(Seq::<u8>::empty() + events.last()->Data_0->Ok_0 =~= events.last()->Data_0->Ok_0);
    }
}

/// As `lemma_run_is_placed`, for a reply to the cipher suite.
#[verifier::rlimit(60)]
proof fn lemma_initialize_placed(start: StateView, cfg: HandshakeConfig, events: Seq<EventView>)
    requires
        is_generate_run(start, cfg, events),
        events.len() > 0,
        is_placed(
            generate_run(start, cfg, events.drop_last()),
            start,
            cfg,
            events.drop_last(),
        ),
        generate_run(start, cfg, events.drop_last()).1->Ask_0.stage is Initialize,
    ensures
        is_placed(generate_run(start, cfg, events), start, cfg, events),
{
    let front = events.drop_last();
    let len = events.len() as int;
    lemma_run_on_course(start, cfg, front);
    lemma_front(start, cfg, events, len - 2);
    let h = share_in(events[lead(cfg) + 1]);
    law_scheme_is_listed(cfg.local_signature_schemes@, h.hash_algorithm, h.signature_algorithm);
}

/// In every flight that is made the client's share is the message before the
/// signature, if there is one, and before the change of the cipher otherwise.
/// Without a pre-shared key it carries the whole public key of the key pair that
/// the state had at the start, whatever its length, and no hint; with one it
/// carries the whole hint of the settings and no public key.
pub proof fn law_client_share_is_sent(
    start: StateView,
    cfg: HandshakeConfig,
    events: Seq<EventView>,
)
    requires
        is_generate_run(start, cfg, events),
        generate_run(start, cfg, events).1 is Done,
    ensures
        ({
            let packets = generate_run(start, cfg, events).1->Done_0;
            let k: int = if start.remote_requested_certificate {
                1
            } else {
                0
            };
            let first = start.handshake_send_sequence as u16;
            let content = packets[k].content;
            &&& k < packets.len()
            &&& packets[k].protocol_version == 0xfefd
            &&& packets[k].epoch == 0
            &&& !packets[k].should_encrypt
            &&& !packets[k].reset_local_sequence_number
            &&& content is Handshake
            &&& content->Handshake_0.handshake_header.handshake_type is ClientKeyExchange
            &&& content->Handshake_0.handshake_header.message_sequence == (first + k) as u16
            &&& content->Handshake_0.handshake_message is ClientKeyExchange
            &&& !cfg.has_local_psk_callback ==> {
                &&& content->Handshake_0.handshake_message->ClientKeyExchange_identity_hint.len()
                    == 0
                &&& start.local_keypair matches Some(keypair)
                    ==> content->Handshake_0.handshake_message->ClientKeyExchange_public_key
                    == keypair.public_key
                &&& start.local_keypair is None
                    ==> content->Handshake_0.handshake_message->ClientKeyExchange_public_key.len()
                    == 0
            }
            &&& cfg.has_local_psk_callback ==> {
                &&& content->Handshake_0.handshake_message->ClientKeyExchange_identity_hint
                    == cfg.local_psk_identity_hint@
                &&& content->Handshake_0.handshake_message->ClientKeyExchange_public_key.len() == 0
            }
        }),
{
    law_flight_packets(start, cfg, events);
}

/// Where the server asked for a certificate, the flight starts with a message
/// that holds one: the whole certificate that was chosen for this side, or an
/// empty one where there was none to choose.
pub proof fn law_client_certificate_is_sent(
    start: StateView,
    cfg: HandshakeConfig,
    events: Seq<EventView>,
)
    requires
        is_generate_run(start, cfg, events),
        generate_run(start, cfg, events).1 is Done,
        start.remote_requested_certificate,
    ensures
        ({
            let packet = generate_run(start, cfg, events).1->Done_0[0];
            &&& packet == (PacketView {
                protocol_version: 0xfefd,
                epoch: 0,
                content: ContentView::Handshake(
                    HandshakeView {
                        handshake_header: HandshakeHeader {
                            handshake_type: HandshakeType::Certificate,
                            message_sequence: start.handshake_send_sequence as u16,
                        },
                        handshake_message: HandshakeMessageView::Certificate {
                            certificate: seq![
                                if cfg.local_certificates@.len() > 0 {
                                    events[0]->Certificate_0->Ok_0.certificate
                                } else {
                                    Seq::empty()
                                },
                            ],
                        },
                    },
                ),
                should_encrypt: false,
                reset_local_sequence_number: false,
            })
            &&& cfg.local_certificates@.len() > 0 ==> events[0] is Certificate
                && events[0]->Certificate_0 is Ok
        }),
{
    law_flight_packets(start, cfg, events);
    lemma_run_is_placed(start, cfg, events);
    if cfg.local_certificates@.len() > 0 {
        lemma_first_reply(start, cfg, events);
    }
}

/// The first reply of a run in which there are certificates brought one, if the
/// run went on.
proof fn lemma_first_reply(start: StateView, cfg: HandshakeConfig, events: Seq<EventView>)
    requires
        is_generate_run(start, cfg, events),
        generate_run(start, cfg, events).1 !is Fail,
        events.len() > 0,
        cfg.local_certificates@.len() > 0,
    ensures
        events[0] is Certificate,
        events[0]->Certificate_0 is Ok,
    decreases events.len(),
{
    let front = events.drop_last();
    lemma_run_on_course(start, cfg, front);
    if front.len() > 0 {
        lemma_first_reply(start, cfg, front);
        assert(front[0] == events[0]);
    }
}

/// A client that sends a certificate with a private key signs the handshake.
/// With the events from `i` on, the messages up to its key exchange were looked
/// up, a scheme was chosen for the key of the certificate, and that key signed
/// what was looked up with the bytes of the certificate and of the share behind
/// it.  The third packet carries that scheme and that signature.
pub proof fn law_signature_is_sent(start: StateView, cfg: HandshakeConfig, events: Seq<EventView>)
    requires
        is_generate_run(start, cfg, events),
        generate_run(start, cfg, events).1 is Done,
        start.remote_requested_certificate,
        cfg.local_certificates@.len() > 0,
    ensures
        ({
            let i = events.len() - if start.local_verify_data.len() == 0 {
                6int
            } else {
                5int
            };
            let end = generate_run(start, cfg, events);
            &&& 7 <= i && i + 2 < events.len()
            &&& asked(start, cfg, events, i) == (ActionView::PullAndMerge {
                rules: key_exchange_rules(cfg.initial_epoch),
            })
            &&& asked(start, cfg, events, i + 1) == (ActionView::SelectSignatureScheme {
                schemes: cfg.local_signature_schemes@,
                private_key: events[0]->Certificate_0->Ok_0.private_key,
            })
            &&& asked(start, cfg, events, i + 2) == (ActionView::GenerateCertificateVerify {
                plain_text: events[i]->Merged_0 + (events[4]->Data_0->Ok_0
                    + events[6]->Data_0->Ok_0),
                private_key: events[0]->Certificate_0->Ok_0.private_key,
            })
            &&& events[i + 1] is Scheme && events[i + 1]->Scheme_0 is Ok
            &&& events[i + 2] is Data && events[i + 2]->Data_0 is Ok
            &&& end.1->Done_0[2] == (PacketView {
                protocol_version: 0xfefd,
                epoch: 0,
                content: ContentView::Handshake(
                    HandshakeView {
                        handshake_header: HandshakeHeader {
                            handshake_type: HandshakeType::CertificateVerify,
                            message_sequence: ((start.handshake_send_sequence as u16) + 2) as u16,
                        },
                        handshake_message: HandshakeMessageView::CertificateVerify {
                            hash_algorithm: events[i + 1]->Scheme_0->Ok_0.hash,
                            signature_algorithm: events[i + 1]->Scheme_0->Ok_0.signature,
                            signature: events[i + 2]->Data_0->Ok_0,
                        },
                    },
                ),
                should_encrypt: false,
                reset_local_sequence_number: false,
            })
            &&& end.0.local_certificates_verify == events[i + 2]->Data_0->Ok_0
        }),
{
    lemma_run_is_placed(start, cfg, events);
}

/// How many packets a flight has, and how it ends: with the change of the cipher
/// in the clear and, as the first encrypted packet of the next epoch, the
/// Finished message with the verify data that the state keeps.
pub proof fn law_flight_ends_in_finished(
    start: StateView,
    cfg: HandshakeConfig,
    events: Seq<EventView>,
)
    requires
        is_generate_run(start, cfg, events),
        generate_run(start, cfg, events).1 is Done,
    ensures
        ({
            let packets = generate_run(start, cfg, events).1->Done_0;
            let n = packets.len() as int;
            &&& n == if !start.remote_requested_certificate {
                3int
            } else if cfg.local_certificates@.len() > 0 {
                5int
            } else {
                4int
            }
            &&& packets[n - 2] == (PacketView {
                protocol_version: 0xfefd,
                epoch: 0,
                content: ContentView::ChangeCipherSpec,
                should_encrypt: false,
                reset_local_sequence_number: false,
            })
            &&& packets[n - 1] == (PacketView {
                protocol_version: 0xfefd,
                epoch: 1,
                content: ContentView::Handshake(
                    HandshakeView {
                        handshake_header: HandshakeHeader {
                            handshake_type: HandshakeType::Finished,
                            message_sequence: 0,
                        },
                        handshake_message: HandshakeMessageView::Finished {
                            verify_data: generate_run(start, cfg, events).0.local_verify_data,
                        },
                    },
                ),
                should_encrypt: true,
                reset_local_sequence_number: true,
            })
        }),
{
    law_flight_packets(start, cfg, events);
}

/// What may be asked for after `events`: with what, and under which
/// circumstances.
pub open spec fn is_request_in_order(
    step: GenerateStep,
    start: StateView,
    cfg: HandshakeConfig,
    events: Seq<EventView>,
) -> bool {
    let end = step.0;
    let k = lead(cfg);
    let len = events.len() as int;
    let h = share_in(events[k + 1]);
    match step.1->Ask_1 {
        ActionView::Proceed => true,
        ActionView::GetCertificate { server_name } => {
            len == 0 && cfg.local_certificates@.len() > 0 && server_name == cfg.server_name@
        },
        ActionView::FullPullMap { .. } => false,
        ActionView::PullAndMerge { rules } => {
            ||| len == k && rules == server_key_exchange_rules(cfg.initial_epoch)
            ||| len > k && start.remote_requested_certificate
                && cfg.local_certificates@.len() > 0 && rules == key_exchange_rules(
                cfg.initial_epoch,
            )
            ||| len > k && start.local_verify_data.len() == 0 && rules == transcript_rules(
                cfg.initial_epoch,
            )
        },
        ActionView::HandleServerKeyExchange { server_key_exchange } => {
            &&& len == k + 1 && events[k] is Merged && events[k]->Merged_0.len() == 0
            &&& server_key_exchange == (ServerKeyExchangeView {
                identity_hint: Seq::empty(),
                elliptic_curve_type: EllipticCurveType::Unsupported,
                named_curve: NamedCurve::Unsupported,
                public_key: Seq::empty(),
                hash_algorithm: HashAlgorithm::Unsupported,
                signature_algorithm: SignatureAlgorithm::Unsupported,
                signature: Seq::empty(),
            })
        },
        ActionView::UnmarshalHandshake { data } => {
            &&& len == k + 1 && events[k] is Merged && events[k]->Merged_0 == data
            &&& data.len() > 0
        },
        ActionView::MarshalHandshake { handshake } => {
            let packets = step.1->Ask_0.draft.packets;
            &&& packets.len() > 0
            &&& packets.last().content == ContentView::Handshake(handshake)
        },
        ActionView::SessionHash { hash, epoch, additional } => {
            &&& len == base(start, cfg)
            &&& must_set_keys(start) && start.extended_master_secret
            &&& hash == start.cipher_suite->0.spec_hash_func()
            &&& epoch == cfg.initial_epoch
            &&& additional == first_written(start, cfg, events)
        },
        ActionView::VerifyKeySignature {
            client_random,
            server_random,
            public_key,
            named_curve,
            signature,
            certificate,
        } => {
            &&& !cfg.has_local_psk_callback
            &&& start.cipher_suite is Some ==> !start.cipher_suite->0.initialized
            &&& client_random == start.local_random
            &&& server_random == start.remote_random
            &&& public_key == h.public_key
            &&& named_curve == h.named_curve
            &&& signature == h.signature
            &&& certificate == start.peer_certificates[0]
            &&& exists|i: int|
                0 <= i < cfg.local_signature_schemes@.len() && (
                #[trigger] cfg.local_signature_schemes@[i]).hash == h.hash_algorithm
                    && cfg.local_signature_schemes@[i].signature == h.signature_algorithm
        },
        ActionView::VerifyCert { certificate } => {
            &&& !cfg.has_local_psk_callback && !cfg.insecure_skip_verify
            &&& start.cipher_suite is Some ==> !start.cipher_suite->0.initialized
            &&& certificate == start.peer_certificates[0]
        },
        ActionView::VerifyPeerCertificate { certificate, chains } => {
            &&& !cfg.has_local_psk_callback && cfg.has_verify_peer_certificate
            &&& start.cipher_suite is Some ==> !start.cipher_suite->0.initialized
            &&& certificate == start.peer_certificates[0]
            &&& cfg.insecure_skip_verify ==> chains.len() == 0
            &&& !cfg.insecure_skip_verify ==> events[len - 1] == EventView::Chains(
                Ok(chains),
            )
        },
        ActionView::InitCipherSuite { init } => {
            &&& must_set_keys(start)
            &&& init.suite == start.cipher_suite->0.id
            &&& init.master_secret == end.master_secret
            &&& init.client_random == start.local_random
            &&& init.server_random == start.remote_random
            &&& init.is_client
        },
        ActionView::SelectSignatureScheme { schemes, private_key } => {
            &&& start.remote_requested_certificate && cfg.local_certificates@.len() > 0
            &&& schemes == cfg.local_signature_schemes@
            &&& private_key == events[0]->Certificate_0->Ok_0.private_key
        },
        ActionView::GenerateCertificateVerify { plain_text, private_key } => {
            &&& start.remote_requested_certificate && cfg.local_certificates@.len() > 0
            &&& len >= 9
            &&& plain_text == events[len - 2]->Merged_0 + (events[4]->Data_0->Ok_0
                + events[6]->Data_0->Ok_0)
            &&& private_key == events[0]->Certificate_0->Ok_0.private_key
        },
    }
}

/// What holds of the request, by what the flight waits for.
#[verifier::rlimit(100)]
proof fn lemma_request_in_order(
    step: GenerateStep,
    start: StateView,
    cfg: HandshakeConfig,
    events: Seq<EventView>,
    certificate: Option<CertificateView>,
    written: Seq<u8>,
)
    requires
        step.1 is Ask,
        is_on_course(step, start, cfg, certificate, written),
        is_placed(step, start, cfg, events),
        certificate == chosen_certificate(cfg, events),
        cfg.local_certificates@.len() > 0 && events.len() > 0 ==> events[0] is Certificate
            && events[0]->Certificate_0 is Ok,
    ensures
        is_request_in_order(step, start, cfg, events),
{
    match step.1->Ask_0.stage {
        GenerateStageView::Certificate => {},
        GenerateStageView::ServerKeyExchange => {},
        GenerateStageView::KeyAgreement => {},
        GenerateStageView::Handshake => {},
        GenerateStageView::Number => {
            assert(EventView::Proceed.answers(step.1->Ask_1));
        },
        GenerateStageView::Marshal => {},
        GenerateStageView::Initialize(_) => {},
        GenerateStageView::VerifyTranscript => {},
        GenerateStageView::SignatureScheme { .. } => {},
        GenerateStageView::CertificateVerify { .. } => {},
        GenerateStageView::MarshalVerify => {},
        GenerateStageView::Finish => {
            assert(EventView::Proceed.answers(step.1->Ask_1));
        },
        GenerateStageView::Transcript => {},
    }
}

/// Whatever a flight in the making asks for, it asks for in order: with what it
/// is to be asked for, and only under the circumstances that call for it.
pub proof fn law_flight_requests(start: StateView, cfg: HandshakeConfig, events: Seq<EventView>)
    requires
        is_generate_run(start, cfg, events),
        generate_run(start, cfg, events).1 is Ask,
    ensures
        is_request_in_order(generate_run(start, cfg, events), start, cfg, events),
{
    lemma_run_on_course(start, cfg, events);
    lemma_run_is_placed(start, cfg, events);
    if events.len() > 0 && cfg.local_certificates@.len() > 0 {
        lemma_first_reply(start, cfg, events);
    }
    lemma_request_in_order(
        generate_run(start, cfg, events),
        start,
        cfg,
        events,
        chosen_certificate(cfg, events),
        written_bytes(start, cfg, events),
    );
}

/// Why a flight fails, and what is then told the peer and the caller.  Nothing
/// else makes it fail, and the failing step leaves the state as it was.
pub proof fn law_flight_failures(start: StateView, cfg: HandshakeConfig, events: Seq<EventView>)
    requires
        is_generate_run(start, cfg, events),
        generate_run(start, cfg, events).1 is Fail,
    ensures
        events.len() > 0,
        generate_run(start, cfg, events).0 == generate_run(start, cfg, events.drop_last()).0,
        ({
            let failure = generate_run(start, cfg, events).1->Fail_0;
            let h = share_in(events[lead(cfg) + 1]);
            match (generate_run(start, cfg, events.drop_last()).1->Ask_1, events.last()) {
                (
                    ActionView::GetCertificate { .. },
                    EventView::Certificate(Err(err)),
                ) => is_fatal(failure, AlertDescription::HandshakeFailure, err),
                (
                    ActionView::HandleServerKeyExchange { .. },
                    EventView::KeyAgreement(Err(given)),
                ) => failure == given,
                (
                    ActionView::UnmarshalHandshake { .. },
                    EventView::Handshake(Err(err)),
                ) => is_fatal(failure, AlertDescription::UnexpectedMessage, err),
                (ActionView::UnmarshalHandshake { .. }, EventView::Handshake(Ok(found))) => {
                    &&& found.handshake_message !is ServerKeyExchange
                    &&& is_fatal(
                        failure,
                        AlertDescription::UnexpectedMessage,
                        Error::InvalidContentType,
                    )
                },
                (
                    ActionView::MarshalHandshake { .. },
                    EventView::Data(Err(err)),
                ) => is_fatal(failure, AlertDescription::InternalError, err),
                (
                    ActionView::SessionHash { .. },
                    EventView::Data(Err(err)),
                ) => is_fatal(failure, AlertDescription::InternalError, err),
                (ActionView::Proceed, EventView::Proceed) => {
                    &&& !cfg.has_local_psk_callback
                    &&& forall|i: int|
                        0 <= i < cfg.local_signature_schemes@.len() ==> !((
                        #[trigger] cfg.local_signature_schemes@[i]).hash == h.hash_algorithm
                            && cfg.local_signature_schemes@[i].signature == h.signature_algorithm)
                    &&& is_fatal(
                        failure,
                        AlertDescription::InsufficientSecurity,
                        Error::NoAvailableSignatureSchemes,
                    )
                },
                (
                    ActionView::VerifyKeySignature { .. },
                    EventView::Outcome(Err(err)),
                ) => is_fatal(failure, AlertDescription::BadCertificate, err),
                (
                    ActionView::VerifyCert { .. },
                    EventView::Chains(Err(err)),
                ) => is_fatal(failure, AlertDescription::BadCertificate, err),
                (
                    ActionView::VerifyPeerCertificate { .. },
                    EventView::Outcome(Err(err)),
                ) => is_fatal(failure, AlertDescription::BadCertificate, err),
                (
                    ActionView::InitCipherSuite { .. },
                    EventView::Outcome(Err(err)),
                ) => is_fatal(failure, AlertDescription::InternalError, err),
                (
                    ActionView::SelectSignatureScheme { .. },
                    EventView::Scheme(Err(err)),
                ) => is_fatal(failure, AlertDescription::InsufficientSecurity, err),
                (
                    ActionView::GenerateCertificateVerify { .. },
                    EventView::Data(Err(err)),
                ) => is_fatal(failure, AlertDescription::InternalError, err),
                _ => false,
            }
        }),
{
    let front = events.drop_last();
    lemma_run_on_course(start, cfg, front);
    lemma_run_is_placed(start, cfg, front);
    let before = generate_run(start, cfg, front);
    assert(before.1->Ask_0.awaits(events.last()));
    lemma_front(start, cfg, events, 0);
    let h = share_in(events[lead(cfg) + 1]);
    law_scheme_is_listed(cfg.local_signature_schemes@, h.hash_algorithm, h.signature_algorithm);
}

/// Tells whether a failure has a fatal alert with this description, and this error.
pub open spec fn is_fatal(failure: Failure, description: AlertDescription, err: Error) -> bool {
    &&& failure.0 == Some(Alert { alert_level: AlertLevel::Fatal, alert_description: description })
    &&& failure.1 == Some(err)
}

/// A message that is not the server's share ends the flight where the share was
/// to be read.
pub proof fn law_wrong_share_ends_flight(
    start: StateView,
    cfg: HandshakeConfig,
    events: Seq<EventView>,
)
    requires
        is_generate_run(start, cfg, events),
        events.len() > 0,
        generate_run(start, cfg, events.drop_last()).1->Ask_1 is UnmarshalHandshake,
        events.last()->Handshake_0 is Ok,
        events.last()->Handshake_0->Ok_0.handshake_message !is ServerKeyExchange,
    ensures
        generate_run(start, cfg, events).1 is Fail,
{
    lemma_run_on_course(start, cfg, events.drop_last());
}

/// When the next step of a flight can be taken: always, but that the last
/// number cannot be given to a message, that a server with an acceptable scheme
/// must have sent a certificate, and that the verify data that are still to be
/// made need an epoch after the initial one.
pub proof fn law_when_flight_can_go_on(
    progress: GenerateProgressView,
    state: StateView,
    cfg: HandshakeConfig,
)
    ensures
        match progress.stage {
            GenerateStageView::Number => progress.can_resume(state, cfg)
                <==> progress.draft.next_sequence != 65535,
            GenerateStageView::Finish => progress.can_resume(state, cfg)
                <==> state.local_verify_data.len() > 0 || cfg.initial_epoch != 65535,
            GenerateStageView::Initialize(InitializeProgressView::Authenticate {
                server_key_exchange: h,
            }) => progress.can_resume(state, cfg) <==> {
                ||| state.peer_certificates.len() > 0
                ||| forall|i: int|
                    0 <= i < cfg.local_signature_schemes@.len() ==> !((
                    #[trigger] cfg.local_signature_schemes@[i]).hash == h.hash_algorithm
                        && cfg.local_signature_schemes@[i].signature == h.signature_algorithm)
            },
            _ => progress.can_resume(state, cfg),
        },
{
    if let GenerateStageView::Initialize(InitializeProgressView::Authenticate {
        server_key_exchange: h,
    }) = progress.stage {
        law_scheme_is_listed(cfg.local_signature_schemes@, h.hash_algorithm, h.signature_algorithm);
    }
}

/// Which number a message of the flight is about to get.
pub proof fn law_numbers_in_order(start: StateView, cfg: HandshakeConfig, events: Seq<EventView>)
    requires
        is_generate_run(start, cfg, events),
        generate_run(start, cfg, events).1 is Ask,
        generate_run(start, cfg, events).1->Ask_0.stage is Number,
    ensures
        ({
            let draft = generate_run(start, cfg, events).1->Ask_0.draft;
            draft.next_sequence == (start.handshake_send_sequence as u16) + draft.packets.len()
        }),
{
    lemma_run_on_course(start, cfg, events);
}

/// Tells whether the hash of the session is to be made.
pub open spec fn must_hash(start: StateView) -> bool {
    must_set_keys(start) && start.extended_master_secret
}

/// Where the hash of the session stands, by what the flight waits for.
spec fn is_hash_placed(
    step: GenerateStep,
    start: StateView,
    cfg: HandshakeConfig,
    events: Seq<EventView>,
) -> bool {
    let b = base(start, cfg);
    let found = {
        &&& events.len() > b
        &&& events[b] is Data && events[b]->Data_0 is Ok
        &&& session_hash(start, cfg, events) == Some(reply(events, b))
    };
    match step.1 {
        StepView::Ask(progress, _) => match progress.stage {
            GenerateStageView::Initialize(inner) => must_hash(start) && inner !is SessionHash
                ==> found,
            GenerateStageView::VerifyTranscript => must_hash(start) ==> found,
            GenerateStageView::SignatureScheme { .. } => must_hash(start) ==> found,
            GenerateStageView::CertificateVerify { .. } => must_hash(start) ==> found,
            GenerateStageView::MarshalVerify => must_hash(start) ==> found,
            GenerateStageView::Finish => must_hash(start) ==> found,
            GenerateStageView::Transcript => must_hash(start) ==> found,
            _ => step.0.cipher_suite == start.cipher_suite,
        },
        StepView::Done(_) => must_hash(start) ==> found,
        StepView::Fail(_) => true,
    }
}

/// Every run has the hash of the session in its place.
#[verifier::rlimit(100)]
proof fn lemma_hash_is_placed(start: StateView, cfg: HandshakeConfig, events: Seq<EventView>)
    requires
        is_generate_run(start, cfg, events),
    ensures
        is_hash_placed(generate_run(start, cfg, events), start, cfg, events),
    decreases events.len(),
{
    if events.len() > 0 {
        let front = events.drop_last();
        lemma_run_on_course(start, cfg, front);
        lemma_run_is_placed(start, cfg, front);
        lemma_hash_is_placed(start, cfg, front);
        lemma_front(start, cfg, events, 0);
        let before = generate_run(start, cfg, front);
        assert(before.1->Ask_0.awaits(events.last()));
        match before.1->Ask_0.stage {
            GenerateStageView::Initialize(inner) => {
                assert(events[base(start, cfg)] == if front.len() == base(start, cfg) {
                    events.last()
                } else {
                    front[base(start, cfg)]
                });
            },
            _ => {},
        }
    }
}

/// Tells whether `state` holds the master secret of the handshake: where there
/// is no suite or its keys were set before, the one there was at the start;
/// otherwise the 48-byte expansion of the pre-master secret over "master
/// secret", the client's random and the server's, or, where the extended one was
/// agreed on, over "extended master secret" and the session hash in its place
/// among the replies.
pub open spec fn holds_secret(
    state: StateView,
    start: StateView,
    cfg: HandshakeConfig,
    events: Seq<EventView>,
) -> bool {
    let hash = start.cipher_suite->0.spec_hash_func();
    if !must_set_keys(start) {
        state.master_secret == start.master_secret
    } else if start.extended_master_secret {
        &&& base(start, cfg) < events.len()
        &&& events[base(start, cfg)] is Data && events[base(start, cfg)]->Data_0 is Ok
        &&& state.master_secret == p_hash(
            state.pre_master_secret,
            encode_utf8("extended master secret"@) + events[base(start, cfg)]->Data_0->Ok_0,
            48,
            hash,
        )
    } else {
        state.master_secret == p_hash(
            state.pre_master_secret,
            encode_utf8("master secret"@) + start.local_random + start.remote_random,
            48,
            hash,
        )
    }
}

/// A flight that is made, and one that asks for the keys to be set, holds the
/// master secret of the handshake, and the keys are asked for with it.
pub proof fn law_flight_holds_secret(start: StateView, cfg: HandshakeConfig, events: Seq<EventView>)
    requires
        is_generate_run(start, cfg, events),
        generate_run(start, cfg, events).1 is Done || (generate_run(start, cfg, events).1 is Ask
            && generate_run(start, cfg, events).1->Ask_1 is InitCipherSuite),
    ensures
        holds_secret(generate_run(start, cfg, events).0, start, cfg, events),
        generate_run(start, cfg, events).1 is Ask
            ==> generate_run(start, cfg, events).1->Ask_1->init.master_secret == generate_run(
            start,
            cfg,
            events,
        ).0.master_secret,
{
    lemma_hash_is_placed(start, cfg, events);
    if generate_run(start, cfg, events).1 is Done {
        law_flight_master_secret(start, cfg, events);
    } else {
        law_secret_before_keys(start, cfg, events);
        law_flight_requests(start, cfg, events);
        lemma_run_is_placed(start, cfg, events);
        lemma_run_on_course(start, cfg, events);
        let outcome = EventView::Outcome(Ok(()));
        assert(outcome.answers(generate_run(start, cfg, events).1->Ask_1));
        assert(generate_run(start, cfg, events).1->Ask_0.awaits(outcome));
    }
}

/// The verify data that a flight sends: those that were sent before, where there
/// are any; none, where there is no suite; otherwise the 12-byte expansion of
/// the master secret over "client finished" and the hash of the whole handshake:
/// what was looked up last, then the bytes of the certificate, if it was asked
/// for, of the client's share, and of the signature, if there is one.
pub proof fn law_flight_vouches_for_handshake(
    start: StateView,
    cfg: HandshakeConfig,
    events: Seq<EventView>,
)
    requires
        is_generate_run(start, cfg, events),
        generate_run(start, cfg, events).1 is Done,
    ensures
        ({
            let end = generate_run(start, cfg, events).0;
            let len = events.len() as int;
            let signed = start.remote_requested_certificate && cfg.local_certificates@.len() > 0;
            if start.local_verify_data.len() > 0 {
                end.local_verify_data == start.local_verify_data
            } else if start.cipher_suite is None {
                end.local_verify_data.len() == 0
            } else {
                &&& len > 3
                &&& asked(start, cfg, events, len - 1) == (ActionView::PullAndMerge {
                    rules: transcript_rules(cfg.initial_epoch),
                })
                &&& end.local_verify_data == p_hash(
                    end.master_secret,
                    encode_utf8("client finished"@) + sha256_of(
                        events[len - 1]->Merged_0 + if signed {
                            first_written(start, cfg, events) + events[len - 3]->Data_0->Ok_0
                        } else {
                            first_written(start, cfg, events)
                        },
                    ),
                    12,
                    start.cipher_suite->0.spec_hash_func(),
                )
            }
        }),
{
    law_flight_verify_data(start, cfg, events);
    law_flight_settles_only_secrets(start, cfg, events);
    lemma_run_is_placed(start, cfg, events);
    lemma_front(start, cfg, events, 0);
}

/// What the key agreement has left in the state, if it has come.
pub open spec fn has_agreement(
    state: StateView,
    start: StateView,
    cfg: HandshakeConfig,
    events: Seq<EventView>,
) -> bool {
    let k = lead(cfg) + 1;
    if k < events.len() && events[k] is KeyAgreement && events[k]->KeyAgreement_0 is Ok {
        let agreement = events[k]->KeyAgreement_0->Ok_0;
        &&& state.pre_master_secret == agreement.pre_master_secret
        &&& agreement.local_keypair is Some ==> state.local_keypair == agreement.local_keypair
        &&& agreement.local_keypair is None ==> state.local_keypair == start.local_keypair
    } else {
        &&& state.pre_master_secret == start.pre_master_secret
        &&& state.local_keypair == start.local_keypair
    }
}

/// The pre-master secret and the key pair are those of the key agreement, where
/// there was one, and stay as they were where it made none.
#[verifier::rlimit(100)]
pub proof fn law_flight_takes_agreement(
    start: StateView,
    cfg: HandshakeConfig,
    events: Seq<EventView>,
)
    requires
        is_generate_run(start, cfg, events),
    ensures
        has_agreement(generate_run(start, cfg, events).0, start, cfg, events),
    decreases events.len(),
{
    if events.len() > 0 {
        let front = events.drop_last();
        lemma_run_on_course(start, cfg, front);
        lemma_run_is_placed(start, cfg, front);
        law_flight_takes_agreement(start, cfg, front);
        lemma_front(start, cfg, events, 0);
        let before = generate_run(start, cfg, front);
        assert(before.1->Ask_0.awaits(events.last()));
    }
}

/// Where the client signs nothing, the signature in the state stays; and until a
/// flight is made the verify data in the state stay.
#[verifier::rlimit(60)]
pub proof fn law_flight_keeps_what_it_does_not_make(
    start: StateView,
    cfg: HandshakeConfig,
    events: Seq<EventView>,
)
    requires
        is_generate_run(start, cfg, events),
    ensures
        !(start.remote_requested_certificate && cfg.local_certificates@.len() > 0)
            ==> generate_run(start, cfg, events).0.local_certificates_verify
            == start.local_certificates_verify,
        generate_run(start, cfg, events).1 !is Done ==> generate_run(
            start,
            cfg,
            events,
        ).0.local_verify_data == start.local_verify_data,
    decreases events.len(),
{
    lemma_run_on_course(start, cfg, events);
    if events.len() > 0 {
        let front = events.drop_last();
        lemma_run_on_course(start, cfg, front);
        law_flight_keeps_what_it_does_not_make(start, cfg, front);
        let before = generate_run(start, cfg, front);
        assert(before.1->Ask_0.awaits(events.last()));
    }
}

/// A flight that is made has the keys of its suite set, and is otherwise as it
/// was: but for the secrets, the key pair, the signature and the verify data.
pub proof fn law_flight_leaves_the_rest(
    start: StateView,
    cfg: HandshakeConfig,
    events: Seq<EventView>,
)
    requires
        is_generate_run(start, cfg, events),
    ensures
        ({
            let end = generate_run(start, cfg, events).0;
            &&& end.local_epoch == start.local_epoch
            &&& end.remote_epoch == start.remote_epoch
            &&& end.local_sequence_number == start.local_sequence_number
            &&& end.local_random == start.local_random
            &&& end.remote_random == start.remote_random
            &&& end.srtp_protection_profile == start.srtp_protection_profile
            &&& end.peer_certificates == start.peer_certificates
            &&& end.is_client == start.is_client
            &&& end.extended_master_secret == start.extended_master_secret
            &&& end.named_curve == start.named_curve
            &&& end.cookie == start.cookie
            &&& end.handshake_send_sequence == start.handshake_send_sequence
            &&& end.handshake_recv_sequence == start.handshake_recv_sequence
            &&& end.server_name == start.server_name
            &&& end.remote_requested_certificate == start.remote_requested_certificate
            &&& end.local_key_signature == start.local_key_signature
            &&& end.peer_certificates_verified == start.peer_certificates_verified
            &&& end.cipher_suite is Some <==> start.cipher_suite is Some
            &&& end.cipher_suite is Some ==> end.cipher_suite->0.id == start.cipher_suite->0.id
            &&& end.cipher_suite is Some && generate_run(start, cfg, events).1 is Done
                ==> end.cipher_suite->0.initialized
        }),
{
    lemma_run_on_course(start, cfg, events);
}

/// Of the messages that were looked up the first of a kind is taken, and none
/// only where there is none of that kind.
pub proof fn law_first_of_kind(messages: Seq<PulledMessageView>, typ: HandshakeType)
    ensures
        match message_of_type(messages, typ) {
            Some(message) => exists|i: int|
                0 <= i < messages.len() && (#[trigger] messages[i]).typ == typ
                    && messages[i].message == message && forall|j: int|
                    0 <= j < i ==> (#[trigger] messages[j]).typ != typ,
            None => forall|i: int| 0 <= i < messages.len() ==> (#[trigger] messages[i]).typ != typ,
        },
    decreases messages.len(),
{
    if messages.len() > 0 {
        if messages[0].typ == typ {
            assert(messages[0].message == message_of_type(messages, typ)->0);
        } else {
            let rest = messages.drop_first();
            law_first_of_kind(rest, typ);
            if message_of_type(rest, typ) is Some {
                let message = message_of_type(rest, typ)->0;
                let i = choose|i: int|
                    0 <= i < rest.len() && (#[trigger] rest[i]).typ == typ && rest[i].message
                        == message && forall|j: int|
                        0 <= j < i ==> (#[trigger] rest[j]).typ != typ;
                assert(messages[i + 1] == rest[i]);
                assert forall|j: int| 0 <= j < i + 1 implies (#[trigger] messages[j]).typ
                    != typ by {
                    if j > 0 {
                        assert(messages[j] == rest[j - 1]);
                    }
                }
            } else {
                assert forall|i: int| 0 <= i < messages.len() implies (#[trigger] messages[i]).typ
                    != typ by {
                    if i > 0 {
                        assert(messages[i] == rest[i - 1]);
                    }
                }
            }
        }
    }
}

/// How the server's answer is taken.  Its Finished is looked up from the first
/// message on; where the lookup fails nothing is reported; where it brings no
/// Finished an internal error is; and otherwise the whole handshake is looked up
/// and compared with the verify data of the Finished.
pub proof fn law_answer_is_looked_up(
    messages: Result<Seq<PulledMessageView>, Error>,
    state: StateView,
    cfg: HandshakeConfig,
)
    ensures
        parse_begin(cfg) == StepView::<ParseProgressView, Flight5>::Ask(
            ParseProgressView::Finished,
            ActionView::FullPullMap {
                start_sequence: 0,
                rules: server_finished_rules(cfg.initial_epoch),
            },
        ),
        ({
            let second = parse_resume(
                ParseProgressView::Finished,
                EventView::Messages(messages),
                state,
                cfg,
            );
            match messages {
                Err(_) => second == StepView::<ParseProgressView, Flight5>::Fail((None, None)),
                Ok(found) => match message_of_type(found, HandshakeType::Finished) {
                    Some(HandshakeMessageView::Finished { verify_data }) => second
                        == StepView::<ParseProgressView, Flight5>::Ask(
                        ParseProgressView::Transcript { verify_data },
                        ActionView::PullAndMerge { rules: transcript_rules(cfg.initial_epoch) },
                    ),
                    _ => second == StepView::<ParseProgressView, Flight5>::Fail(
                        (
                            Some(
                                Alert {
                                    alert_level: AlertLevel::Fatal,
                                    alert_description: AlertDescription::InternalError,
                                },
                            ),
                            None,
                        ),
                    ),
                },
            }
        }),
{
}

/// With a cipher suite the server's answer is accepted if and only if its verify
/// data are the 12-byte expansion of the master secret over "server finished"
/// and the hash of the whole handshake that was looked up, however long; any
/// other is refused.  Without a suite it is accepted.
pub proof fn law_answer_vouches_for_handshake(
    verify_data: Seq<u8>,
    plain_text: Seq<u8>,
    state: StateView,
    cfg: HandshakeConfig,
)
    ensures
        ({
            let last = parse_resume(
                ParseProgressView::Transcript { verify_data },
                EventView::Merged(plain_text),
                state,
                cfg,
            );
            let right = state.cipher_suite is None || verify_data == p_hash(
                state.master_secret,
                encode_utf8("server finished"@) + sha256_of(plain_text),
                12,
                state.cipher_suite->0.spec_hash_func(),
            );
            &&& last is Done <==> right
            &&& !right ==> last is Fail && is_fatal(
                last->Fail_0,
                AlertDescription::HandshakeFailure,
                Error::VerifyDataMismatch,
            )
        }),
{
}

/// The steps of the server's answer take the replies to what they ask for.
pub proof fn law_answer_takes_replies(event: EventView, verify_data: Seq<u8>)
    ensures
        ParseProgressView::Finished.awaits(event) <==> event is Messages,
        (ParseProgressView::Transcript { verify_data }).awaits(event) <==> event is Merged,
{
}

/// How a flight goes on from a master secret that was derived, and what is
/// reported where it could not be.
pub proof fn law_derived_secret_is_taken(
    state: StateView,
    cfg: HandshakeConfig,
    h: ServerKeyExchangeView,
    derived: Result<Seq<u8>, Error>,
)
    ensures
        ({
            let plain = master_secret_derived(state, cfg, h, derived);
            let extended = extended_master_secret_derived(state, cfg, h, derived);
            match derived {
                Err(err) => {
                    &&& plain.0 == state && plain.1 is Fail
                    &&& is_fatal(plain.1->Fail_0, AlertDescription::InternalError, err)
                    &&& extended.0 == state && extended.1 is Fail
                    &&& is_fatal(extended.1->Fail_0, AlertDescription::IllegalParameter, err)
                },
                Ok(secret) => {
                    &&& plain == extended
                    &&& plain.0 == (StateView { master_secret: secret, ..state })
                    &&& !cfg.has_local_psk_callback ==> plain.1 == StepView::<
                        InitializeProgressView,
                        (),
                    >::Ask(
                        InitializeProgressView::Authenticate { server_key_exchange: h },
                        ActionView::Proceed,
                    )
                    &&& cfg.has_local_psk_callback && state.cipher_suite is None ==> plain.1 is Done
                    &&& cfg.has_local_psk_callback && state.cipher_suite is Some ==> plain.1
                        == StepView::<InitializeProgressView, ()>::Ask(
                        InitializeProgressView::Keys,
                        ActionView::InitCipherSuite {
                            init: CipherSuiteInitView {
                                suite: state.cipher_suite->0.id,
                                master_secret: secret,
                                client_random: state.local_random,
                                server_random: state.remote_random,
                                is_client: true,
                            },
                        },
                    )
                },
            }
        }),
{
}

} // verus!
