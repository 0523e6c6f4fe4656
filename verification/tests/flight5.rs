//! Flight 5, step by step.

use dtls::alert::{Alert, AlertDescription, AlertLevel};
use dtls::cipher_suite::{cipher_suite_for_id, CipherSuiteHash};
use dtls::config::{Certificate, HandshakeConfig};
use dtls::curve::{EllipticCurveType, NamedCurve, NamedCurveKeypair};
use dtls::error::Error;
use dtls::flight::flight5::generate::{install_verify_data, GenerateProgress};
use dtls::flight::flight5::initialize::{
    go_on_with_derived_secret, go_on_with_extended_secret, initalize_cipher_suite,
    resume_initalize_cipher_suite, InitializeProgress,
};
use dtls::flight::flight5::parse::{check_verify_data, ParseProgress};
use dtls::flight::flight5::Flight5;
use dtls::flight::{
    Action, Event, Failure, HandshakeCachePullRule, KeyAgreement, PulledMessage, Step,
};
use dtls::handshake::handshake_random::HandshakeRandom;
use dtls::handshake::{
    Handshake, HandshakeHeader, HandshakeMessage, HandshakeMessageCertificate,
    HandshakeMessageCertificateVerify, HandshakeMessageClientKeyExchange, HandshakeMessageFinished,
    HandshakeMessageServerKeyExchange, HandshakeType,
};
use dtls::prf::{
    prf_extended_master_secret, prf_master_secret, prf_verify_data_client, prf_verify_data_server,
};
use dtls::record_layer::{Content, Packet, RecordLayer, PROTOCOL_VERSION1_2};
use dtls::signature_hash_algorithm::{HashAlgorithm, SignatureAlgorithm, SignatureHashAlgorithm};
use dtls::state::{CipherSuiteInit, State};

const ECDSA: SignatureHashAlgorithm = SignatureHashAlgorithm {
    hash: HashAlgorithm::Sha256,
    signature: SignatureAlgorithm::Ecdsa,
};

fn sample_state() -> State {
    let mut state = State::default();
    state.local_random = HandshakeRandom {
        gmt_unix_time: 0x01020304,
        random_bytes: [0x11; 28],
    };
    state.remote_random = HandshakeRandom {
        gmt_unix_time: 0x05060708,
        random_bytes: [0x22; 28],
    };
    state.is_client = true;
    state.cipher_suite = cipher_suite_for_id(0xc02b).ok();
    state.pre_master_secret = vec![5; 32];
    state.peer_certificates = vec![vec![0x51], vec![0x52]];
    state.local_keypair = Some(NamedCurveKeypair {
        curve: NamedCurve::P256,
        public_key: vec![0x61, 0x62],
        private_key: 3,
    });
    state.handshake_send_sequence = 4;
    state.remote_requested_certificate = true;
    state
}

fn sample_config() -> HandshakeConfig {
    HandshakeConfig {
        has_local_psk_callback: false,
        local_psk_identity_hint: vec![0x71],
        local_signature_schemes: vec![
            SignatureHashAlgorithm {
                hash: HashAlgorithm::Sha512,
                signature: SignatureAlgorithm::Rsa,
            },
            ECDSA,
        ],
        server_name: String::from("example.org"),
        local_certificates: vec![Certificate {
            certificate: vec![0x81],
            private_key: 9,
        }],
        insecure_skip_verify: false,
        has_verify_peer_certificate: true,
        initial_epoch: 0,
    }
}

fn server_share() -> HandshakeMessageServerKeyExchange {
    HandshakeMessageServerKeyExchange {
        identity_hint: vec![],
        elliptic_curve_type: EllipticCurveType::NamedCurve,
        named_curve: NamedCurve::X25519,
        public_key: vec![0x91, 0x92],
        hash_algorithm: HashAlgorithm::Sha256,
        signature_algorithm: SignatureAlgorithm::Ecdsa,
        signature: vec![0x93],
    }
}

fn rule(typ: HandshakeType, epoch: u16, is_client: bool) -> HandshakeCachePullRule {
    HandshakeCachePullRule {
        typ,
        epoch,
        is_client,
        optional: false,
    }
}

fn rules_up_to_key_exchange(epoch: u16) -> Vec<HandshakeCachePullRule> {
    vec![
        rule(HandshakeType::ClientHello, epoch, true),
        rule(HandshakeType::ServerHello, epoch, false),
        rule(HandshakeType::Certificate, epoch, false),
        rule(HandshakeType::ServerKeyExchange, epoch, false),
        rule(HandshakeType::CertificateRequest, epoch, false),
        rule(HandshakeType::ServerHelloDone, epoch, false),
        rule(HandshakeType::Certificate, epoch, true),
        rule(HandshakeType::ClientKeyExchange, epoch, true),
    ]
}

fn rules_up_to_finished(epoch: u16) -> Vec<HandshakeCachePullRule> {
    let mut rules = rules_up_to_key_exchange(epoch);
    rules.push(rule(HandshakeType::CertificateVerify, epoch, true));
    rules.push(rule(HandshakeType::Finished, epoch + 1, true));
    rules
}

fn handshake(message: HandshakeMessage, message_sequence: u16) -> Handshake {
    Handshake {
        handshake_header: HandshakeHeader {
            handshake_type: message.handshake_type(),
            message_sequence,
        },
        handshake_message: message,
    }
}

fn plain(content: Content) -> Packet {
    Packet {
        record: RecordLayer {
            protocol_version: PROTOCOL_VERSION1_2,
            epoch: 0,
            content,
        },
        should_encrypt: false,
        reset_local_sequence_number: false,
    }
}

fn finished(verify_data: Vec<u8>) -> Packet {
    Packet {
        record: RecordLayer {
            protocol_version: PROTOCOL_VERSION1_2,
            epoch: 1,
            content: Content::Handshake(handshake(
                HandshakeMessage::Finished(HandshakeMessageFinished { verify_data }),
                0,
            )),
        },
        should_encrypt: true,
        reset_local_sequence_number: true,
    }
}

fn client_certificate(certificate: Vec<u8>) -> HandshakeMessage {
    HandshakeMessage::Certificate(HandshakeMessageCertificate {
        certificate: vec![certificate],
    })
}

fn client_share(identity_hint: Vec<u8>, public_key: Vec<u8>) -> HandshakeMessage {
    HandshakeMessage::ClientKeyExchange(HandshakeMessageClientKeyExchange {
        identity_hint,
        public_key,
    })
}

fn certificate_verify(signature: Vec<u8>) -> HandshakeMessage {
    HandshakeMessage::CertificateVerify(HandshakeMessageCertificateVerify {
        hash_algorithm: HashAlgorithm::Sha256,
        signature_algorithm: SignatureAlgorithm::Ecdsa,
        signature,
    })
}

fn init_action(state: &State) -> Action {
    Action::InitCipherSuite {
        init: CipherSuiteInit {
            suite: state.cipher_suite.unwrap().id,
            master_secret: state.master_secret.clone(),
            client_random: state.local_random.to_array().to_vec(),
            server_random: state.remote_random.to_array().to_vec(),
            is_client: true,
        },
    }
}

/// Makes the flight with the given replies, and lists what was asked for.
fn run(
    state: &mut State,
    cfg: &HandshakeConfig,
    events: Vec<Event>,
) -> (Vec<Action>, Step<GenerateProgress, Vec<Packet>>) {
    let mut actions: Vec<Action> = vec![];
    let mut step = Flight5.generate(state, cfg);
    for event in events {
        match step {
            Step::Ask(progress, action) => {
                actions.push(action);
                assert!(progress.can_resume(state, cfg));
                step = Flight5.resume_generate(progress, event, state, cfg);
            }
            _ => panic!("the flight ended early"),
        }
    }
    (actions, step)
}

fn failure(step: Step<GenerateProgress, Vec<Packet>>) -> Failure {
    match step {
        Step::Fail(failure) => failure,
        _ => panic!("the flight did not fail"),
    }
}

fn assert_fatal(failure: &Failure, alert_description: AlertDescription) {
    assert_eq!(
        failure.0,
        Some(Alert {
            alert_level: AlertLevel::Fatal,
            alert_description,
        })
    );
}

fn other() -> Error {
    Error::Other(String::from("no"))
}

/// Asserts that a flight fails with the given alert and the error of the reply.
fn assert_refused(step: Step<GenerateProgress, Vec<Packet>>, alert: AlertDescription) {
    let failure = failure(step);
    assert_fatal(&failure, alert);
    assert!(matches!(failure.1, Some(Error::Other(text)) if text == "no"));
}

fn chosen() -> Event {
    Event::Certificate(Ok(Certificate {
        certificate: vec![0x82, 0x83],
        private_key: 10,
    }))
}

fn share_read() -> Event {
    Event::Handshake(Ok(handshake(
        HandshakeMessage::ServerKeyExchange(server_share()),
        0,
    )))
}

/// The replies up to the one that authenticates the server by its signature.
fn up_to_signature() -> Vec<Event> {
    vec![
        chosen(),
        Event::Merged(vec![0xaa]),
        share_read(),
        Event::Proceed,
        Event::Data(Ok(vec![0xc0, 0xc1])),
        Event::Proceed,
        Event::Data(Ok(vec![0xd0])),
        Event::Proceed,
    ]
}

/// The replies up to the keys being set.
fn up_to_keys() -> Vec<Event> {
    let mut events = up_to_signature();
    events.push(Event::Outcome(Ok(())));
    events.push(Event::Chains(Ok(vec![vec![0x31], vec![0x32]])));
    events.push(Event::Outcome(Ok(())));
    events
}

/// The replies up to the message with the signature being written.
fn up_to_verify() -> Vec<Event> {
    let mut events = up_to_keys();
    events.push(Event::Outcome(Ok(())));
    events.push(Event::Merged(vec![0x41]));
    events.push(Event::Scheme(Ok(ECDSA)));
    events.push(Event::Data(Ok(vec![0x42, 0x43])));
    events
}

#[test]
fn the_flight_has_its_name_and_is_the_last() {
    assert_eq!(Flight5.to_string(), "Flight5");
    assert!(Flight5.is_last_recv_flight());
}

#[test]
fn a_whole_flight_is_made() {
    let mut state = sample_state();
    let cfg = sample_config();
    let mut events = up_to_verify();
    events.push(Event::Data(Ok(vec![0xe0])));
    events.push(Event::Proceed);
    events.push(Event::Merged(vec![1, 2]));
    let (actions, step) = run(&mut state, &cfg, events);

    let local_random = state.local_random.to_array().to_vec();
    let remote_random = state.remote_random.to_array().to_vec();
    let certificate = handshake(client_certificate(vec![0x82, 0x83]), 4);
    let share = handshake(client_share(vec![], vec![0x61, 0x62]), 5);
    let verify = handshake(certificate_verify(vec![0x42, 0x43]), 6);
    assert_eq!(
        actions,
        vec![
            Action::GetCertificate {
                server_name: String::from("example.org"),
            },
            Action::PullAndMerge {
                rules: vec![rule(HandshakeType::ServerKeyExchange, 0, false)],
            },
            Action::UnmarshalHandshake { data: vec![0xaa] },
            Action::Proceed,
            Action::MarshalHandshake {
                handshake: certificate.clone(),
            },
            Action::Proceed,
            Action::MarshalHandshake {
                handshake: share.clone(),
            },
            Action::Proceed,
            Action::VerifyKeySignature {
                client_random: local_random.clone(),
                server_random: remote_random.clone(),
                public_key: vec![0x91, 0x92],
                named_curve: NamedCurve::X25519,
                signature: vec![0x93],
                certificate: vec![0x51],
            },
            Action::VerifyCert {
                certificate: vec![0x51],
            },
            Action::VerifyPeerCertificate {
                certificate: vec![0x51],
                chains: vec![vec![0x31], vec![0x32]],
            },
            init_action(&state),
            Action::PullAndMerge {
                rules: rules_up_to_key_exchange(0),
            },
            Action::SelectSignatureScheme {
                schemes: cfg.local_signature_schemes.clone(),
                private_key: 10,
            },
            Action::GenerateCertificateVerify {
                plain_text: vec![0x41, 0xc0, 0xc1, 0xd0],
                private_key: 10,
            },
            Action::MarshalHandshake {
                handshake: verify.clone(),
            },
            Action::Proceed,
            Action::PullAndMerge {
                rules: rules_up_to_finished(0),
            },
        ]
    );

    let master_secret = prf_master_secret(
        &[5; 32],
        &local_random,
        &remote_random,
        CipherSuiteHash::Sha256,
    )
    .unwrap();
    let verify_data: Vec<u8> = vec![
        0x6b, 0x37, 0xff, 0x9f, 0x23, 0xd7, 0xee, 0x5e, 0x28, 0x84, 0x6f, 0x07,
    ];
    assert_eq!(state.master_secret, master_secret);
    assert_eq!(state.local_certificates_verify, vec![0x42, 0x43]);
    assert_eq!(state.local_verify_data, verify_data);
    assert!(state.cipher_suite.unwrap().initialized);
    match step {
        Step::Done(packets) => assert_eq!(
            packets,
            vec![
                plain(Content::Handshake(certificate)),
                plain(Content::Handshake(share)),
                plain(Content::Handshake(verify)),
                plain(Content::ChangeCipherSpec),
                finished(verify_data),
            ]
        ),
        _ => panic!("the flight was not made"),
    }
}

#[test]
fn the_longest_flight_takes_nineteen_replies() {
    let mut state = sample_state();
    state.extended_master_secret = true;
    let cfg = sample_config();
    let mut events = vec![
        chosen(),
        Event::Merged(vec![]),
        Event::KeyAgreement(Ok(KeyAgreement {
            pre_master_secret: vec![5; 32],
            local_keypair: None,
        })),
        Event::Proceed,
        Event::Data(Ok(vec![0xc0])),
        Event::Proceed,
        Event::Data(Ok(vec![0xd0])),
        Event::Data(Ok(vec![0xaa; 32])),
        Event::Proceed,
        Event::Outcome(Ok(())),
        Event::Chains(Ok(vec![])),
        Event::Outcome(Ok(())),
        Event::Outcome(Ok(())),
        Event::Merged(vec![]),
        Event::Scheme(Ok(ECDSA)),
        Event::Data(Ok(vec![0x42])),
        Event::Data(Ok(vec![0xe0])),
        Event::Proceed,
        Event::Merged(vec![]),
    ];
    assert_eq!(events.len(), 19);
    let last = events.pop().unwrap();
    // Without a share of the server its scheme is listed only as unsupported.
    let mut cfg_listing_none = cfg;
    cfg_listing_none
        .local_signature_schemes
        .push(SignatureHashAlgorithm {
            hash: HashAlgorithm::Unsupported,
            signature: SignatureAlgorithm::Unsupported,
        });
    let (actions, step) = run(&mut state, &cfg_listing_none, events);
    assert_eq!(actions.len(), 18);
    match step {
        Step::Ask(progress, Action::PullAndMerge { .. }) => {
            let step = Flight5.resume_generate(progress, last, &mut state, &cfg_listing_none);
            assert!(matches!(step, Step::Done(packets) if packets.len() == 5));
        }
        _ => panic!("the flight ended early"),
    }
    let expected = prf_extended_master_secret(&[5; 32], &[0xaa; 32], CipherSuiteHash::Sha256);
    assert_eq!(state.master_secret, expected.unwrap());
}

#[test]
fn a_flight_settles_only_secrets() {
    let mut state = sample_state();
    state.cookie = vec![0x0c];
    state.server_name = String::from("name");
    state.local_epoch = 3;
    state.local_key_signature = vec![0x0d];
    let mut events = up_to_verify();
    events.push(Event::Data(Ok(vec![0xe0])));
    events.push(Event::Proceed);
    events.push(Event::Merged(vec![1, 2]));
    let (_, step) = run(&mut state, &sample_config(), events);
    assert!(matches!(step, Step::Done(_)));
    let start = sample_state();
    assert_eq!(state.local_epoch, 3);
    assert_eq!(state.remote_epoch, start.remote_epoch);
    assert_eq!(state.local_sequence_number, start.local_sequence_number);
    assert_eq!(state.local_random, start.local_random);
    assert_eq!(state.remote_random, start.remote_random);
    assert_eq!(state.srtp_protection_profile, start.srtp_protection_profile);
    assert_eq!(state.peer_certificates, start.peer_certificates);
    assert_eq!(state.is_client, start.is_client);
    assert_eq!(state.extended_master_secret, start.extended_master_secret);
    assert_eq!(state.named_curve, start.named_curve);
    assert_eq!(state.cookie, vec![0x0c]);
    assert_eq!(state.handshake_send_sequence, start.handshake_send_sequence);
    assert_eq!(state.handshake_recv_sequence, start.handshake_recv_sequence);
    assert_eq!(state.server_name, "name");
    assert!(state.remote_requested_certificate);
    assert_eq!(state.local_key_signature, vec![0x0d]);
    assert!(!state.peer_certificates_verified);
    assert_eq!(
        state.cipher_suite.unwrap().id,
        start.cipher_suite.unwrap().id
    );
}

#[test]
fn a_flight_with_a_pre_shared_key_is_made() {
    let mut state = sample_state();
    state.remote_requested_certificate = false;
    state.extended_master_secret = true;
    state.peer_certificates = vec![];
    let mut cfg = sample_config();
    cfg.has_local_psk_callback = true;
    cfg.local_certificates = vec![];
    cfg.initial_epoch = 6;
    let events = vec![
        Event::Merged(vec![]),
        Event::KeyAgreement(Ok(KeyAgreement {
            pre_master_secret: vec![5; 32],
            local_keypair: None,
        })),
        Event::Proceed,
        Event::Data(Ok(vec![0xd0])),
        Event::Data(Ok(vec![0xaa; 32])),
        Event::Outcome(Ok(())),
        Event::Proceed,
        Event::Merged(vec![1, 2]),
    ];
    state.pre_master_secret = vec![];
    let (actions, step) = run(&mut state, &cfg, events);

    let share = handshake(client_share(vec![0x71], vec![]), 4);
    assert_eq!(
        actions,
        vec![
            Action::PullAndMerge {
                rules: vec![rule(HandshakeType::ServerKeyExchange, 6, false)],
            },
            Action::HandleServerKeyExchange {
                server_key_exchange: HandshakeMessageServerKeyExchange {
                    identity_hint: vec![],
                    elliptic_curve_type: EllipticCurveType::Unsupported,
                    named_curve: NamedCurve::Unsupported,
                    public_key: vec![],
                    hash_algorithm: HashAlgorithm::Unsupported,
                    signature_algorithm: SignatureAlgorithm::Unsupported,
                    signature: vec![],
                },
            },
            Action::Proceed,
            Action::MarshalHandshake {
                handshake: share.clone(),
            },
            Action::SessionHash {
                hash: CipherSuiteHash::Sha256,
                epoch: 6,
                additional: vec![0xd0],
            },
            init_action(&state),
            Action::Proceed,
            Action::PullAndMerge {
                rules: rules_up_to_finished(6),
            },
        ]
    );
    assert_eq!(state.local_keypair, sample_state().local_keypair);
    assert_eq!(state.pre_master_secret, vec![5; 32]);
    let verify_data: Vec<u8> = vec![
        0xee, 0xcb, 0x20, 0x08, 0x87, 0x47, 0x4d, 0x01, 0xd7, 0x97, 0x58, 0xa6,
    ];
    match step {
        Step::Done(packets) => assert_eq!(
            packets,
            vec![
                plain(Content::Handshake(share)),
                plain(Content::ChangeCipherSpec),
                finished(verify_data),
            ]
        ),
        _ => panic!("the flight was not made"),
    }
}

#[test]
fn a_flight_is_sent_again_as_it_was() {
    let mut state = sample_state();
    state.remote_requested_certificate = false;
    state.local_verify_data = vec![0xf0];
    state.master_secret = vec![0xf1];
    state.cipher_suite_initialized(Ok(())).unwrap();
    let mut cfg = sample_config();
    cfg.initial_epoch = u16::MAX;
    let events = vec![
        chosen(),
        Event::Merged(vec![0xaa]),
        share_read(),
        Event::Proceed,
        Event::Data(Ok(vec![0xd0])),
        Event::Proceed,
    ];
    let (_, step) = run(&mut state, &cfg, events);
    assert_eq!(state.master_secret, vec![0xf1]);
    assert_eq!(state.local_verify_data, vec![0xf0]);
    match step {
        Step::Done(packets) => assert_eq!(
            packets,
            vec![
                plain(Content::Handshake(handshake(
                    client_share(vec![], vec![0x61, 0x62]),
                    4
                ))),
                plain(Content::ChangeCipherSpec),
                finished(vec![0xf0]),
            ]
        ),
        _ => panic!("the flight was not made"),
    }
}

#[test]
fn without_a_suite_and_a_certificate_the_flight_is_bare() {
    let mut state = sample_state();
    state.cipher_suite = None;
    state.local_keypair = None;
    let mut cfg = sample_config();
    cfg.local_certificates = vec![];
    cfg.insecure_skip_verify = true;
    cfg.has_verify_peer_certificate = false;
    let events = vec![
        Event::Merged(vec![0xaa]),
        share_read(),
        Event::Proceed,
        Event::Data(Ok(vec![0xc0])),
        Event::Proceed,
        Event::Data(Ok(vec![0xd0])),
        Event::Proceed,
        Event::Outcome(Ok(())),
        Event::Proceed,
        Event::Merged(vec![1]),
    ];
    let (_, step) = run(&mut state, &cfg, events);
    assert!(state.master_secret.is_empty());
    match step {
        Step::Done(packets) => assert_eq!(
            packets,
            vec![
                plain(Content::Handshake(handshake(client_certificate(vec![]), 4))),
                plain(Content::Handshake(handshake(client_share(vec![], vec![]), 5))),
                plain(Content::ChangeCipherSpec),
                finished(vec![]),
            ]
        ),
        _ => panic!("the flight was not made"),
    }
}

#[test]
fn without_checks_of_the_certificate_the_application_sees_no_chains() {
    let mut state = sample_state();
    let mut cfg = sample_config();
    cfg.insecure_skip_verify = true;
    let mut events = up_to_signature();
    events.push(Event::Outcome(Ok(())));
    let (_, step) = run(&mut state, &cfg, events);
    assert!(matches!(
        step,
        Step::Ask(_, Action::VerifyPeerCertificate { certificate, chains })
            if certificate == vec![0x51] && chains.is_empty()
    ));
}

#[test]
fn a_missing_certificate_of_this_side_fails_the_handshake() {
    let (_, step) = run(
        &mut sample_state(),
        &sample_config(),
        vec![Event::Certificate(Err(other()))],
    );
    assert_refused(step, AlertDescription::HandshakeFailure);
}

#[test]
fn a_failed_key_agreement_is_passed_on() {
    let mut state = sample_state();
    let (_, step) = run(
        &mut state,
        &sample_config(),
        vec![
            chosen(),
            Event::Merged(vec![]),
            Event::KeyAgreement(Err((None, Some(other())))),
        ],
    );
    let failure = failure(step);
    assert_eq!(failure.0, None);
    assert!(matches!(failure.1, Some(Error::Other(_))));
    assert_eq!(state.pre_master_secret, vec![5; 32]);
}

#[test]
fn a_key_pair_made_for_the_agreement_is_kept() {
    let mut state = sample_state();
    let keypair = NamedCurveKeypair {
        curve: NamedCurve::X25519,
        public_key: vec![0x63],
        private_key: 4,
    };
    let (_, step) = run(
        &mut state,
        &sample_config(),
        vec![
            chosen(),
            Event::Merged(vec![]),
            Event::KeyAgreement(Ok(KeyAgreement {
                pre_master_secret: vec![6],
                local_keypair: Some(keypair),
            })),
            Event::Proceed,
            Event::Data(Ok(vec![])),
            Event::Proceed,
        ],
    );
    assert_eq!(state.pre_master_secret, vec![6]);
    assert_eq!(state.local_keypair.unwrap().public_key, vec![0x63]);
    // The share that is sent was made before.
    assert!(matches!(
        step,
        Step::Ask(_, Action::MarshalHandshake { handshake })
            if handshake.handshake_message == client_share(vec![], vec![0x61, 0x62])
    ));
}

#[test]
fn an_unreadable_share_is_unexpected() {
    let (_, step) = run(
        &mut sample_state(),
        &sample_config(),
        vec![
            chosen(),
            Event::Merged(vec![1]),
            Event::Handshake(Err(other())),
        ],
    );
    assert_refused(step, AlertDescription::UnexpectedMessage);
}

#[test]
fn another_message_than_the_share_is_unexpected() {
    let (_, step) = run(
        &mut sample_state(),
        &sample_config(),
        vec![
            chosen(),
            Event::Merged(vec![1]),
            Event::Handshake(Ok(handshake(
                HandshakeMessage::Other(HandshakeType::ServerHelloDone),
                0,
            ))),
        ],
    );
    let failure = failure(step);
    assert_fatal(&failure, AlertDescription::UnexpectedMessage);
    assert!(matches!(failure.1, Some(Error::InvalidContentType)));
}

#[test]
fn a_message_that_cannot_be_written_is_an_internal_error() {
    let (_, step) = run(
        &mut sample_state(),
        &sample_config(),
        vec![
            chosen(),
            Event::Merged(vec![1]),
            share_read(),
            Event::Proceed,
            Event::Data(Err(other())),
        ],
    );
    assert_refused(step, AlertDescription::InternalError);
}

#[test]
fn a_missing_session_hash_is_an_internal_error() {
    let mut state = sample_state();
    state.extended_master_secret = true;
    let mut events = up_to_signature();
    events.pop();
    events.push(Event::Data(Err(other())));
    let (_, step) = run(&mut state, &sample_config(), events);
    assert_refused(step, AlertDescription::InternalError);
    assert!(state.master_secret.is_empty());
}

#[test]
fn a_scheme_that_is_not_listed_is_insecure() {
    let mut state = sample_state();
    state.peer_certificates = vec![];
    let mut cfg = sample_config();
    cfg.local_signature_schemes = vec![
        SignatureHashAlgorithm {
            hash: HashAlgorithm::Sha256,
            signature: SignatureAlgorithm::Rsa,
        },
        SignatureHashAlgorithm {
            hash: HashAlgorithm::Sha384,
            signature: SignatureAlgorithm::Ecdsa,
        },
    ];
    let (_, step) = run(&mut state, &cfg, up_to_signature());
    let failure = failure(step);
    assert_fatal(&failure, AlertDescription::InsufficientSecurity);
    assert!(matches!(
        failure.1,
        Some(Error::NoAvailableSignatureSchemes)
    ));
}

#[test]
fn a_server_that_fails_a_check_has_a_bad_certificate() {
    let mut events = up_to_signature();
    events.push(Event::Outcome(Err(other())));
    let (_, step) = run(&mut sample_state(), &sample_config(), events);
    assert_refused(step, AlertDescription::BadCertificate);

    let mut events = up_to_signature();
    events.push(Event::Outcome(Ok(())));
    events.push(Event::Chains(Err(other())));
    let (_, step) = run(&mut sample_state(), &sample_config(), events);
    assert_refused(step, AlertDescription::BadCertificate);

    let mut events = up_to_signature();
    events.push(Event::Outcome(Ok(())));
    events.push(Event::Chains(Ok(vec![])));
    events.push(Event::Outcome(Err(other())));
    let (_, step) = run(&mut sample_state(), &sample_config(), events);
    assert_refused(step, AlertDescription::BadCertificate);
}

#[test]
fn keys_that_cannot_be_set_are_an_internal_error() {
    let mut state = sample_state();
    let mut events = up_to_keys();
    events.push(Event::Outcome(Err(other())));
    let (_, step) = run(&mut state, &sample_config(), events);
    assert_refused(step, AlertDescription::InternalError);
    assert!(!state.cipher_suite.unwrap().initialized);
}

#[test]
fn a_key_without_a_scheme_is_insecure() {
    let mut events = up_to_keys();
    events.push(Event::Outcome(Ok(())));
    events.push(Event::Merged(vec![]));
    events.push(Event::Scheme(Err(other())));
    let (_, step) = run(&mut sample_state(), &sample_config(), events);
    assert_refused(step, AlertDescription::InsufficientSecurity);
}

#[test]
fn a_missing_signature_is_an_internal_error() {
    let mut state = sample_state();
    let mut events = up_to_verify();
    events.pop();
    events.push(Event::Data(Err(other())));
    let (_, step) = run(&mut state, &sample_config(), events);
    assert_refused(step, AlertDescription::InternalError);
    assert!(state.local_certificates_verify.is_empty());
}

#[test]
fn a_signature_that_cannot_be_written_is_an_internal_error() {
    let mut events = up_to_verify();
    events.push(Event::Data(Err(other())));
    let (_, step) = run(&mut sample_state(), &sample_config(), events);
    assert_refused(step, AlertDescription::InternalError);
}

#[test]
fn the_last_number_cannot_be_given() {
    let cfg = sample_config();
    for (sequence, possible) in [(65534, true), (65535, false), (65536, true), (-1, false)] {
        let mut state = sample_state();
        state.handshake_send_sequence = sequence;
        let (_, step) = run(
            &mut state,
            &cfg,
            vec![chosen(), Event::Merged(vec![1]), share_read()],
        );
        match step {
            Step::Ask(progress, Action::Proceed) => {
                assert_eq!(progress.can_resume(&state, &cfg), possible);
            }
            _ => panic!("the first message is not numbered"),
        }
    }
}

#[test]
fn a_server_without_a_certificate_cannot_be_authenticated() {
    let mut state = sample_state();
    state.peer_certificates = vec![];
    let cfg = sample_config();
    let mut events = up_to_signature();
    events.pop();
    let (_, step) = run(&mut state, &cfg, events);
    match step {
        Step::Ask(progress, Action::Proceed) => assert!(!progress.can_resume(&state, &cfg)),
        _ => panic!("the server is not authenticated"),
    }
}

#[test]
fn the_last_epoch_has_no_next_one() {
    let mut state = sample_state();
    let mut cfg = sample_config();
    cfg.initial_epoch = u16::MAX;
    let mut events = up_to_verify();
    events.push(Event::Data(Ok(vec![])));
    let (_, step) = run(&mut state, &cfg, events);
    match step {
        Step::Ask(progress, Action::Proceed) => {
            assert!(!progress.can_resume(&state, &cfg));
            state.local_verify_data = vec![1];
            assert!(progress.can_resume(&state, &cfg));
        }
        _ => panic!("the flight is not finished"),
    }
}

#[test]
fn keys_that_are_set_need_nothing() {
    let mut state = sample_state();
    state.cipher_suite_initialized(Ok(())).unwrap();
    let step = initalize_cipher_suite(&mut state, &sample_config(), server_share(), &[1]);
    assert!(matches!(step, Step::Done(())));
    assert!(state.master_secret.is_empty());
}

#[test]
fn the_cipher_suite_is_brought_up_by_itself() {
    let mut state = sample_state();
    let mut cfg = sample_config();
    cfg.has_verify_peer_certificate = false;
    let mut step = initalize_cipher_suite(&mut state, &cfg, server_share(), &[1]);
    let mut stages: Vec<&str> = vec![];
    for event in vec![
        Event::Proceed,
        Event::Outcome(Ok(())),
        Event::Chains(Ok(vec![])),
        Event::Outcome(Ok(())),
    ] {
        match step {
            Step::Ask(progress, _) => {
                stages.push(match &progress {
                    InitializeProgress::SessionHash { .. } => "session hash",
                    InitializeProgress::Authenticate { .. } => "authenticate",
                    InitializeProgress::KeySignature { .. } => "key signature",
                    InitializeProgress::Chains { .. } => "chains",
                    InitializeProgress::PeerCertificate => "peer certificate",
                    InitializeProgress::Keys => "keys",
                });
                assert!(progress.can_resume(&state, &cfg));
                step = resume_initalize_cipher_suite(progress, event, &mut state, &cfg);
            }
            _ => panic!("the cipher suite is up too early"),
        }
    }
    assert!(matches!(step, Step::Done(())));
    assert_eq!(
        stages,
        vec!["authenticate", "key signature", "chains", "keys"]
    );
    assert!(state.cipher_suite.unwrap().initialized);
}

#[test]
fn with_a_pre_shared_key_the_server_does_not_matter() {
    let mut cfg = sample_config();
    cfg.has_local_psk_callback = true;
    let mut ends: Vec<(Vec<Action>, Vec<u8>)> = vec![];
    for (share, certificates, schemes) in [
        (server_share(), vec![vec![0x51]], vec![ECDSA]),
        (HandshakeMessageServerKeyExchange::default(), vec![], vec![]),
    ] {
        cfg.insecure_skip_verify = schemes.is_empty();
        cfg.has_verify_peer_certificate = !schemes.is_empty();
        cfg.local_signature_schemes = schemes;
        let mut state = sample_state();
        state.extended_master_secret = true;
        state.peer_certificates = certificates;
        let mut actions: Vec<Action> = vec![];
        let mut step = initalize_cipher_suite(&mut state, &cfg, share, &[1]);
        for event in vec![Event::Data(Ok(vec![0xaa; 32])), Event::Outcome(Ok(()))] {
            match step {
                Step::Ask(progress, action) => {
                    actions.push(action);
                    assert!(progress.can_resume(&state, &cfg));
                    step = resume_initalize_cipher_suite(progress, event, &mut state, &cfg);
                }
                _ => panic!("the cipher suite is up too early"),
            }
        }
        assert!(matches!(step, Step::Done(())));
        assert!(state.cipher_suite.unwrap().initialized);
        assert!(matches!(
            actions.last(),
            Some(Action::InitCipherSuite { .. })
        ));
        ends.push((actions, state.master_secret));
    }
    assert_eq!(ends[0], ends[1]);
}

#[test]
fn a_secret_that_could_not_be_derived_is_reported() {
    let mut state = sample_state();
    state.master_secret = vec![1];
    let cfg = sample_config();
    let plain = go_on_with_derived_secret(
        &mut state,
        &cfg,
        server_share(),
        Err(Error::InvalidKeyLength),
    );
    let extended = go_on_with_extended_secret(
        &mut state,
        &cfg,
        server_share(),
        Err(Error::InvalidKeyLength),
    );
    for (step, alert) in [
        (plain, AlertDescription::InternalError),
        (extended, AlertDescription::IllegalParameter),
    ] {
        match step {
            Step::Fail(failure) => {
                assert_fatal(&failure, alert);
                assert!(matches!(failure.1, Some(Error::InvalidKeyLength)));
            }
            _ => panic!("the secret was taken over"),
        }
    }
    assert_eq!(state.master_secret, vec![1]);

    let step = go_on_with_derived_secret(&mut state, &cfg, server_share(), Ok(vec![2]));
    assert_eq!(state.master_secret, vec![2]);
    assert!(matches!(
        step,
        Step::Ask(InitializeProgress::Authenticate { .. }, Action::Proceed)
    ));
    let step = go_on_with_extended_secret(&mut state, &cfg, server_share(), Ok(vec![3]));
    assert_eq!(state.master_secret, vec![3]);
    assert!(matches!(
        step,
        Step::Ask(InitializeProgress::Authenticate { .. }, Action::Proceed)
    ));
}

#[test]
fn verify_data_that_could_not_be_derived_are_reported() {
    let mut state = sample_state();
    let failure = install_verify_data(&mut state, Err(other())).unwrap_err();
    assert_fatal(&failure, AlertDescription::InternalError);
    assert!(state.local_verify_data.is_empty());
    install_verify_data(&mut state, Ok(vec![3])).unwrap();
    assert_eq!(state.local_verify_data, vec![3]);

    let failure = check_verify_data(Err(other()), &[1]).unwrap_err();
    assert_fatal(&failure, AlertDescription::InsufficientSecurity);
    assert!(matches!(failure.1, Some(Error::Other(_))));
    let failure = check_verify_data(Ok(vec![1, 2]), &[1]).unwrap_err();
    assert_fatal(&failure, AlertDescription::HandshakeFailure);
    assert!(matches!(failure.1, Some(Error::VerifyDataMismatch)));
    assert!(check_verify_data(Ok(vec![1, 2]), &[1, 2]).is_ok());
}

/// What the lookup of the server's Finished gives.
fn found(verify_data: Vec<u8>) -> Event {
    Event::Messages(Ok(vec![
        PulledMessage {
            typ: HandshakeType::ServerHelloDone,
            message: HandshakeMessage::Other(HandshakeType::ServerHelloDone),
        },
        PulledMessage {
            typ: HandshakeType::Finished,
            message: HandshakeMessage::Finished(HandshakeMessageFinished { verify_data }),
        },
    ]))
}

/// Takes the server's answer with the given replies.
fn take(
    state: &State,
    cfg: &HandshakeConfig,
    events: Vec<Event>,
) -> (Vec<Action>, Step<ParseProgress, Flight5>) {
    let mut actions: Vec<Action> = vec![];
    let mut step = Flight5.parse(cfg);
    for event in events {
        match step {
            Step::Ask(progress, action) => {
                actions.push(action);
                step = Flight5.resume_parse(progress, event, state, cfg);
            }
            _ => panic!("the answer was taken too early"),
        }
    }
    (actions, step)
}

#[test]
fn the_answer_of_the_server_is_accepted() {
    let mut state = sample_state();
    state.master_secret = vec![7; 48];
    let mut cfg = sample_config();
    cfg.initial_epoch = 2;
    let verify_data: Vec<u8> = vec![
        0x3d, 0x55, 0x84, 0x39, 0xf0, 0x93, 0x81, 0x1f, 0xa9, 0x67, 0x0d, 0xe3,
    ];
    assert_eq!(
        verify_data,
        prf_verify_data_server(&[7; 48], b"abc", CipherSuiteHash::Sha256).unwrap()
    );
    let (actions, step) = take(
        &state,
        &cfg,
        vec![found(verify_data), Event::Merged(b"abc".to_vec())],
    );
    assert_eq!(
        actions,
        vec![
            Action::FullPullMap {
                start_sequence: 0,
                rules: vec![rule(HandshakeType::Finished, 3, false)],
            },
            Action::PullAndMerge {
                rules: rules_up_to_finished(2),
            },
        ]
    );
    assert!(matches!(step, Step::Done(Flight5)));
}

#[test]
fn wrong_verify_data_fail_the_handshake() {
    let mut state = sample_state();
    state.master_secret = vec![7; 48];
    let client = prf_verify_data_client(&[7; 48], b"abc", CipherSuiteHash::Sha256).unwrap();
    let server = prf_verify_data_server(&[7; 48], b"abc", CipherSuiteHash::Sha256).unwrap();
    for (verify_data, text) in [(client, b"abc"), (server, b"abd"), (vec![], b"abc")] {
        let (_, step) = take(
            &state,
            &sample_config(),
            vec![found(verify_data), Event::Merged(text.to_vec())],
        );
        match step {
            Step::Fail(failure) => {
                assert_fatal(&failure, AlertDescription::HandshakeFailure);
                assert!(matches!(failure.1, Some(Error::VerifyDataMismatch)));
            }
            _ => panic!("the answer was taken"),
        }
    }
}

#[test]
fn without_a_suite_any_answer_is_accepted() {
    let mut state = sample_state();
    state.cipher_suite = None;
    let (_, step) = take(
        &state,
        &sample_config(),
        vec![found(vec![1]), Event::Merged(vec![2])],
    );
    assert!(matches!(step, Step::Done(Flight5)));
}

#[test]
fn an_answer_that_has_not_come_yet_is_not_reported() {
    let (_, step) = take(
        &sample_state(),
        &sample_config(),
        vec![Event::Messages(Err(other()))],
    );
    assert!(matches!(step, Step::Fail((None, None))));
}

#[test]
fn another_answer_is_an_internal_error() {
    let wrong = vec![
        PulledMessage {
            typ: HandshakeType::Finished,
            message: HandshakeMessage::Other(HandshakeType::Finished),
        },
        PulledMessage {
            typ: HandshakeType::Finished,
            message: HandshakeMessage::Finished(HandshakeMessageFinished {
                verify_data: vec![],
            }),
        },
    ];
    for messages in [vec![], wrong] {
        let (_, step) = take(
            &sample_state(),
            &sample_config(),
            vec![Event::Messages(Ok(messages))],
        );
        match step {
            Step::Fail(failure) => {
                assert_fatal(&failure, AlertDescription::InternalError);
                assert!(failure.1.is_none());
            }
            _ => panic!("the answer was taken"),
        }
    }
}
