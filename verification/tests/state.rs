//! The state of a connection: saving, restoring, exporting.

use dtls::cipher_suite::{cipher_suite_for_id, CipherSuite, CipherSuiteId};
use dtls::curve::{NamedCurve, NamedCurveKeypair};
use dtls::error::Error;
use dtls::extension::extension_use_srtp::SRTPProtectionProfile;
use dtls::handshake::handshake_random::HandshakeRandom;
use dtls::serialized_state::SerializedState;
use dtls::state::{is_invalid_keying_label, State};

/// A state in which every field differs from that of an initial one.
fn sample() -> State {
    State {
        local_epoch: 1,
        remote_epoch: 2,
        local_sequence_number: 5,
        local_random: HandshakeRandom {
            gmt_unix_time: 0x01020304,
            random_bytes: [0x11; 28],
        },
        remote_random: HandshakeRandom {
            gmt_unix_time: 0x05060708,
            random_bytes: [0x22; 28],
        },
        master_secret: vec![1, 2, 3],
        cipher_suite: Some(CipherSuite {
            id: CipherSuiteId::TLS_ECDHE_ECDSA_WITH_AES_128_GCM_SHA256,
            initialized: true,
        }),
        srtp_protection_profile: SRTPProtectionProfile::SRTP_AES128_CM_HMAC_SHA1_80,
        peer_certificates: vec![vec![9, 8], vec![]],
        is_client: true,
        pre_master_secret: vec![4],
        extended_master_secret: true,
        named_curve: NamedCurve::X25519,
        local_keypair: Some(NamedCurveKeypair {
            curve: NamedCurve::X25519,
            public_key: vec![6],
            private_key: 7,
        }),
        cookie: vec![8],
        handshake_send_sequence: 9,
        handshake_recv_sequence: 10,
        server_name: String::from("example.org"),
        remote_requested_certificate: true,
        local_certificates_verify: vec![11],
        local_verify_data: vec![12],
        local_key_signature: vec![13],
        peer_certificates_verified: true,
    }
}

/// The bytes that the sample is saved as.
fn sample_bytes() -> Vec<u8> {
    vec![
        0x01, 0x00, 0x02, 0x00, 0x01, 0x02, 0x03, 0x04, 0x11, 0x11, 0x11, 0x11,
        0x11, 0x11, 0x11, 0x11, 0x11, 0x11, 0x11, 0x11, 0x11, 0x11, 0x11, 0x11,
        0x11, 0x11, 0x11, 0x11, 0x11, 0x11, 0x11, 0x11, 0x11, 0x11, 0x11, 0x11,
        0x05, 0x06, 0x07, 0x08, 0x22, 0x22, 0x22, 0x22, 0x22, 0x22, 0x22, 0x22,
        0x22, 0x22, 0x22, 0x22, 0x22, 0x22, 0x22, 0x22, 0x22, 0x22, 0x22, 0x22,
        0x22, 0x22, 0x22, 0x22, 0x22, 0x22, 0x22, 0x22, 0x2b, 0xc0, 0x03, 0x00,
        0x00, 0x00, 0x00, 0x00, 0x00, 0x00, 0x01, 0x02, 0x03, 0x05, 0x00, 0x00,
        0x00, 0x00, 0x00, 0x00, 0x00, 0x01, 0x00, 0x02, 0x00, 0x00, 0x00, 0x00,
        0x00, 0x00, 0x00, 0x02, 0x00, 0x00, 0x00, 0x00, 0x00, 0x00, 0x00, 0x09,
        0x08, 0x00, 0x00, 0x00, 0x00, 0x00, 0x00, 0x00, 0x00, 0x01,
    ]
}

/// Asserts that what is saved of the sample stands in `state`, with the keys of
/// the suite not set.
fn assert_holds_sample(state: &State) {
    let expected = sample();
    assert_eq!(state.local_epoch, 1);
    assert_eq!(state.remote_epoch, 2);
    assert_eq!(state.local_sequence_number, 5);
    assert_eq!(state.local_random, expected.local_random);
    assert_eq!(state.remote_random, expected.remote_random);
    assert_eq!(state.master_secret, vec![1, 2, 3]);
    assert_eq!(
        state.cipher_suite,
        Some(CipherSuite {
            id: CipherSuiteId::TLS_ECDHE_ECDSA_WITH_AES_128_GCM_SHA256,
            initialized: false,
        })
    );
    assert_eq!(
        state.srtp_protection_profile,
        SRTPProtectionProfile::SRTP_AES128_CM_HMAC_SHA1_80
    );
    assert_eq!(state.peer_certificates, vec![vec![9, 8], vec![]]);
    assert!(state.is_client);
}

/// Asserts that what is not saved stands in `state` as it does in an initial one.
fn assert_rest_is_initial(state: &State) {
    assert!(state.pre_master_secret.is_empty());
    assert!(!state.extended_master_secret);
    assert_eq!(state.named_curve, NamedCurve::Unsupported);
    assert!(state.local_keypair.is_none());
    assert!(state.cookie.is_empty());
    assert_eq!(state.handshake_send_sequence, 0);
    assert_eq!(state.handshake_recv_sequence, 0);
    assert_eq!(state.server_name, "");
    assert!(!state.remote_requested_certificate);
    assert!(state.local_certificates_verify.is_empty());
    assert!(state.local_verify_data.is_empty());
    assert!(state.local_key_signature.is_empty());
    assert!(!state.peer_certificates_verified);
}

#[test]
fn an_initial_state_is_empty() {
    let state = State::default();
    assert_eq!(state.local_epoch, 0);
    assert_eq!(state.remote_epoch, 0);
    assert_eq!(state.local_sequence_number, 0);
    assert_eq!(state.local_random, HandshakeRandom::default());
    assert_eq!(state.remote_random.to_array(), [0u8; 32]);
    assert!(state.master_secret.is_empty());
    assert!(state.cipher_suite.is_none());
    assert_eq!(
        state.srtp_protection_profile,
        SRTPProtectionProfile::Unsupported
    );
    assert!(state.peer_certificates.is_empty());
    assert!(!state.is_client);
    assert_rest_is_initial(&state);
}

#[test]
fn an_initial_state_saves_nothing() {
    let state = State::default();
    assert!(matches!(state.serialize(), Err(Error::CipherSuiteUnset)));
    assert!(matches!(
        state.marshal_binary(),
        Err(Error::CipherSuiteUnset)
    ));
    assert!(matches!(
        state.init_cipher_suite(),
        Err(Error::CipherSuiteUnset)
    ));
}

#[test]
fn a_state_is_saved_field_by_field() {
    let serialized = sample().serialize().unwrap();
    let mut local_random = [0x11u8; 32];
    local_random[..4].copy_from_slice(&[1, 2, 3, 4]);
    let mut remote_random = [0x22u8; 32];
    remote_random[..4].copy_from_slice(&[5, 6, 7, 8]);
    assert_eq!(
        serialized,
        SerializedState {
            local_epoch: 1,
            remote_epoch: 2,
            local_random,
            remote_random,
            cipher_suite_id: 0xc02b,
            master_secret: vec![1, 2, 3],
            sequence_number: 5,
            srtp_protection_profile: 1,
            peer_certificates: vec![vec![9, 8], vec![]],
            is_client: true,
        }
    );
}

#[test]
fn a_state_is_marshalled_to_known_bytes() {
    assert_eq!(sample().marshal_binary().unwrap(), sample_bytes());
}

#[test]
fn small_states_fit_into_a_vector() {
    assert!(sample().can_marshal_binary());
    assert!(State::default().can_marshal_binary());
    assert!(sample().serialize().unwrap().can_encode());
}

#[test]
fn a_server_ends_in_a_zero_byte() {
    let mut state = sample();
    state.is_client = false;
    let bytes = state.marshal_binary().unwrap();
    assert_eq!(bytes.last(), Some(&0));
    assert_eq!(&bytes[..117], &sample_bytes()[..117]);
}

#[test]
fn what_was_marshalled_is_unmarshalled() {
    let mut state = State::default();
    let init = state.unmarshal_binary(&sample_bytes()).unwrap().unwrap();
    assert_holds_sample(&state);
    assert_rest_is_initial(&state);
    assert_eq!(
        init.suite,
        CipherSuiteId::TLS_ECDHE_ECDSA_WITH_AES_128_GCM_SHA256
    );
    assert_eq!(init.master_secret, vec![1, 2, 3]);
    assert_eq!(
        init.client_random,
        sample().local_random.to_array().to_vec()
    );
    assert_eq!(
        init.server_random,
        sample().remote_random.to_array().to_vec()
    );
    assert!(init.is_client);
    assert_eq!(state.marshal_binary().unwrap(), sample_bytes());
}

#[test]
fn bytes_behind_a_saved_state_are_passed_over() {
    let mut bytes = sample_bytes();
    bytes.extend_from_slice(&[1, 2, 3]);
    let mut state = State::default();
    assert!(state.unmarshal_binary(&bytes).unwrap().is_some());
    assert_holds_sample(&state);
}

#[test]
fn unmarshalling_keeps_what_is_not_saved() {
    let mut state = sample();
    state.local_epoch = 77;
    state.master_secret = vec![0];
    state.unmarshal_binary(&sample_bytes()).unwrap();
    assert_holds_sample(&state);
    assert_eq!(state.cookie, vec![8]);
    assert_eq!(state.server_name, "example.org");
    assert_eq!(state.handshake_send_sequence, 9);
    assert_eq!(state.local_verify_data, vec![12]);
}

#[test]
fn too_few_bytes_change_nothing() {
    let bytes = sample_bytes();
    for length in [0, 1, 70, 117] {
        let mut state = State::default();
        assert!(matches!(
            state.unmarshal_binary(&bytes[..length]),
            Err(Error::Bincode(_))
        ));
        assert_eq!(state.local_epoch, 0);
        assert!(state.cipher_suite.is_none());
    }
}

#[test]
fn a_truth_value_is_zero_or_one() {
    let mut bytes = sample_bytes();
    bytes[117] = 2;
    assert!(matches!(
        State::default().unmarshal_binary(&bytes),
        Err(Error::Bincode(_))
    ));
}

#[test]
fn a_length_beyond_the_end_is_refused() {
    let mut bytes = sample_bytes();
    bytes[77] = 0xff;
    assert!(matches!(
        State::default().unmarshal_binary(&bytes),
        Err(Error::Bincode(_))
    ));
}

#[test]
fn an_unknown_suite_stops_half_way() {
    let mut bytes = sample_bytes();
    bytes[68] = 0xff;
    let mut state = State::default();
    assert!(matches!(
        state.unmarshal_binary(&bytes),
        Err(Error::InvalidCipherSuite)
    ));
    assert_eq!(state.local_epoch, 1);
    assert_eq!(state.remote_epoch, 2);
    assert_eq!(state.local_sequence_number, 5);
    assert_eq!(state.local_random, sample().local_random);
    assert_eq!(state.master_secret, vec![1, 2, 3]);
    assert!(state.is_client);
    assert!(state.cipher_suite.is_none());
    assert_eq!(
        state.srtp_protection_profile,
        SRTPProtectionProfile::Unsupported
    );
    assert!(state.peer_certificates.is_empty());
}

#[test]
fn an_unknown_profile_is_unsupported() {
    let mut serialized = sample().serialize().unwrap();
    serialized.srtp_protection_profile = 3;
    let mut state = State::default();
    state.deserialize(&serialized).unwrap();
    assert_eq!(
        state.srtp_protection_profile,
        SRTPProtectionProfile::Unsupported
    );
    assert_eq!(state.serialize().unwrap().srtp_protection_profile, 9);
}

#[test]
fn a_clone_holds_what_is_saved() {
    let state = sample().clone();
    assert_holds_sample(&state);
    assert_rest_is_initial(&state);
    assert_eq!(state.marshal_binary().unwrap(), sample_bytes());
}

#[test]
fn a_clone_without_a_suite_is_initial() {
    let mut state = sample();
    state.cipher_suite = None;
    let clone = state.clone();
    assert_eq!(clone.local_epoch, 0);
    assert!(clone.master_secret.is_empty());
    assert!(clone.cipher_suite.is_none());
    assert_rest_is_initial(&clone);
}

#[test]
fn keys_that_are_set_are_not_set_again() {
    assert!(sample().init_cipher_suite().unwrap().is_none());
}

#[test]
fn keys_are_set_with_the_randoms_in_their_order() {
    let mut state = sample();
    state.cipher_suite = cipher_suite_for_id(0xc02b).ok();
    let client = state.init_cipher_suite().unwrap().unwrap();
    state.is_client = false;
    let server = state.init_cipher_suite().unwrap().unwrap();
    assert_eq!(client.client_random, state.local_random.to_array().to_vec());
    assert_eq!(
        client.server_random,
        state.remote_random.to_array().to_vec()
    );
    assert_eq!(
        server.client_random,
        state.remote_random.to_array().to_vec()
    );
    assert_eq!(server.server_random, state.local_random.to_array().to_vec());
    assert!(client.is_client);
    assert!(!server.is_client);
    assert_eq!(client.master_secret, vec![1, 2, 3]);
    assert_eq!(server.master_secret, vec![1, 2, 3]);
}

#[test]
fn the_outcome_of_setting_the_keys_is_noted() {
    let mut state = sample();
    state.cipher_suite = cipher_suite_for_id(0xc02b).ok();
    assert!(matches!(
        state.cipher_suite_initialized(Err(Error::InvalidKeyLength)),
        Err(Error::InvalidKeyLength)
    ));
    assert!(!state.cipher_suite.unwrap().initialized);
    assert!(state.cipher_suite_initialized(Ok(())).is_ok());
    assert!(state.cipher_suite.unwrap().initialized);
    assert!(state.init_cipher_suite().unwrap().is_none());
}

#[test]
fn every_suite_is_known_by_its_number() {
    let numbers: Vec<u16> = vec![
        0xc0ac, 0xc0ae, 0xc02b, 0xc02f, 0xc00a, 0xc014, 0xc0a4, 0xc0a8, 0x00a8,
    ];
    for number in numbers {
        let suite = cipher_suite_for_id(number).unwrap();
        assert_eq!(suite.id.code(), number);
        assert!(!suite.initialized);
    }
    assert!(matches!(
        cipher_suite_for_id(0),
        Err(Error::InvalidCipherSuite)
    ));
    assert!(matches!(
        cipher_suite_for_id(0xc0ad),
        Err(Error::InvalidCipherSuite)
    ));
}

/// A state that exports keying material.
fn exporter() -> State {
    let mut state = sample();
    state.master_secret = vec![7; 48];
    state
}

#[test]
fn keying_material_has_its_value() {
    let expected: Vec<u8> = vec![
        0x32, 0xa3, 0x13, 0x06, 0x5c, 0xb6, 0x07, 0x3b, 0x73, 0x09, 0xc7, 0xb9,
        0x25, 0x85, 0x19, 0x29, 0x1c, 0x2f, 0x1b, 0x59, 0x7c, 0x5b, 0x25, 0x2d,
        0x35, 0xd6, 0x87, 0xd2, 0x86, 0xa6, 0x5b, 0x0a, 0x01, 0x2c, 0xa5, 0x3f,
        0x3f, 0x04, 0xd3, 0xd9, 0xa2, 0xa4, 0x6f, 0x4a, 0xec, 0x9c, 0x48, 0x9f,
        0x37, 0x24, 0xf0, 0xe7, 0xce, 0x85, 0x95, 0xc4, 0x37, 0xee, 0xc7, 0xa5,
    ];
    assert_eq!(
        exporter()
            .export_keying_material("EXTRACTOR-dtls_srtp", &[], 60)
            .unwrap(),
        expected
    );
}

#[test]
fn keying_material_depends_on_the_label() {
    let state = exporter();
    let one = state.export_keying_material("one", &[], 32).unwrap();
    let two = state.export_keying_material("two", &[], 32).unwrap();
    assert_ne!(one, two);
}

#[test]
fn both_sides_export_the_same() {
    let client = exporter();
    let mut server = exporter();
    server.is_client = false;
    server.local_random = client.remote_random;
    server.remote_random = client.local_random;
    assert_eq!(
        client.export_keying_material("label", &[], 40).unwrap(),
        server.export_keying_material("label", &[], 40).unwrap()
    );
}

#[test]
fn a_shorter_export_starts_a_longer_one() {
    let state = exporter();
    let long = state.export_keying_material("label", &[], 70).unwrap();
    let short = state.export_keying_material("label", &[], 33).unwrap();
    let none = state.export_keying_material("label", &[], 0).unwrap();
    assert_eq!(long.len(), 70);
    assert_eq!(short.as_slice(), &long[..33]);
    assert!(none.is_empty());
}

#[test]
fn a_clone_exports_the_same() {
    let state = exporter();
    assert_eq!(
        state.export_keying_material("label", &[], 20).unwrap(),
        state
            .clone()
            .export_keying_material("label", &[], 20)
            .unwrap()
    );
}

#[test]
fn exports_are_refused_in_order() {
    let mut state = exporter();
    state.local_epoch = 0;
    state.cipher_suite = None;
    assert!(matches!(
        state.export_keying_material("master secret", &[1], 4),
        Err(Error::HandshakeInProgress)
    ));
    state.local_epoch = 1;
    assert!(matches!(
        state.export_keying_material("master secret", &[1], 4),
        Err(Error::ContextUnsupported)
    ));
    assert!(matches!(
        state.export_keying_material("master secret", &[], 4),
        Err(Error::ReservedExportKeyingMaterial)
    ));
    assert!(matches!(
        state.export_keying_material("label", &[], 4),
        Err(Error::CipherSuiteUnset)
    ));
}

#[test]
fn labels_of_tls_are_reserved() {
    for label in [
        "client finished",
        "server finished",
        "master secret",
        "key expansion",
    ] {
        assert!(is_invalid_keying_label(label));
    }
    for label in ["", "client finishe", "Client finished", "key expansion "] {
        assert!(!is_invalid_keying_label(label));
    }
}

#[test]
fn a_random_is_read_from_its_bytes() {
    let bytes: Vec<u8> = (0u8..40).collect();
    let random = HandshakeRandom::unmarshal(&bytes).unwrap();
    assert_eq!(random.gmt_unix_time, 0x00010203);
    assert_eq!(random.to_array().as_slice(), &bytes[..32]);
    let mut writer: Vec<u8> = vec![0xff];
    random.marshal(&mut writer);
    assert_eq!(writer[0], 0xff);
    assert_eq!(&writer[1..], &bytes[..32]);
    assert!(matches!(
        HandshakeRandom::unmarshal(&bytes[..31]),
        Err(Error::UnexpectedEndOfInput)
    ));
}
