//! The state of a connection: what the handshake has agreed on so far, how it
//! is saved and restored, and the keying material that it gives.

use vstd::prelude::*;
use vstd::utf8::{encode_utf8, encode_utf8_decode_utf8};

use crate::bytes::{copy, copy_list, equal, extend, list_view};
use crate::cipher_suite::{
    cipher_suite_for_id, law_cipher_suite_round_trip, CipherSuite, CipherSuiteId,
};
use crate::curve::{keypair_view, NamedCurve, NamedCurveKeypair, NamedCurveKeypairView};
use crate::error::Error;
use crate::extension::extension_use_srtp::{law_profile_round_trip, SRTPProtectionProfile};
use crate::handshake::handshake_random::{
    law_random_bytes, zero_random, HandshakeRandom, HANDSHAKE_RANDOM_LENGTH,
};
use crate::prf::{law_p_hash_prefix, p_hash, prf_p_hash};
use crate::serialized_state::{
    decoded, law_encoding_round_trip, SerializedState, SerializedStateView,
};

verus! {

/// The state of a connection.
#[derive(Debug)]
pub struct State {
    pub local_epoch: u16,
    pub remote_epoch: u16,
    pub local_sequence_number: u64,
    pub local_random: HandshakeRandom,
    pub remote_random: HandshakeRandom,
    pub master_secret: Vec<u8>,
    /// The cipher suite, once one has been chosen.
    pub cipher_suite: Option<CipherSuite>,
    /// The SRTP protection profile that was agreed on.
    pub srtp_protection_profile: SRTPProtectionProfile,
    pub peer_certificates: Vec<Vec<u8>>,
    pub is_client: bool,
    pub pre_master_secret: Vec<u8>,
    pub extended_master_secret: bool,
    pub named_curve: NamedCurve,
    pub local_keypair: Option<NamedCurveKeypair>,
    pub cookie: Vec<u8>,
    pub handshake_send_sequence: isize,
    pub handshake_recv_sequence: isize,
    pub server_name: String,
    /// Whether the peer has sent a CertificateRequest.
    pub remote_requested_certificate: bool,
    /// The signature of the CertificateVerify that was sent.
    pub local_certificates_verify: Vec<u8>,
    /// The verify data of the Finished that was sent.
    pub local_verify_data: Vec<u8>,
    /// The signature of the key exchange that was sent.
    pub local_key_signature: Vec<u8>,
    pub peer_certificates_verified: bool,
}

/// The state of a connection as plain values.
#[verifier::ext_equal]
pub struct StateView {
    pub local_epoch: u16,
    pub remote_epoch: u16,
    pub local_sequence_number: u64,
    pub local_random: Seq<u8>,
    pub remote_random: Seq<u8>,
    pub master_secret: Seq<u8>,
    pub cipher_suite: Option<CipherSuite>,
    pub srtp_protection_profile: SRTPProtectionProfile,
    pub peer_certificates: Seq<Seq<u8>>,
    pub is_client: bool,
    pub pre_master_secret: Seq<u8>,
    pub extended_master_secret: bool,
    pub named_curve: NamedCurve,
    pub local_keypair: Option<NamedCurveKeypairView>,
    pub cookie: Seq<u8>,
    pub handshake_send_sequence: isize,
    pub handshake_recv_sequence: isize,
    pub server_name: Seq<char>,
    pub remote_requested_certificate: bool,
    pub local_certificates_verify: Seq<u8>,
    pub local_verify_data: Seq<u8>,
    pub local_key_signature: Seq<u8>,
    pub peer_certificates_verified: bool,
}

impl View for State {
    type V = StateView;

    open spec fn view(&self) -> StateView {
        StateView {
            local_epoch: self.local_epoch,
            remote_epoch: self.remote_epoch,
            local_sequence_number: self.local_sequence_number,
            local_random: self.local_random@,
            remote_random: self.remote_random@,
            master_secret: self.master_secret@,
            cipher_suite: self.cipher_suite,
            srtp_protection_profile: self.srtp_protection_profile,
            peer_certificates: list_view(self.peer_certificates@),
            is_client: self.is_client,
            pre_master_secret: self.pre_master_secret@,
            extended_master_secret: self.extended_master_secret,
            named_curve: self.named_curve,
            local_keypair: keypair_view(self.local_keypair),
            cookie: self.cookie@,
            handshake_send_sequence: self.handshake_send_sequence,
            handshake_recv_sequence: self.handshake_recv_sequence,
            server_name: self.server_name@,
            remote_requested_certificate: self.remote_requested_certificate,
            local_certificates_verify: self.local_certificates_verify@,
            local_verify_data: self.local_verify_data@,
            local_key_signature: self.local_key_signature@,
            peer_certificates_verified: self.peer_certificates_verified,
        }
    }
}

/// A cipher suite and what it needs to set its keys.
#[derive(Debug, PartialEq, Eq)]
pub struct CipherSuiteInit {
    pub suite: CipherSuiteId,
    pub master_secret: Vec<u8>,
    pub client_random: Vec<u8>,
    pub server_random: Vec<u8>,
    pub is_client: bool,
}

/// A cipher suite and what it needs to set its keys, as plain values.
#[verifier::ext_equal]
pub struct CipherSuiteInitView {
    pub suite: CipherSuiteId,
    pub master_secret: Seq<u8>,
    pub client_random: Seq<u8>,
    pub server_random: Seq<u8>,
    pub is_client: bool,
}

impl View for CipherSuiteInit {
    type V = CipherSuiteInitView;

    open spec fn view(&self) -> CipherSuiteInitView {
        CipherSuiteInitView {
            suite: self.suite,
            master_secret: self.master_secret@,
            client_random: self.client_random@,
            server_random: self.server_random@,
            is_client: self.is_client,
        }
    }
}

/// The state before a handshake.
pub open spec fn initial_state() -> StateView {
    StateView {
        local_epoch: 0,
        remote_epoch: 0,
        local_sequence_number: 0,
        local_random: zero_random(),
        remote_random: zero_random(),
        master_secret: Seq::empty(),
        cipher_suite: None,
        srtp_protection_profile: SRTPProtectionProfile::Unsupported,
        peer_certificates: Seq::empty(),
        is_client: false,
        pre_master_secret: Seq::empty(),
        extended_master_secret: false,
        named_curve: NamedCurve::Unsupported,
        local_keypair: None,
        cookie: Seq::empty(),
        handshake_send_sequence: 0,
        handshake_recv_sequence: 0,
        server_name: Seq::empty(),
        remote_requested_certificate: false,
        local_certificates_verify: Seq::empty(),
        local_verify_data: Seq::empty(),
        local_key_signature: Seq::empty(),
        peer_certificates_verified: false,
    }
}

impl StateView {
    /// What is saved of a state in which a cipher suite has been chosen.
    pub open spec fn saved(self) -> SerializedStateView
        recommends
            self.cipher_suite is Some,
    {
        SerializedStateView {
            local_epoch: self.local_epoch,
            remote_epoch: self.remote_epoch,
            local_random: self.local_random,
            remote_random: self.remote_random,
            cipher_suite_id: self.cipher_suite->0.id.spec_code(),
            master_secret: self.master_secret,
            sequence_number: self.local_sequence_number,
            srtp_protection_profile: self.srtp_protection_profile.spec_code(),
            peer_certificates: self.peer_certificates,
            is_client: self.is_client,
        }
    }

    /// The state once the numbers, the randoms and the master secret of a
    /// saved state have been put into it.
    pub open spec fn with_numbers_of(self, saved: SerializedStateView) -> StateView {
        StateView {
            local_epoch: saved.local_epoch,
            remote_epoch: saved.remote_epoch,
            local_sequence_number: saved.sequence_number,
            local_random: saved.local_random,
            remote_random: saved.remote_random,
            is_client: saved.is_client,
            master_secret: saved.master_secret,
            ..self
        }
    }

    /// The state once a saved state has been put into it.  Where the cipher
    /// suite is not known, suite, profile and certificates stay as they were.
    pub open spec fn restored(self, saved: SerializedStateView) -> StateView {
        if CipherSuiteId::is_known(saved.cipher_suite_id) {
            StateView {
                cipher_suite: Some(
                    CipherSuite {
                        id: CipherSuiteId::spec_from_code(saved.cipher_suite_id),
                        initialized: false,
                    },
                ),
                srtp_protection_profile: SRTPProtectionProfile::spec_from_code(
                    saved.srtp_protection_profile,
                ),
                peer_certificates: saved.peer_certificates,
                ..self.with_numbers_of(saved)
            }
        } else {
            self.with_numbers_of(saved)
        }
    }

    /// `target` with everything in it that this state saves: the suite with
    /// its keys not set, the rest as it is here.
    pub open spec fn carried_into(self, target: StateView) -> StateView
        recommends
            self.cipher_suite is Some,
    {
        StateView {
            local_epoch: self.local_epoch,
            remote_epoch: self.remote_epoch,
            local_sequence_number: self.local_sequence_number,
            local_random: self.local_random,
            remote_random: self.remote_random,
            master_secret: self.master_secret,
            cipher_suite: Some(CipherSuite { id: self.cipher_suite->0.id, initialized: false }),
            srtp_protection_profile: self.srtp_protection_profile,
            peer_certificates: self.peer_certificates,
            is_client: self.is_client,
            ..target
        }
    }

    /// The random of the client.
    pub open spec fn client_random(self) -> Seq<u8> {
        if self.is_client {
            self.local_random
        } else {
            self.remote_random
        }
    }

    /// The random of the server.
    pub open spec fn server_random(self) -> Seq<u8> {
        if self.is_client {
            self.remote_random
        } else {
            self.local_random
        }
    }

    /// What the cipher suite needs to set its keys.
    pub open spec fn cipher_suite_init(self) -> CipherSuiteInitView
        recommends
            self.cipher_suite is Some,
    {
        CipherSuiteInitView {
            suite: self.cipher_suite->0.id,
            master_secret: self.master_secret,
            client_random: self.client_random(),
            server_random: self.server_random(),
            is_client: self.is_client,
        }
    }

    /// The state once the keys of its cipher suite have been set.
    pub open spec fn with_keys_set(self) -> StateView {
        StateView {
            cipher_suite: match self.cipher_suite {
                Some(suite) => Some(CipherSuite { id: suite.id, initialized: true }),
                None => None,
            },
            ..self
        }
    }

    /// The keying material that the connection exports under `label`, with the
    /// hash function of its cipher suite.
    pub open spec fn keying_material(self, label: Seq<char>, length: nat) -> Seq<u8>
        recommends
            self.cipher_suite is Some,
    {
        p_hash(
            self.master_secret,
            encode_utf8(label) + self.client_random() + self.server_random(),
            length,
            self.cipher_suite->0.spec_hash_func(),
        )
    }
}

/// Tells whether TLS itself uses a label.
pub open spec fn is_reserved_label(label: Seq<char>) -> bool {
    ||| label == "client finished"@
    ||| label == "server finished"@
    ||| label == "master secret"@
    ||| label == "key expansion"@
}

impl Default for State {
    fn default() -> (r: Self)
        ensures
            r@ == initial_state(),
    {
        let r = State {
            local_epoch: 0,
            remote_epoch: 0,
            local_sequence_number: 0,
            local_random: HandshakeRandom::default(),
            remote_random: HandshakeRandom::default(),
            master_secret: Vec::new(),
            cipher_suite: None,
            srtp_protection_profile: SRTPProtectionProfile::Unsupported,
            peer_certificates: Vec::new(),
            is_client: false,
            pre_master_secret: Vec::new(),
            extended_master_secret: false,
            named_curve: NamedCurve::Unsupported,
            local_keypair: None,
            cookie: Vec::new(),
            handshake_send_sequence: 0,
            handshake_recv_sequence: 0,
            server_name: String::new(),
            remote_requested_certificate: false,
            local_certificates_verify: Vec::new(),
            local_verify_data: Vec::new(),
            local_key_signature: Vec::new(),
            peer_certificates_verified: false,
        };
        assert(r@ =~= initial_state());
        r
    }
}

/// Tells whether two lists of byte vectors hold the same bytes.
pub open spec fn same_list(a: Seq<Vec<u8>>, b: Seq<Vec<u8>>) -> bool {
    &&& a.len() == b.len()
    &&& forall|i: int| 0 <= i < a.len() ==> (#[trigger] a[i])@ == b[i]@
}

/// Tells whether what is not saved is the same in two states.
pub open spec fn keeps_unsaved(a: State, b: State) -> bool {
    &&& a.pre_master_secret@ == b.pre_master_secret@
    &&& a.extended_master_secret == b.extended_master_secret
    &&& a.named_curve == b.named_curve
    &&& a.local_keypair == b.local_keypair
    &&& a.cookie@ == b.cookie@
    &&& a.handshake_send_sequence == b.handshake_send_sequence
    &&& a.handshake_recv_sequence == b.handshake_recv_sequence
    &&& a.server_name@ == b.server_name@
    &&& a.remote_requested_certificate == b.remote_requested_certificate
    &&& a.local_certificates_verify@ == b.local_certificates_verify@
    &&& a.local_verify_data@ == b.local_verify_data@
    &&& a.local_key_signature@ == b.local_key_signature@
    &&& a.peer_certificates_verified == b.peer_certificates_verified
}

/// Two strings with the same bytes are the same.
proof fn lemma_utf8_injective(a: Seq<char>, b: Seq<char>)
    requires
        encode_utf8(a) == encode_utf8(b),
    ensures
        a == b,
{
    encode_utf8_decode_utf8(a);
    encode_utf8_decode_utf8(b);
}

/// Tells whether two strings are the same.
fn same_string(a: &str, b: &str) -> (r: bool)
    ensures
        r == (a@ == b@),
{
    let r: bool = equal(a.as_bytes(), b.as_bytes());
    proof {
        if r {
            lemma_utf8_injective(a@, b@);
        }
    }
    r
}

/// Tells whether TLS itself uses a label, so that it exports nothing.
pub fn is_invalid_keying_label(label: &str) -> (r: bool)
    ensures
        r == is_reserved_label(label@),
        r <==> label@ == "client finished"@ || label@ == "server finished"@ || label@
            == "master secret"@ || label@ == "key expansion"@,
{
    same_string(label, "client finished") || same_string(label, "server finished") || same_string(
        label,
        "master secret",
    ) || same_string(label, "key expansion")
}

impl State {
    /// The part of the state that is saved.  There is none before a cipher
    /// suite has been chosen.
    pub fn serialize(&self) -> (r: Result<SerializedState, Error>)
        ensures
            self@.cipher_suite is Some ==> r is Ok && r->Ok_0@ == self@.saved(),
            self@.cipher_suite is None ==> r == Err::<SerializedState, Error>(
                Error::CipherSuiteUnset,
            ),
            r is Ok <==> self.cipher_suite is Some,
            r is Ok ==> {
                let saved = r->Ok_0;
                &&& saved.local_epoch == self.local_epoch
                &&& saved.remote_epoch == self.remote_epoch
                &&& saved.local_random@ == self.local_random@
                &&& saved.remote_random@ == self.remote_random@
                &&& saved.cipher_suite_id == self.cipher_suite->0.id.spec_code()
                &&& saved.master_secret@ == self.master_secret@
                &&& saved.sequence_number == self.local_sequence_number
                &&& saved.srtp_protection_profile == self.srtp_protection_profile.spec_code()
                &&& same_list(saved.peer_certificates@, self.peer_certificates@)
                &&& saved.is_client == self.is_client
            },
    {
        let cipher_suite_id: u16 = match &self.cipher_suite {
            Some(suite) => suite.id.code(),
            None => return Err(Error::CipherSuiteUnset),
        };
        Ok(
            SerializedState {
                local_epoch: self.local_epoch,
                remote_epoch: self.remote_epoch,
                local_random: self.local_random.to_array(),
                remote_random: self.remote_random.to_array(),
                cipher_suite_id,
                master_secret: copy(self.master_secret.as_slice()),
                sequence_number: self.local_sequence_number,
                srtp_protection_profile: self.srtp_protection_profile.code(),
                peer_certificates: copy_list(&self.peer_certificates),
                is_client: self.is_client,
            },
        )
    }

    /// Puts a saved state into this one.  It fails where the cipher suite is
    /// not known; what comes before the suite has been put in even then.
    pub fn deserialize(&mut self, serialized: &SerializedState) -> (r: Result<(), Error>)
        ensures
            final(self)@ == old(self)@.restored(serialized@),
            CipherSuiteId::is_known(serialized@.cipher_suite_id) ==> r == Ok::<(), Error>(()),
            !CipherSuiteId::is_known(serialized@.cipher_suite_id) ==> r == Err::<(), Error>(
                Error::InvalidCipherSuite,
            ),
            final(self).local_epoch == serialized.local_epoch,
            final(self).remote_epoch == serialized.remote_epoch,
            final(self).local_sequence_number == serialized.sequence_number,
            final(self).local_random@ == serialized.local_random@,
            final(self).remote_random@ == serialized.remote_random@,
            final(self).is_client == serialized.is_client,
            final(self).master_secret@ == serialized.master_secret@,
            if CipherSuiteId::is_known(serialized.cipher_suite_id) {
                &&& final(self).cipher_suite is Some
                &&& final(self).cipher_suite->0.id.spec_code() == serialized.cipher_suite_id
                &&& !final(self).cipher_suite->0.initialized
                &&& final(self).srtp_protection_profile == SRTPProtectionProfile::spec_from_code(
                    serialized.srtp_protection_profile,
                )
                &&& same_list(final(self).peer_certificates@, serialized.peer_certificates@)
            } else {
                &&& final(self).cipher_suite == old(self).cipher_suite
                &&& final(self).srtp_protection_profile == old(self).srtp_protection_profile
                &&& final(self).peer_certificates == old(self).peer_certificates
            },
            keeps_unsaved(*old(self), *final(self)),
    {
        self.local_epoch = serialized.local_epoch;
        self.remote_epoch = serialized.remote_epoch;
        self.local_sequence_number = serialized.sequence_number;
        assert(serialized.local_random@.take(HANDSHAKE_RANDOM_LENGTH as int)
            =~= serialized.local_random@);
        assert(serialized.remote_random@.take(HANDSHAKE_RANDOM_LENGTH as int)
            =~= serialized.remote_random@);
        self.local_random = match HandshakeRandom::unmarshal(serialized.local_random.as_slice()) {
            Ok(random) => random,
            Err(err) => return Err(err),
        };
        self.remote_random = match HandshakeRandom::unmarshal(serialized.remote_random.as_slice()) {
            Ok(random) => random,
            Err(err) => return Err(err),
        };
        self.is_client = serialized.is_client;
        self.master_secret = copy(serialized.master_secret.as_slice());
        let suite: CipherSuite = match cipher_suite_for_id(serialized.cipher_suite_id) {
            Ok(suite) => suite,
            Err(err) => return Err(err),
        };
        self.cipher_suite = Some(suite);
        self.srtp_protection_profile = SRTPProtectionProfile::from_code(
            serialized.srtp_protection_profile,
        );
        self.peer_certificates = copy_list(&serialized.peer_certificates);
        Ok(())
    }

    /// The bytes of the client's random.
    fn client_random(&self) -> (r: Vec<u8>)
        ensures
            r@ == self@.client_random(),
    {
        let mut r: Vec<u8> = Vec::new();
        if self.is_client {
            self.local_random.marshal(&mut r);
        } else {
            self.remote_random.marshal(&mut r);
        }
        assert(r@ =~= self@.client_random());
        r
    }

    /// The bytes of the server's random.
    fn server_random(&self) -> (r: Vec<u8>)
        ensures
            r@ == self@.server_random(),
    {
        let mut r: Vec<u8> = Vec::new();
        if self.is_client {
            self.remote_random.marshal(&mut r);
        } else {
            self.local_random.marshal(&mut r);
        }
        assert(r@ =~= self@.server_random());
        r
    }

    /// What the cipher suite is to set its keys with; nothing where it has
    /// set them already.  The caller hands it to the suite, and what the suite
    /// says of it to `cipher_suite_initialized`.
    pub fn init_cipher_suite(&self) -> (r: Result<Option<CipherSuiteInit>, Error>)
        ensures
            match self@.cipher_suite {
                None => r == Err::<Option<CipherSuiteInit>, Error>(Error::CipherSuiteUnset),
                Some(suite) => if suite.initialized {
                    r == Ok::<Option<CipherSuiteInit>, Error>(None)
                } else {
                    r is Ok && r->Ok_0 is Some && r->Ok_0->0@ == self@.cipher_suite_init()
                },
            },
            r matches Ok(Some(init)) ==> {
                &&& init.suite == self.cipher_suite->0.id
                &&& init.master_secret@ == self.master_secret@
                &&& init.client_random@ == if self.is_client {
                    self.local_random@
                } else {
                    self.remote_random@
                }
                &&& init.server_random@ == if self.is_client {
                    self.remote_random@
                } else {
                    self.local_random@
                }
                &&& init.is_client == self.is_client
            },
    {
        match &self.cipher_suite {
            Some(suite) => {
                if suite.initialized {
                    return Ok(None);
                }
                Ok(
                    Some(
                        CipherSuiteInit {
                            suite: suite.id,
                            master_secret: copy(self.master_secret.as_slice()),
                            client_random: self.client_random(),
                            server_random: self.server_random(),
                            is_client: self.is_client,
                        },
                    ),
                )
            },
            None => Err(Error::CipherSuiteUnset),
        }
    }

    /// Takes note of what came of setting the keys, and passes it on.
    pub fn cipher_suite_initialized(&mut self, outcome: Result<(), Error>) -> (r: Result<
        (),
        Error,
    >)
        ensures
            r == outcome,
            outcome is Ok ==> final(self)@ == old(self)@.with_keys_set(),
            outcome is Err ==> final(self)@ == old(self)@,
            final(self).cipher_suite == match (old(self).cipher_suite, outcome) {
                (Some(suite), Ok(_)) => Some(CipherSuite { id: suite.id, initialized: true }),
                (suite, _) => suite,
            },
            final(self).local_epoch == old(self).local_epoch,
            final(self).remote_epoch == old(self).remote_epoch,
            final(self).local_sequence_number == old(self).local_sequence_number,
            final(self).local_random@ == old(self).local_random@,
            final(self).remote_random@ == old(self).remote_random@,
            final(self).master_secret@ == old(self).master_secret@,
            final(self).srtp_protection_profile == old(self).srtp_protection_profile,
            final(self).peer_certificates == old(self).peer_certificates,
            final(self).is_client == old(self).is_client,
            keeps_unsaved(*old(self), *final(self)),
    {
        if outcome.is_ok() {
            self.cipher_suite = match self.cipher_suite {
                Some(suite) => Some(CipherSuite { id: suite.id, initialized: true }),
                None => None,
            };
        }
        outcome
    }

    /// Tells whether the bytes of the saved state, if there is one, fit into a
    /// vector.
    pub fn can_marshal_binary(&self) -> (r: bool)
        ensures
            r == (self@.cipher_suite is Some ==> self@.saved().encoding().len() <= isize::MAX),
    {
        match self.serialize() {
            Ok(serialized) => serialized.can_encode(),
            Err(_) => true,
        }
    }

    /// The saved state in bytes, which have to fit into a vector.
    pub fn marshal_binary(&self) -> (r: Result<Vec<u8>, Error>)
        requires
            self@.cipher_suite is Some ==> self@.saved().encoding().len() <= isize::MAX,
        ensures
            self@.cipher_suite is Some ==> r is Ok && r->Ok_0@ == self@.saved().encoding(),
            self@.cipher_suite is None ==> r == Err::<Vec<u8>, Error>(Error::CipherSuiteUnset),
    {
        let serialized: SerializedState = match self.serialize() {
            Ok(serialized) => serialized,
            Err(err) => return Err(err),
        };
        serialized.encode()
    }

    /// Puts the saved state that `data` start with into this one, and gives
    /// what its cipher suite, whose keys are not set yet, is to set them with.
    pub fn unmarshal_binary(&mut self, data: &[u8]) -> (r: Result<Option<CipherSuiteInit>, Error>)
        ensures
            match decoded(data@) {
                None => final(self)@ == old(self)@ && r is Err && r->Err_0 is Bincode,
                Some(saved) => {
                    &&& final(self)@ == old(self)@.restored(saved)
                    &&& if CipherSuiteId::is_known(saved.cipher_suite_id) {
                        r is Ok && r->Ok_0 is Some && r->Ok_0->0@
                            == final(self)@.cipher_suite_init()
                    } else {
                        r == Err::<Option<CipherSuiteInit>, Error>(Error::InvalidCipherSuite)
                    }
                },
            },
            decoded(data@) matches Some(saved) ==> {
                &&& final(self).local_epoch == saved.local_epoch
                &&& final(self).remote_epoch == saved.remote_epoch
                &&& final(self).local_sequence_number == saved.sequence_number
                &&& final(self).local_random@ == saved.local_random
                &&& final(self).remote_random@ == saved.remote_random
                &&& final(self).is_client == saved.is_client
                &&& final(self).master_secret@ == saved.master_secret
                &&& keeps_unsaved(*old(self), *final(self))
                &&& CipherSuiteId::is_known(saved.cipher_suite_id) ==> {
                    &&& final(self).cipher_suite is Some
                    &&& final(self).cipher_suite->0.id.spec_code() == saved.cipher_suite_id
                    &&& !final(self).cipher_suite->0.initialized
                    &&& final(self).peer_certificates@.len() == saved.peer_certificates.len()
                    &&& forall|i: int|
                        0 <= i < saved.peer_certificates.len() ==> (
                        #[trigger] final(self).peer_certificates@[i])@ == saved.peer_certificates[i]
                }
            },
            r matches Ok(init) ==> {
                let saved = decoded(data@)->0;
                &&& init is Some
                &&& init->0.suite.spec_code() == saved.cipher_suite_id
                &&& init->0.master_secret@ == saved.master_secret
                &&& init->0.client_random@ == if saved.is_client {
                    saved.local_random
                } else {
                    saved.remote_random
                }
                &&& init->0.server_random@ == if saved.is_client {
                    saved.remote_random
                } else {
                    saved.local_random
                }
                &&& init->0.is_client == saved.is_client
            },
    {
        let serialized: SerializedState = match SerializedState::decode(data) {
            Ok(serialized) => serialized,
            Err(err) => return Err(err),
        };
        match self.deserialize(&serialized) {
            Ok(()) => {},
            Err(err) => return Err(err),
        }
        self.init_cipher_suite()
    }

    /// `length` bytes of keying material for use outside of TLS, under a label
    /// of that use's own: the expansion of the master secret over the label and
    /// the two randoms.  A context is not supported.
    pub fn export_keying_material(&self, label: &str, context: &[u8], length: usize) -> (r: Result<
        Vec<u8>,
        Error,
    >)
        ensures
            if self@.local_epoch == 0 {
                r == Err::<Vec<u8>, Error>(Error::HandshakeInProgress)
            } else if context@.len() > 0 {
                r == Err::<Vec<u8>, Error>(Error::ContextUnsupported)
            } else if is_reserved_label(label@) {
                r == Err::<Vec<u8>, Error>(Error::ReservedExportKeyingMaterial)
            } else if self@.cipher_suite is None {
                r == Err::<Vec<u8>, Error>(Error::CipherSuiteUnset)
            } else {
                r is Ok && r->Ok_0@ == self@.keying_material(label@, length as nat)
            },
            r is Ok ==> r->Ok_0@ == p_hash(
                self.master_secret@,
                if self.is_client {
                    encode_utf8(label@) + self.local_random@ + self.remote_random@
                } else {
                    encode_utf8(label@) + self.remote_random@ + self.local_random@
                },
                length as nat,
                self.cipher_suite->0.spec_hash_func(),
            ),
            r is Ok <==> {
                &&& self.local_epoch != 0
                &&& context@.len() == 0
                &&& label@ != "client finished"@
                &&& label@ != "server finished"@
                &&& label@ != "master secret"@
                &&& label@ != "key expansion"@
                &&& self.cipher_suite is Some
            },
    {
        if self.local_epoch == 0 {
            return Err(Error::HandshakeInProgress);
        } else if context.len() > 0 {
            return Err(Error::ContextUnsupported);
        } else if is_invalid_keying_label(label) {
            return Err(Error::ReservedExportKeyingMaterial);
        }
        let mut seed: Vec<u8> = copy(label.as_bytes());
        extend(&mut seed, self.client_random().as_slice());
        extend(&mut seed, self.server_random().as_slice());
        match &self.cipher_suite {
            Some(suite) => prf_p_hash(
                self.master_secret.as_slice(),
                seed.as_slice(),
                length,
                suite.hash_func(),
            ),
            None => Err(Error::CipherSuiteUnset),
        }
    }
}

impl Clone for State {
    /// A state with what this one saves, or an initial one where it saves
    /// nothing.
    fn clone(&self) -> (r: Self)
        ensures
            self@.cipher_suite is Some ==> r@ == self@.carried_into(initial_state()),
            self@.cipher_suite is None ==> r@ == initial_state(),
            self.cipher_suite is Some ==> {
                &&& r.local_epoch == self.local_epoch
                &&& r.remote_epoch == self.remote_epoch
                &&& r.local_sequence_number == self.local_sequence_number
                &&& r.local_random@ == self.local_random@
                &&& r.remote_random@ == self.remote_random@
                &&& r.master_secret@ == self.master_secret@
                &&& r.cipher_suite == Some(
                    CipherSuite { id: self.cipher_suite->0.id, initialized: false },
                )
                &&& r.srtp_protection_profile == self.srtp_protection_profile
                &&& r.peer_certificates@.len() == self.peer_certificates@.len()
                &&& forall|i: int|
                    0 <= i < self.peer_certificates@.len() ==> (#[trigger] r.peer_certificates@[i])@
                        == self.peer_certificates@[i]@
                &&& r.is_client == self.is_client
            },
    {
        let mut state = State::default();
        if let Ok(serialized) = self.serialize() {
            let _ = state.deserialize(&serialized);
            proof {
                law_restore(self@, initial_state());
            }
        }
        state
    }
}

/// A state that is restored from what another saved holds all that was saved,
/// with the keys of the suite not set; the rest stays as it was.
pub proof fn law_restore(state: StateView, target: StateView)
    requires
        state.cipher_suite is Some,
    ensures
        CipherSuiteId::is_known(state.saved().cipher_suite_id),
        target.restored(state.saved()) == state.carried_into(target),
{
    law_cipher_suite_round_trip(state.cipher_suite->0.id);
    law_profile_round_trip(state.srtp_protection_profile);
}

/// The lengths of what a state holds fit the saved form.
pub proof fn law_saved_well_formed(state: State)
    requires
        state@.cipher_suite is Some,
    ensures
        state@.saved().well_formed(),
{
    law_random_bytes(state.local_random, state.remote_random);
    law_random_bytes(state.remote_random, state.local_random);
    assert(state.master_secret.len() <= u64::MAX);
    assert(state.peer_certificates.len() <= u64::MAX);
    let saved = state@.saved();
    assert forall|i: int| 0 <= i < saved.peer_certificates.len() implies (
    #[trigger] saved.peer_certificates[i]).len() <= u64::MAX by {
        assert(state.peer_certificates@[i].len() <= u64::MAX);
    }
}

/// What `marshal_binary` wrote `unmarshal_binary` reads, whatever bytes follow
/// and whatever state it reads into: all that was saved is as it was, the keys
/// of the suite are not set, and the rest of the state stays.
pub proof fn law_marshal_round_trip(state: StateView, target: StateView, rest: Seq<u8>)
    requires
        state.cipher_suite is Some,
        state.saved().well_formed(),
    ensures
        decoded(state.saved().encoding() + rest) == Some(state.saved()),
        CipherSuiteId::is_known(state.saved().cipher_suite_id),
        target.restored(state.saved()) == state.carried_into(target),
{
    law_encoding_round_trip(state.saved(), rest);
    law_restore(state, target);
}

/// A state that is restored or cloned from another saves the same, exports
/// the same, and sets the keys of its suite with the same values.
pub proof fn law_carried_state_agrees(
    state: StateView,
    target: StateView,
    label: Seq<char>,
    length: nat,
)
    requires
        state.cipher_suite is Some,
    ensures
        state.carried_into(target).saved() == state.saved(),
        state.carried_into(target).keying_material(label, length) == state.keying_material(
            label,
            length,
        ),
        state.carried_into(target).cipher_suite_init() == state.cipher_suite_init(),
{
}

/// A saved state whose suite is known and whose profile has its usual number
/// is saved again as it was read.
pub proof fn law_restored_saves_same(saved: SerializedStateView, target: StateView)
    requires
        CipherSuiteId::is_known(saved.cipher_suite_id),
        SRTPProtectionProfile::spec_from_code(saved.srtp_protection_profile).spec_code()
            == saved.srtp_protection_profile,
    ensures
        target.restored(saved).saved() == saved,
{
}

/// Both sides of a connection export the same keying material, and set the
/// keys of their suites with the same randoms.
pub proof fn law_sides_agree(client: StateView, server: StateView, label: Seq<char>, length: nat)
    requires
        client.is_client,
        !server.is_client,
        client.cipher_suite is Some,
        server.cipher_suite is Some,
        client.cipher_suite->0.id == server.cipher_suite->0.id,
        client.local_random == server.remote_random,
        client.remote_random == server.local_random,
        client.master_secret == server.master_secret,
    ensures
        client.keying_material(label, length) == server.keying_material(label, length),
        client.client_random() == server.client_random(),
        client.server_random() == server.server_random(),
{
}

/// As many bytes are exported as were asked for, and those of a shorter
/// request start those of a longer one.
pub proof fn law_keying_material_prefix(
    state: StateView,
    label: Seq<char>,
    shorter: nat,
    longer: nat,
)
    requires
        state.cipher_suite is Some,
        shorter <= longer,
    ensures
        state.keying_material(label, longer).len() == longer,
        state.keying_material(label, longer).take(shorter as int) == state.keying_material(
            label,
            shorter,
        ),
{
    law_p_hash_prefix(
        state.master_secret,
        encode_utf8(label) + state.client_random() + state.server_random(),
        shorter,
        longer,
        state.cipher_suite->0.spec_hash_func(),
    );
}

/// The labels that TLS itself uses are these four and no others.
pub proof fn law_reserved_labels(label: Seq<char>)
    ensures
        is_reserved_label(label) <==> label == "client finished"@ || label == "server finished"@
            || label == "master secret"@ || label == "key expansion"@,
{
}

/// The exported bytes are the expansion of the master secret over the label, the
/// client's random and the server's random, in this order and whatever they
/// hold: for a client the local random comes first, for a server the remote one.
pub proof fn law_keying_material_seed(state: StateView, label: Seq<char>, length: nat)
    requires
        state.cipher_suite is Some,
    ensures
        state.is_client ==> state.keying_material(label, length) == p_hash(
            state.master_secret,
            encode_utf8(label) + state.local_random + state.remote_random,
            length,
            state.cipher_suite->0.spec_hash_func(),
        ),
        !state.is_client ==> state.keying_material(label, length) == p_hash(
            state.master_secret,
            encode_utf8(label) + state.remote_random + state.local_random,
            length,
            state.cipher_suite->0.spec_hash_func(),
        ),
{
}

/// What a state hands to its cipher suite is its suite, its whole master secret,
/// the two randoms by their sides, and its own side.
pub proof fn law_keys_are_set_with_state(state: StateView)
    requires
        state.cipher_suite is Some,
    ensures
        state.cipher_suite_init().suite == state.cipher_suite->0.id,
        state.cipher_suite_init().master_secret == state.master_secret,
        state.cipher_suite_init().is_client == state.is_client,
        state.is_client ==> state.cipher_suite_init().client_random == state.local_random
            && state.cipher_suite_init().server_random == state.remote_random,
        !state.is_client ==> state.cipher_suite_init().client_random == state.remote_random
            && state.cipher_suite_init().server_random == state.local_random,
{
}

/// A connection that was saved is restored, whatever bytes follow and into
/// whatever state: field by field it is what it was, the keys of its suite are
/// to be set, and they are set with the values that the saved connection had.
/// What is not saved stays as it is in the state that it is restored into.
pub proof fn law_restored_connection(state: StateView, target: StateView, rest: Seq<u8>)
    requires
        state.cipher_suite is Some,
        state.saved().well_formed(),
    ensures
        decoded(state.saved().encoding() + rest) is Some,
        ({
            let end = target.restored(decoded(state.saved().encoding() + rest)->0);
            let init = end.cipher_suite_init();
            &&& end == StateView {
                local_epoch: state.local_epoch,
                remote_epoch: state.remote_epoch,
                local_sequence_number: state.local_sequence_number,
                local_random: state.local_random,
                remote_random: state.remote_random,
                master_secret: state.master_secret,
                cipher_suite: Some(
                    CipherSuite { id: state.cipher_suite->0.id, initialized: false },
                ),
                srtp_protection_profile: state.srtp_protection_profile,
                peer_certificates: state.peer_certificates,
                is_client: state.is_client,
                ..target
            }
            &&& init.suite == state.cipher_suite->0.id
            &&& init.master_secret == state.master_secret
            &&& init.is_client == state.is_client
            &&& state.is_client ==> init.client_random == state.local_random && init.server_random
                == state.remote_random
            &&& !state.is_client ==> init.client_random == state.remote_random && init.server_random
                == state.local_random
        }),
{
    law_marshal_round_trip(state, target, rest);
}

/// What is saved of a state, field by field.
pub proof fn law_saved_fields(state: StateView)
    requires
        state.cipher_suite is Some,
    ensures
        state.saved() == (SerializedStateView {
            local_epoch: state.local_epoch,
            remote_epoch: state.remote_epoch,
            local_random: state.local_random,
            remote_random: state.remote_random,
            cipher_suite_id: state.cipher_suite->0.id.spec_code(),
            master_secret: state.master_secret,
            sequence_number: state.local_sequence_number,
            srtp_protection_profile: state.srtp_protection_profile.spec_code(),
            peer_certificates: state.peer_certificates,
            is_client: state.is_client,
        }),
{
}

/// A saved state with a suite that is not known changes only the numbers, the
/// randoms, the master secret and the side.
pub proof fn law_unknown_suite_stops(saved: SerializedStateView, target: StateView)
    requires
        !CipherSuiteId::is_known(saved.cipher_suite_id),
    ensures
        target.restored(saved) == (StateView {
            local_epoch: saved.local_epoch,
            remote_epoch: saved.remote_epoch,
            local_sequence_number: saved.sequence_number,
            local_random: saved.local_random,
            remote_random: saved.remote_random,
            master_secret: saved.master_secret,
            is_client: saved.is_client,
            ..target
        }),
{
}

/// A state is known by its fields.
pub proof fn law_state_view(state: State)
    ensures
        state@.local_epoch == state.local_epoch,
        state@.remote_epoch == state.remote_epoch,
        state@.local_sequence_number == state.local_sequence_number,
        state@.local_random == state.local_random@,
        state@.remote_random == state.remote_random@,
        state@.master_secret == state.master_secret@,
        state@.cipher_suite == state.cipher_suite,
        state@.srtp_protection_profile == state.srtp_protection_profile,
        state@.peer_certificates.len() == state.peer_certificates@.len(),
        forall|i: int|
            0 <= i < state.peer_certificates@.len() ==> #[trigger] state@.peer_certificates[i]
                == state.peer_certificates@[i]@,
        state@.is_client == state.is_client,
        state@.pre_master_secret == state.pre_master_secret@,
        state@.extended_master_secret == state.extended_master_secret,
        state@.named_curve == state.named_curve,
        state@.local_keypair is Some <==> state.local_keypair is Some,
        state.local_keypair matches Some(keypair) ==> {
            &&& state@.local_keypair->0.curve == keypair.curve
            &&& state@.local_keypair->0.public_key == keypair.public_key@
            &&& state@.local_keypair->0.private_key == keypair.private_key
        },
        state@.cookie == state.cookie@,
        state@.handshake_send_sequence == state.handshake_send_sequence,
        state@.handshake_recv_sequence == state.handshake_recv_sequence,
        state@.server_name == state.server_name@,
        state@.remote_requested_certificate == state.remote_requested_certificate,
        state@.local_certificates_verify == state.local_certificates_verify@,
        state@.local_verify_data == state.local_verify_data@,
        state@.local_key_signature == state.local_key_signature@,
        state@.peer_certificates_verified == state.peer_certificates_verified,
{
}

/// What a cipher suite sets its keys with is known by its fields.
pub proof fn law_cipher_suite_init_view(init: CipherSuiteInit)
    ensures
        init@.suite == init.suite,
        init@.master_secret == init.master_secret@,
        init@.client_random == init.client_random@,
        init@.server_random == init.server_random@,
        init@.is_client == init.is_client,
{
}

} // verus!
