//! Flight 5: the client proves its identity where that was asked for, sets the
//! keys of the cipher suite, and ends its side of the handshake.
//!
//! `generate` makes the flight and `parse` takes the server's answer to it.

pub mod generate;
pub mod initialize;
pub mod initialize_laws;
pub mod laws;
pub mod parse;
pub mod plain_laws;

use vstd::prelude::*;

use crate::flight::{pull_rule, rule, HandshakeCachePullRule};
use crate::handshake::HandshakeType;

verus! {

/// The flight with which the client ends the handshake.
#[derive(Clone, Copy, Debug, PartialEq, Eq, Structural)]
pub struct Flight5;

impl Flight5 {
    /// The name of the flight.
    pub fn to_string(&self) -> (r: String)
        ensures
            r@ == "Flight5"@,
    {
        String::from_str("Flight5")
    }

    /// Whether the answer to this flight is the last that is received.
    pub fn is_last_recv_flight(&self) -> (r: bool)
        ensures
            r,
    {
        true
    }
}

/// Where the server's share of the key exchange is looked up.
pub open spec fn server_key_exchange_rules(epoch: u16) -> Seq<HandshakeCachePullRule> {
    seq![pull_rule(HandshakeType::ServerKeyExchange, epoch, false)]
}

/// The messages up to the client's key exchange.
pub open spec fn key_exchange_rules(epoch: u16) -> Seq<HandshakeCachePullRule> {
    seq![
        pull_rule(HandshakeType::ClientHello, epoch, true),
        pull_rule(HandshakeType::ServerHello, epoch, false),
        pull_rule(HandshakeType::Certificate, epoch, false),
        pull_rule(HandshakeType::ServerKeyExchange, epoch, false),
        pull_rule(HandshakeType::CertificateRequest, epoch, false),
        pull_rule(HandshakeType::ServerHelloDone, epoch, false),
        pull_rule(HandshakeType::Certificate, epoch, true),
        pull_rule(HandshakeType::ClientKeyExchange, epoch, true),
    ]
}

/// The messages up to the client's Finished, which is of the next epoch.
pub open spec fn transcript_rules(epoch: u16) -> Seq<HandshakeCachePullRule> {
    key_exchange_rules(epoch) + seq![
        pull_rule(HandshakeType::CertificateVerify, epoch, true),
        pull_rule(HandshakeType::Finished, (epoch + 1) as u16, true),
    ]
}

/// Where the server's Finished, which is of the next epoch, is looked up.
pub open spec fn server_finished_rules(epoch: u16) -> Seq<HandshakeCachePullRule> {
    seq![pull_rule(HandshakeType::Finished, (epoch + 1) as u16, false)]
}

/// Where the server's share of the key exchange is looked up.
fn pull_server_key_exchange(epoch: u16) -> (r: Vec<HandshakeCachePullRule>)
    ensures
        r@ == server_key_exchange_rules(epoch),
{
    let r: Vec<HandshakeCachePullRule> = vec![rule(HandshakeType::ServerKeyExchange, epoch, false)];
    assert(r@ =~= server_key_exchange_rules(epoch));
    r
}

/// The messages up to the client's key exchange.
fn pull_key_exchange(epoch: u16) -> (r: Vec<HandshakeCachePullRule>)
    ensures
        r@ == key_exchange_rules(epoch),
{
    let r: Vec<HandshakeCachePullRule> =
        vec![
        rule(HandshakeType::ClientHello, epoch, true),
        rule(HandshakeType::ServerHello, epoch, false),
        rule(HandshakeType::Certificate, epoch, false),
        rule(HandshakeType::ServerKeyExchange, epoch, false),
        rule(HandshakeType::CertificateRequest, epoch, false),
        rule(HandshakeType::ServerHelloDone, epoch, false),
        rule(HandshakeType::Certificate, epoch, true),
        rule(HandshakeType::ClientKeyExchange, epoch, true),
    ];
    assert(r@ =~= key_exchange_rules(epoch));
    r
}

/// The messages up to the client's Finished.
fn pull_transcript(epoch: u16) -> (r: Vec<HandshakeCachePullRule>)
    requires
        epoch < u16::MAX,
    ensures
        r@ == transcript_rules(epoch),
{
    let mut r: Vec<HandshakeCachePullRule> = pull_key_exchange(epoch);
    r.push(rule(HandshakeType::CertificateVerify, epoch, true));
    r.push(rule(HandshakeType::Finished, epoch + 1, true));
    assert(r@ =~= transcript_rules(epoch));
    r
}

/// Where the server's Finished is looked up.
fn pull_server_finished(epoch: u16) -> (r: Vec<HandshakeCachePullRule>)
    requires
        epoch < u16::MAX,
    ensures
        r@ == server_finished_rules(epoch),
{
    let r: Vec<HandshakeCachePullRule> = vec![rule(HandshakeType::Finished, epoch + 1, false)];
    assert(r@ =~= server_finished_rules(epoch));
    r
}

/// Which messages are looked up, of which epoch and of which side; none of them
/// may be missing.
pub proof fn law_lookups(epoch: u16)
    ensures
        server_key_exchange_rules(epoch) == seq![
            HandshakeCachePullRule {
                typ: HandshakeType::ServerKeyExchange,
                epoch,
                is_client: false,
                optional: false,
            },
        ],
        server_finished_rules(epoch) == seq![
            HandshakeCachePullRule {
                typ: HandshakeType::Finished,
                epoch: (epoch + 1) as u16,
                is_client: false,
                optional: false,
            },
        ],
        key_exchange_rules(epoch) == seq![
            HandshakeCachePullRule {
                typ: HandshakeType::ClientHello,
                epoch,
                is_client: true,
                optional: false,
            },
            HandshakeCachePullRule {
                typ: HandshakeType::ServerHello,
                epoch,
                is_client: false,
                optional: false,
            },
            HandshakeCachePullRule {
                typ: HandshakeType::Certificate,
                epoch,
                is_client: false,
                optional: false,
            },
            HandshakeCachePullRule {
                typ: HandshakeType::ServerKeyExchange,
                epoch,
                is_client: false,
                optional: false,
            },
            HandshakeCachePullRule {
                typ: HandshakeType::CertificateRequest,
                epoch,
                is_client: false,
                optional: false,
            },
            HandshakeCachePullRule {
                typ: HandshakeType::ServerHelloDone,
                epoch,
                is_client: false,
                optional: false,
            },
            HandshakeCachePullRule {
                typ: HandshakeType::Certificate,
                epoch,
                is_client: true,
                optional: false,
            },
            HandshakeCachePullRule {
                typ: HandshakeType::ClientKeyExchange,
                epoch,
                is_client: true,
                optional: false,
            },
        ],
        transcript_rules(epoch) == seq![
            HandshakeCachePullRule {
                typ: HandshakeType::ClientHello,
                epoch,
                is_client: true,
                optional: false,
            },
            HandshakeCachePullRule {
                typ: HandshakeType::ServerHello,
                epoch,
                is_client: false,
                optional: false,
            },
            HandshakeCachePullRule {
                typ: HandshakeType::Certificate,
                epoch,
                is_client: false,
                optional: false,
            },
            HandshakeCachePullRule {
                typ: HandshakeType::ServerKeyExchange,
                epoch,
                is_client: false,
                optional: false,
            },
            HandshakeCachePullRule {
                typ: HandshakeType::CertificateRequest,
                epoch,
                is_client: false,
                optional: false,
            },
            HandshakeCachePullRule {
                typ: HandshakeType::ServerHelloDone,
                epoch,
                is_client: false,
                optional: false,
            },
            HandshakeCachePullRule {
                typ: HandshakeType::Certificate,
                epoch,
                is_client: true,
                optional: false,
            },
            HandshakeCachePullRule {
                typ: HandshakeType::ClientKeyExchange,
                epoch,
                is_client: true,
                optional: false,
            },
            HandshakeCachePullRule {
                typ: HandshakeType::CertificateVerify,
                epoch,
                is_client: true,
                optional: false,
            },
            HandshakeCachePullRule {
                typ: HandshakeType::Finished,
                epoch: (epoch + 1) as u16,
                is_client: true,
                optional: false,
            },
        ],
{
    assert(transcript_rules(epoch) =~= seq![
            HandshakeCachePullRule {
                typ: HandshakeType::ClientHello,
                epoch,
                is_client: true,
                optional: false,
            },
            HandshakeCachePullRule {
                typ: HandshakeType::ServerHello,
                epoch,
                is_client: false,
                optional: false,
            },
            HandshakeCachePullRule {
                typ: HandshakeType::Certificate,
                epoch,
                is_client: false,
                optional: false,
            },
            HandshakeCachePullRule {
                typ: HandshakeType::ServerKeyExchange,
                epoch,
                is_client: false,
                optional: false,
            },
            HandshakeCachePullRule {
                typ: HandshakeType::CertificateRequest,
                epoch,
                is_client: false,
                optional: false,
            },
            HandshakeCachePullRule {
                typ: HandshakeType::ServerHelloDone,
                epoch,
                is_client: false,
                optional: false,
            },
            HandshakeCachePullRule {
                typ: HandshakeType::Certificate,
                epoch,
                is_client: true,
                optional: false,
            },
            HandshakeCachePullRule {
                typ: HandshakeType::ClientKeyExchange,
                epoch,
                is_client: true,
                optional: false,
            },
            HandshakeCachePullRule {
                typ: HandshakeType::CertificateVerify,
                epoch,
                is_client: true,
                optional: false,
            },
            HandshakeCachePullRule {
                typ: HandshakeType::Finished,
                epoch: (epoch + 1) as u16,
                is_client: true,
                optional: false,
            },
    ]);
}

} // verus!
