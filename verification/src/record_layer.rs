//! Records and the packets that carry them.

use vstd::prelude::*;

use crate::handshake::{Handshake, HandshakeView};

verus! {

/// DTLS 1.2, as its two bytes stand in a record.
pub const PROTOCOL_VERSION1_2: u16 = 0xfefd;

/// What a record of the handshake holds.
#[derive(Debug, PartialEq, Eq)]
pub enum Content {
    ChangeCipherSpec,
    Handshake(Handshake),
}

/// A record: what it holds, and the header fields that are known before it
/// is sent.
#[derive(Debug, PartialEq, Eq)]
pub struct RecordLayer {
    pub protocol_version: u16,
    pub epoch: u16,
    pub content: Content,
}

/// A record to be sent, and how.
#[derive(Debug, PartialEq, Eq)]
pub struct Packet {
    pub record: RecordLayer,
    pub should_encrypt: bool,
    pub reset_local_sequence_number: bool,
}

/// What a record holds, as plain values.
#[verifier::ext_equal]
pub enum ContentView {
    ChangeCipherSpec,
    Handshake(HandshakeView),
}

/// A packet as plain values.
#[verifier::ext_equal]
pub struct PacketView {
    pub protocol_version: u16,
    pub epoch: u16,
    pub content: ContentView,
    pub should_encrypt: bool,
    pub reset_local_sequence_number: bool,
}

impl View for Content {
    type V = ContentView;

    open spec fn view(&self) -> ContentView {
        match self {
            Content::ChangeCipherSpec => ContentView::ChangeCipherSpec,
            Content::Handshake(handshake) => ContentView::Handshake(handshake@),
        }
    }
}

impl View for Packet {
    type V = PacketView;

    open spec fn view(&self) -> PacketView {
        PacketView {
            protocol_version: self.record.protocol_version,
            epoch: self.record.epoch,
            content: self.record.content@,
            should_encrypt: self.should_encrypt,
            reset_local_sequence_number: self.reset_local_sequence_number,
        }
    }
}

/// Packets as plain values.
pub open spec fn packets_view(packets: Seq<Packet>) -> Seq<PacketView> {
    Seq::new(packets.len(), |i: int| packets[i]@)
}

/// A packet of the first epoch, sent in the clear.
pub open spec fn plain_packet(content: ContentView) -> PacketView {
    PacketView {
        protocol_version: PROTOCOL_VERSION1_2,
        epoch: 0,
        content,
        should_encrypt: false,
        reset_local_sequence_number: false,
    }
}

/// The first packet of the next epoch: encrypted, with the record numbers
/// starting anew.
pub open spec fn first_encrypted_packet(content: ContentView) -> PacketView {
    PacketView {
        protocol_version: PROTOCOL_VERSION1_2,
        epoch: 1,
        content,
        should_encrypt: true,
        reset_local_sequence_number: true,
    }
}

impl RecordLayer {
    /// A record of the given version and epoch.
    pub fn new(protocol_version: u16, epoch: u16, content: Content) -> (r: RecordLayer)
        ensures
            r.protocol_version == protocol_version,
            r.epoch == epoch,
            r.content == content,
    {
        RecordLayer { protocol_version, epoch, content }
    }
}

impl Packet {
    /// A packet of the first epoch, sent in the clear.
    pub fn plain(content: Content) -> (r: Packet)
        ensures
            r@ == plain_packet(content@),
    {
        Packet {
            record: RecordLayer::new(PROTOCOL_VERSION1_2, 0, content),
            should_encrypt: false,
            reset_local_sequence_number: false,
        }
    }

    /// The first packet of the next epoch, encrypted.
    pub fn first_encrypted(content: Content) -> (r: Packet)
        ensures
            r@ == first_encrypted_packet(content@),
    {
        Packet {
            record: RecordLayer::new(PROTOCOL_VERSION1_2, 1, content),
            should_encrypt: true,
            reset_local_sequence_number: true,
        }
    }
}

/// A packet is known by its version, its epoch, what it holds, and how it is
/// sent; a list of packets by each of them.
pub proof fn law_packet_view(packets: Seq<Packet>, i: int)
    ensures
        packets_view(packets).len() == packets.len(),
        0 <= i < packets.len() ==> {
            let (packet, view) = (packets[i], packets_view(packets)[i]);
            &&& view.protocol_version == packet.record.protocol_version
            &&& view.epoch == packet.record.epoch
            &&& view.should_encrypt == packet.should_encrypt
            &&& view.reset_local_sequence_number == packet.reset_local_sequence_number
            &&& match packet.record.content {
                Content::ChangeCipherSpec => view.content is ChangeCipherSpec,
                Content::Handshake(h) => {
                    &&& view.content is Handshake
                    &&& view.content->Handshake_0.handshake_header == h.handshake_header
                    &&& view.content->Handshake_0.handshake_message == h.handshake_message@
                },
            }
        },
{
}

} // verus!
