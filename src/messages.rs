//! Segments certified to carry the flag pattern of their kind.
use vstd::prelude::*;
use crate::st::Message;
use crate::wire::{flag, flag_set, framed, is_framed, FLAG_ACK, FLAG_FIN, FLAG_RST, FLAG_SYN};

verus! {

/// The SYN, ACK, FIN and RST flags of the framed octets `b` are as given.
pub open spec fn flags_are(b: Seq<u8>, syn: bool, ack: bool, fin: bool, rst: bool) -> bool {
    &&& flag(b, FLAG_SYN) == syn
    &&& flag(b, FLAG_ACK) == ack
    &&& flag(b, FLAG_FIN) == fin
    &&& flag(b, FLAG_RST) == rst
}

fn flags_match(b: &Vec<u8>, syn: bool, ack: bool, fin: bool, rst: bool) -> (r: bool)
    ensures
        r == (framed(b@) && flags_are(b@, syn, ack, fin, rst)),
{
    is_framed(b) && flag_set(b, FLAG_SYN) == syn && flag_set(b, FLAG_ACK) == ack && flag_set(
        b,
        FLAG_FIN,
    ) == fin && flag_set(b, FLAG_RST) == rst
}

/// A segment of the peer channel, held as its octets.
pub trait SmolMessage: Message + Sized {
    /// The flag pattern of this kind of message.
    spec fn shape(b: Seq<u8>) -> bool;

    /// The octets of the segment.
    spec fn bytes(&self) -> Seq<u8>;

    /// Whether the octets frame a segment of this kind.
    fn fits(packet: &Vec<u8>) -> (r: bool)
        ensures
            r == (framed(packet@) && Self::shape(packet@)),
    ;

    /// Certify octets as a segment of this kind.
    fn from_packet(packet: Vec<u8>) -> (r: Self)
        requires
            framed(packet@),
            Self::shape(packet@),
        ensures
            r.bytes() == packet@,
    ;

    /// The octets of the segment.
    fn packet(&self) -> (r: &Vec<u8>)
        ensures
            r@ == self.bytes(),
            framed(r@),
            Self::shape(r@),
    ;
}

/// A bare SYN, opening a connection.
pub struct Syn {
    packet: Vec<u8>,
}

impl Syn {
    #[verifier::type_invariant]
    spec fn inv(self) -> bool {
        framed(self.packet@) && flags_are(self.packet@, true, false, false, false)
    }
}

impl Message for Syn {
}

impl SmolMessage for Syn {
    open spec fn shape(b: Seq<u8>) -> bool {
        flags_are(b, true, false, false, false)
    }

    closed spec fn bytes(&self) -> Seq<u8> {
        self.packet@
    }

    fn fits(packet: &Vec<u8>) -> (r: bool) {
        flags_match(packet, true, false, false, false)
    }

    fn from_packet(packet: Vec<u8>) -> (r: Self) {
        Syn { packet }
    }

    fn packet(&self) -> (r: &Vec<u8>) {
        proof {
            use_type_invariant(self);
        }
        &self.packet
    }
}

/// A SYN with ACK, answering a SYN.
pub struct SynAck {
    packet: Vec<u8>,
}

impl SynAck {
    #[verifier::type_invariant]
    spec fn inv(self) -> bool {
        framed(self.packet@) && flags_are(self.packet@, true, true, false, false)
    }
}

impl Message for SynAck {
}

impl SmolMessage for SynAck {
    open spec fn shape(b: Seq<u8>) -> bool {
        flags_are(b, true, true, false, false)
    }

    closed spec fn bytes(&self) -> Seq<u8> {
        self.packet@
    }

    fn fits(packet: &Vec<u8>) -> (r: bool) {
        flags_match(packet, true, true, false, false)
    }

    fn from_packet(packet: Vec<u8>) -> (r: Self) {
        SynAck { packet }
    }

    fn packet(&self) -> (r: &Vec<u8>) {
        proof {
            use_type_invariant(self);
        }
        &self.packet
    }
}

/// An ACK without SYN, FIN or RST, with or without data.
pub struct Ack {
    packet: Vec<u8>,
}

impl Ack {
    #[verifier::type_invariant]
    spec fn inv(self) -> bool {
        framed(self.packet@) && flags_are(self.packet@, false, true, false, false)
    }
}

impl Message for Ack {
}

impl SmolMessage for Ack {
    open spec fn shape(b: Seq<u8>) -> bool {
        flags_are(b, false, true, false, false)
    }

    closed spec fn bytes(&self) -> Seq<u8> {
        self.packet@
    }

    fn fits(packet: &Vec<u8>) -> (r: bool) {
        flags_match(packet, false, true, false, false)
    }

    fn from_packet(packet: Vec<u8>) -> (r: Self) {
        Ack { packet }
    }

    fn packet(&self) -> (r: &Vec<u8>) {
        proof {
            use_type_invariant(self);
        }
        &self.packet
    }
}

/// A FIN with ACK, closing one direction.
pub struct FinAck {
    packet: Vec<u8>,
}

impl FinAck {
    #[verifier::type_invariant]
    spec fn inv(self) -> bool {
        framed(self.packet@) && flags_are(self.packet@, false, true, true, false)
    }
}

impl Message for FinAck {
}

impl SmolMessage for FinAck {
    open spec fn shape(b: Seq<u8>) -> bool {
        flags_are(b, false, true, true, false)
    }

    closed spec fn bytes(&self) -> Seq<u8> {
        self.packet@
    }

    fn fits(packet: &Vec<u8>) -> (r: bool) {
        flags_match(packet, false, true, true, false)
    }

    fn from_packet(packet: Vec<u8>) -> (r: Self) {
        FinAck { packet }
    }

    fn packet(&self) -> (r: &Vec<u8>) {
        proof {
            use_type_invariant(self);
        }
        &self.packet
    }
}

/// A RST without ACK, resetting the connection.
pub struct Rst {
    packet: Vec<u8>,
}

impl Rst {
    #[verifier::type_invariant]
    spec fn inv(self) -> bool {
        framed(self.packet@) && flags_are(self.packet@, false, false, false, true)
    }
}

impl Message for Rst {
}

impl SmolMessage for Rst {
    open spec fn shape(b: Seq<u8>) -> bool {
        flags_are(b, false, false, false, true)
    }

    closed spec fn bytes(&self) -> Seq<u8> {
        self.packet@
    }

    fn fits(packet: &Vec<u8>) -> (r: bool) {
        flags_match(packet, false, false, false, true)
    }

    fn from_packet(packet: Vec<u8>) -> (r: Self) {
        Rst { packet }
    }

    fn packet(&self) -> (r: &Vec<u8>) {
        proof {
            use_type_invariant(self);
        }
        &self.packet
    }
}

} // verus!
