//! The TCP segment as plain values, its layout on the wire, and the calls into
//! smoltcp's codec that parse and emit it.
use vstd::prelude::*;
use smoltcp::wire::{Ipv4Address as SmolIpv4, TcpControl, TcpPacket, TcpRepr, TcpSeqNumber};
use crate::seq::SeqNumber;

verus! {

/// The length of a TCP header without options.
pub const HEADER_LEN: usize = 20;

/// The largest segment that an IPv4 datagram can carry, header included; the
/// codec's checksum sum is exact up to this length.
pub const MAX_SEGMENT: usize = 65535;

/// smoltcp's control bit of a segment, declared with its variants so that
/// verified code can match on them.
#[verifier::external_type_specification]
pub struct ExTcpControl(TcpControl);

/// An IPv4 address, its four octets read as one big-endian number.
#[derive(Clone, Copy, Debug, PartialEq, Eq, Structural)]
pub struct Ipv4Address(pub u32);

/// The length of a control bit in sequence space.
pub open spec fn control_len(c: TcpControl) -> nat {
    match c {
        TcpControl::Syn | TcpControl::Fin => 1,
        _ => 0,
    }
}

/// A TCP segment, header fields and payload.
pub struct Segment {
    pub src_port: u16,
    pub dst_port: u16,
    pub control: TcpControl,
    pub seq_number: SeqNumber,
    pub ack_number: Option<SeqNumber>,
    pub window_len: u16,
    pub payload: Vec<u8>,
}

/// What a segment holds, with its numbers as plain integers.
pub struct SegmentView {
    pub src_port: u16,
    pub dst_port: u16,
    pub control: TcpControl,
    pub seq: u32,
    pub ack: Option<u32>,
    pub window: u16,
    pub payload: Seq<u8>,
}

impl View for Segment {
    type V = SegmentView;

    open spec fn view(&self) -> SegmentView {
        SegmentView {
            src_port: self.src_port,
            dst_port: self.dst_port,
            control: self.control,
            seq: self.seq_number.0,
            ack: match self.ack_number {
                Some(a) => Some(a.0),
                None => None,
            },
            window: self.window_len,
            payload: self.payload@,
        }
    }
}

impl SegmentView {
    /// The length of the segment in sequence space.
    pub open spec fn len(self) -> nat {
        self.payload.len() + control_len(self.control)
    }
}

impl Segment {
    /// The length of the segment in sequence space.
    pub fn segment_len(&self) -> (r: usize)
        requires
            self.payload@.len() < usize::MAX,
        ensures
            r == self@.len(),
    {
        match self.control {
            TcpControl::Syn | TcpControl::Fin => self.payload.len() + 1,
            _ => self.payload.len(),
        }
    }
}

// ---- the layout of a segment on the wire ----

/// The big-endian 16-bit number at `i`.
pub open spec fn be16(b: Seq<u8>, i: int) -> u16 {
    (b[i] * 256 + b[i + 1]) as u16
}

/// The big-endian 32-bit number at `i`.
pub open spec fn be32(b: Seq<u8>, i: int) -> u32 {
    (((b[i] * 256 + b[i + 1]) * 256 + b[i + 2]) * 256 + b[i + 3]) as u32
}

/// The two octets of `x`, most significant first.
pub open spec fn u16_bytes(x: u16) -> Seq<u8> {
    seq![(x / 256) as u8, (x % 256) as u8]
}

/// The four octets of `x`, most significant first.
pub open spec fn u32_bytes(x: u32) -> Seq<u8> {
    seq![
        (x / 0x100_0000) as u8,
        ((x / 0x1_0000) % 256) as u8,
        ((x / 256) % 256) as u8,
        (x % 256) as u8,
    ]
}

/// Flag bits in the low octet of the flags field.
pub const FLAG_FIN: u8 = 0x01;
pub const FLAG_SYN: u8 = 0x02;
pub const FLAG_RST: u8 = 0x04;
pub const FLAG_PSH: u8 = 0x08;
pub const FLAG_ACK: u8 = 0x10;

/// The low octet of the flags field of an emitted segment.
pub open spec fn flags_octet(c: TcpControl, ack: bool) -> u8 {
    let bit: u8 = match c {
        TcpControl::None => 0,
        TcpControl::Psh => FLAG_PSH,
        TcpControl::Syn => FLAG_SYN,
        TcpControl::Fin => FLAG_FIN,
        TcpControl::Rst => FLAG_RST,
    };
    (bit + if ack { FLAG_ACK } else { 0 }) as u8
}

/// The octets of a segment emitted without options, with `checksum` in its
/// checksum field.
pub open spec fn encoding(s: SegmentView, checksum: u16) -> Seq<u8> {
    let ack: u32 = match s.ack {
        Some(a) => a,
        None => 0,
    };
    u16_bytes(s.src_port) + u16_bytes(s.dst_port) + u32_bytes(s.seq) + u32_bytes(ack) + seq![
        0x50u8,
        flags_octet(s.control, s.ack is Some),
    ] + u16_bytes(s.window) + u16_bytes(checksum) + seq![0u8, 0u8] + s.payload
}

proof fn lemma_u16_bytes(x: u16)
    ensures
        u16_bytes(x).len() == 2,
        u16_bytes(x)[0] * 256 + u16_bytes(x)[1] == x,
{
    assert((x / 256) * 256 + x % 256 == x) by (nonlinear_arith);
}

proof fn lemma_u32_bytes(x: u32)
    ensures
        u32_bytes(x).len() == 4,
        ((u32_bytes(x)[0] * 256 + u32_bytes(x)[1]) * 256 + u32_bytes(x)[2]) * 256 + u32_bytes(x)[3]
            == x,
{
    assert(((x / 0x100_0000) * 256 + (x / 0x1_0000) % 256) * 256 + (x / 256) % 256 == x / 256)
        by (nonlinear_arith);
    assert((x / 256) * 256 + x % 256 == x) by (nonlinear_arith);
}

/// Reading the header of an emitted segment gives back the fields it was
/// emitted from.
pub proof fn lemma_encoding_fields(s: SegmentView, checksum: u16)
    ensures
        ({
            let b = encoding(s, checksum);
            &&& b.len() == HEADER_LEN + s.payload.len()
            &&& b[12] == 0x50
            &&& b[13] == flags_octet(s.control, s.ack is Some)
            &&& be16(b, 0) == s.src_port
            &&& be16(b, 2) == s.dst_port
            &&& be32(b, 4) == s.seq
            &&& be32(b, 8) == match s.ack {
                Some(a) => a,
                None => 0u32,
            }
            &&& be16(b, 14) == s.window
            &&& be16(b, 16) == checksum
            &&& b.subrange(HEADER_LEN as int, b.len() as int) == s.payload
        }),
{
    let ack: u32 = match s.ack {
        Some(a) => a,
        None => 0,
    };
    let b = encoding(s, checksum);
    lemma_u16_bytes(s.src_port);
    lemma_u16_bytes(s.dst_port);
    lemma_u32_bytes(s.seq);
    lemma_u32_bytes(ack);
    lemma_u16_bytes(s.window);
    lemma_u16_bytes(checksum);
    let h = u16_bytes(s.src_port) + u16_bytes(s.dst_port) + u32_bytes(s.seq) + u32_bytes(ack) + seq![
        0x50u8,
        flags_octet(s.control, s.ack is Some),
    ] + u16_bytes(s.window) + u16_bytes(checksum) + seq![0u8, 0u8];
    assert(b == h + s.payload);
    assert(h.len() == HEADER_LEN);
    assert(b.subrange(HEADER_LEN as int, b.len() as int) =~= s.payload);
    assert(b[0] == u16_bytes(s.src_port)[0] && b[1] == u16_bytes(s.src_port)[1]);
    assert(b[2] == u16_bytes(s.dst_port)[0] && b[3] == u16_bytes(s.dst_port)[1]);
    assert(b[4] == u32_bytes(s.seq)[0] && b[5] == u32_bytes(s.seq)[1] && b[6] == u32_bytes(s.seq)[2]
        && b[7] == u32_bytes(s.seq)[3]);
    assert(b[8] == u32_bytes(ack)[0] && b[9] == u32_bytes(ack)[1] && b[10] == u32_bytes(ack)[2]
        && b[11] == u32_bytes(ack)[3]);
    assert(b[14] == u16_bytes(s.window)[0] && b[15] == u16_bytes(s.window)[1]);
    assert(b[16] == u16_bytes(checksum)[0] && b[17] == u16_bytes(checksum)[1]);
}

/// The flags of an emitted segment read back as the control bit and ACK it
/// was emitted with.
pub proof fn lemma_flags_octet(c: TcpControl, ack: bool)
    ensures
        ({
            let f = flags_octet(c, ack);
            &&& (f / FLAG_ACK) % 2 == 1 <==> ack
            &&& (f / FLAG_SYN) % 2 == 1 <==> c == TcpControl::Syn
            &&& (f / FLAG_FIN) % 2 == 1 <==> c == TcpControl::Fin
            &&& (f / FLAG_RST) % 2 == 1 <==> c == TcpControl::Rst
            &&& (f / FLAG_PSH) % 2 == 1 <==> c == TcpControl::Psh
        }),
{
}

/// An emitted segment is framed, and decoding it gives back the segment.
pub proof fn lemma_decode_encoding(s: SegmentView, checksum: u16)
    ensures
        framed(encoding(s, checksum)),
        header_len_of(encoding(s, checksum)) == HEADER_LEN,
        control_of(encoding(s, checksum)) == Some(s.control),
        decoding(encoding(s, checksum)) == s,
{
    let b = encoding(s, checksum);
    lemma_encoding_fields(s, checksum);
    lemma_flags_octet(s.control, s.ack is Some);
    let d = decoding(b);
    assert(d.payload =~= s.payload);
    assert(d.ack == s.ack);
}

/// The flag whose bit is `bit` is set in the octets `b`.
pub open spec fn flag(b: Seq<u8>, bit: u8) -> bool {
    (b[13] / bit) % 2 == 1
}

/// The header length in octets, from the data offset field.
pub open spec fn header_len_of(b: Seq<u8>) -> int {
    (b[12] / 16) * 4
}

/// The octets frame a TCP header: the fixed part is there, and the data
/// offset points inside the buffer, past the fixed part.
pub open spec fn framed(b: Seq<u8>) -> bool {
    &&& b.len() >= HEADER_LEN
    &&& HEADER_LEN <= header_len_of(b) <= b.len()
}

/// The control bit that the flags of `b` give, if they give one.
pub open spec fn control_of(b: Seq<u8>) -> Option<TcpControl> {
    let (syn, fin, rst, psh) = (flag(b, FLAG_SYN), flag(b, FLAG_FIN), flag(b, FLAG_RST), flag(b, FLAG_PSH));
    if !syn && !fin && !rst {
        Some(if psh { TcpControl::Psh } else { TcpControl::None })
    } else if syn && !fin && !rst {
        Some(TcpControl::Syn)
    } else if !syn && fin && !rst {
        Some(TcpControl::Fin)
    } else if !syn && !fin && rst {
        Some(TcpControl::Rst)
    } else {
        None
    }
}

/// The segment that the framed octets `b` hold.
pub open spec fn decoding(b: Seq<u8>) -> SegmentView {
    SegmentView {
        src_port: be16(b, 0),
        dst_port: be16(b, 2),
        control: control_of(b).unwrap(),
        seq: be32(b, 4),
        ack: if flag(b, FLAG_ACK) { Some(be32(b, 8)) } else { None },
        window: be16(b, 14),
        payload: b.subrange(header_len_of(b), b.len() as int),
    }
}

/// The header fields that make a segment one that smoltcp parses: both ports
/// set and a meaningful combination of control bits.
pub open spec fn parsable_fields(b: Seq<u8>) -> bool {
    &&& be16(b, 0) != 0
    &&& be16(b, 2) != 0
    &&& control_of(b) is Some
}

/// Parsing the octets of an emitted segment gives back the segment, and
/// emitting that again gives the same octets, but for the checksum field.
/// With both ports set, the octets hold what parsing asks of a header.
pub proof fn lemma_reparse_reemit(s: SegmentView, checksum: u16, checksum2: u16)
    ensures
        decoding(encoding(s, checksum)) == s,
        encoding(decoding(encoding(s, checksum)), checksum2) == encoding(s, checksum).update(
            16,
            (checksum2 / 256) as u8,
        ).update(17, (checksum2 % 256) as u8),
        s.src_port != 0 && s.dst_port != 0 ==> framed(encoding(s, checksum)) && header_len_of(
            encoding(s, checksum),
        ) == HEADER_LEN && parsable_fields(encoding(s, checksum)),
{
    lemma_decode_encoding(s, checksum);
    lemma_encoding_fields(s, checksum);
    let a = encoding(s, checksum2);
    let b = encoding(s, checksum).update(16, (checksum2 / 256) as u8).update(
        17,
        (checksum2 % 256) as u8,
    );
    assert(a =~= b);
}

/// Whether the octets frame a TCP header.
pub fn is_framed(b: &Vec<u8>) -> (r: bool)
    ensures
        r == framed(b@),
{
    b.len() >= HEADER_LEN && HEADER_LEN <= (b[12] / 16) as usize * 4 && (b[12] / 16) as usize * 4
        <= b.len()
}

/// Whether the flag whose bit is `bit` is set.
pub fn flag_set(b: &Vec<u8>, bit: u8) -> (r: bool)
    requires
        b@.len() >= HEADER_LEN,
        bit > 0,
    ensures
        r == flag(b@, bit),
{
    (b[13] / bit) % 2 == 1
}

/// The big-endian 16-bit number at `i`.
pub fn read_be16(b: &Vec<u8>, i: usize) -> (r: u16)
    requires
        i + 1 < b@.len(),
    ensures
        r == be16(b@, i as int),
{
    let _len = b.len();
    let (hi, lo) = (b[i] as u16, b[i + 1] as u16);
    assert(hi * 256 <= 0xff00) by (nonlinear_arith)
        requires
            hi <= 0xff,
    ;
    hi * 256 + lo
}

/// Whether the TCP checksum of the octets `segment`, sent from `src` to `dst`,
/// verifies against the IPv4 pseudo-header.
pub uninterp spec fn tcp_checksum_valid(src: u32, dst: u32, segment: Seq<u8>) -> bool;

/// Relies on smoltcp's `TcpRepr::parse` with default checksum capabilities: it
/// fails on a zero port, on an invalid control bit combination or on a checksum
/// that does not verify; on success the fields are those of the header and the
/// payload is what follows the header. Without options it fails on nothing else.
#[verifier::external_body]
pub(crate) fn parse_segment(b: &Vec<u8>, src: Ipv4Address, dst: Ipv4Address) -> (r: Option<Segment>)
    requires
        framed(b@),
        b@.len() <= MAX_SEGMENT,
    ensures
        r is Some ==> r.unwrap()@ == decoding(b@) && parsable_fields(b@)
            && tcp_checksum_valid(src.0, dst.0, b@),
        header_len_of(b@) == HEADER_LEN && parsable_fields(b@) && tcp_checksum_valid(src.0, dst.0, b@)
            ==> r is Some,
{
    let (s, d) = (SmolIpv4(src.0.to_be_bytes()).into(), SmolIpv4(dst.0.to_be_bytes()).into());
    let r = TcpRepr::parse(&TcpPacket::new_unchecked(b.as_slice()), &s, &d, &Default::default()).ok()?;
    Some(Segment {
        src_port: r.src_port,
        dst_port: r.dst_port,
        control: r.control,
        seq_number: SeqNumber(r.seq_number.0 as u32),
        ack_number: r.ack_number.map(|a| SeqNumber(a.0 as u32)),
        window_len: r.window_len,
        payload: r.payload.to_vec(),
    })
}

/// Relies on smoltcp's `TcpRepr::emit` with default checksum capabilities: a
/// header without options followed by the payload, the checksum filled in
/// over the IPv4 pseudo-header.
#[verifier::external_body]
pub(crate) fn emit_segment(s: &Segment, src: Ipv4Address, dst: Ipv4Address) -> (r: Vec<u8>)
    requires
        s.payload@.len() + HEADER_LEN <= MAX_SEGMENT,
    ensures
        r@ == encoding(s@, be16(r@, 16)),
        tcp_checksum_valid(src.0, dst.0, r@),
{
    let repr = TcpRepr {
        src_port: s.src_port, dst_port: s.dst_port, control: s.control,
        seq_number: TcpSeqNumber(s.seq_number.0 as i32),
        ack_number: s.ack_number.map(|a| TcpSeqNumber(a.0 as i32)),
        window_len: s.window_len, window_scale: None, max_seg_size: None,
        sack_permitted: false, sack_ranges: [None; 3], payload: &s.payload,
    };
    let mut buf = vec![0; repr.buffer_len()];
    let (sa, da) = (SmolIpv4(src.0.to_be_bytes()).into(), SmolIpv4(dst.0.to_be_bytes()).into());
    repr.emit(&mut TcpPacket::new_unchecked(&mut buf), &sa, &da, &Default::default());
    buf
}

} // verus!
