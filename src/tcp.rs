//! The connection engine: the TCB, the acceptance test of received segments,
//! segment construction, the retransmission queue, and the transitions between
//! connection states.
use vstd::prelude::*;
use std::collections::VecDeque;
use std::marker::PhantomData;
use crate::st::{Branch, Nested, Timeout};
use smoltcp::wire::TcpControl;
use crate::messages::{flags_are, Ack, FinAck, Rst, SmolMessage, Syn, SynAck};
use crate::seq::{dist, lemma_dist_add, lemma_dist_between, lemma_dist_split, seq_add, seq_le, seq_lt, SeqNumber, SEQ_HALF};
use crate::wire::{
    be16, be32, decoding, emit_segment, encoding, header_len_of, parsable_fields, HEADER_LEN, MAX_SEGMENT, lemma_decode_encoding, lemma_encoding_fields, lemma_flags_octet, flag, flag_set, framed, is_framed, parse_segment, read_be16,
    tcp_checksum_valid, Ipv4Address, Segment, SegmentView, FLAG_ACK, FLAG_FIN, FLAG_PSH,
    FLAG_RST, FLAG_SYN,
};

verus! {

/// The receive window that this endpoint advertises.
pub const RCV_WND: u16 = 1000;

/// The initial send sequence number.
pub const ISS: u32 = 123;

/// The local end of the connection.
#[derive(Clone, Copy, Debug)]
pub struct LocalAddr {
    pub addr: Ipv4Address,
    pub port: u16,
}

/// The peer of the connection, latched from its SYN.
#[derive(Clone, Copy, Debug)]
pub struct RemoteAddr {
    pub addr: Ipv4Address,
    pub port: u16,
}

/// Decides which received segments a state listens to; the others are dropped.
pub trait ChannelFilter {
    /// The segment `packet` from `from_addr` is one this state listens to.
    spec fn admits(&self, from_addr: Ipv4Address, packet: Seq<u8>) -> bool;

    fn filter(&self, from_addr: Ipv4Address, packet: &Vec<u8>) -> (r: bool)
        ensures
            r == self.admits(from_addr, packet@),
    ;
}

/// The states of a connection.
#[derive(Clone, Copy, Debug, PartialEq, Eq, Structural)]
pub enum ConnState {
    Closed,
    Listen,
    SynRcvd,
    Established,
    FinWait1,
    FinWait2,
    CloseWait,
    LastAck,
}

/// The state graph: `to` may follow `from`, staying put included.
pub open spec fn edge(from: ConnState, to: ConnState) -> bool {
    from == to || match (from, to) {
        (ConnState::Closed, ConnState::Listen) => true,
        (ConnState::Listen, ConnState::SynRcvd) => true,
        (ConnState::SynRcvd, ConnState::Established) => true,
        (ConnState::Established, ConnState::FinWait1) => true,
        (ConnState::Established, ConnState::CloseWait) => true,
        (ConnState::FinWait1, ConnState::FinWait2) => true,
        (ConnState::CloseWait, ConnState::LastAck) => true,
        _ => false,
    }
}

/// The states after the passive open, each a tag type of the connection.
pub trait TcpState {
    spec fn state() -> ConnState;

    /// Whether this is SYN-RECEIVED, where the first ACK is checked.
    fn is_syn_rcvd() -> (r: bool)
        ensures
            r == (Self::state() == ConnState::SynRcvd),
    ;
}

/// SYN-RECEIVED: our SYN+ACK is out, the peer's ACK of it is awaited.
#[derive(Clone, Copy, Debug)]
pub struct SynRcvd;

/// ESTABLISHED: data flows both ways.
#[derive(Clone, Copy, Debug)]
pub struct Established;

/// FIN-WAIT-1: our FIN is out, its ACK is awaited.
#[derive(Clone, Copy, Debug)]
pub struct FinWait1;

/// FIN-WAIT-2: our FIN is acknowledged, the peer's FIN is awaited.
#[derive(Clone, Copy, Debug)]
pub struct FinWait2;

/// CLOSE-WAIT: the peer has closed, the local close is awaited.
#[derive(Clone, Copy, Debug)]
pub struct CloseWait;

/// LAST-ACK: both sides closed, the ACK of our FIN is awaited.
#[derive(Clone, Copy, Debug)]
pub struct LastAck;

impl TcpState for SynRcvd {
    open spec fn state() -> ConnState {
        ConnState::SynRcvd
    }

    fn is_syn_rcvd() -> (r: bool) {
        true
    }
}

impl TcpState for Established {
    open spec fn state() -> ConnState {
        ConnState::Established
    }

    fn is_syn_rcvd() -> (r: bool) {
        false
    }
}

impl TcpState for FinWait1 {
    open spec fn state() -> ConnState {
        ConnState::FinWait1
    }

    fn is_syn_rcvd() -> (r: bool) {
        false
    }
}

impl TcpState for FinWait2 {
    open spec fn state() -> ConnState {
        ConnState::FinWait2
    }

    fn is_syn_rcvd() -> (r: bool) {
        false
    }
}

impl TcpState for CloseWait {
    open spec fn state() -> ConnState {
        ConnState::CloseWait
    }

    fn is_syn_rcvd() -> (r: bool) {
        false
    }
}

impl TcpState for LastAck {
    open spec fn state() -> ConnState {
        ConnState::LastAck
    }

    fn is_syn_rcvd() -> (r: bool) {
        false
    }
}

/// The transmission control block.
#[derive(Clone, Copy, Debug, PartialEq, Eq, Structural)]
pub struct Tcb {
    pub snd_una: SeqNumber,
    pub snd_nxt: SeqNumber,
    pub snd_wnd: u16,
    pub snd_wl1: SeqNumber,
    pub snd_wl2: SeqNumber,
    pub rcv_nxt: SeqNumber,
    pub rcv_wnd: u16,
}

/// `x` lies in the receive window.
pub open spec fn in_window(t: Tcb, x: u32) -> bool {
    seq_le(t.rcv_nxt.0, x) && seq_lt(x, seq_add(t.rcv_nxt.0, t.rcv_wnd as int))
}

/// The acceptance test of a segment that starts at `seq` and spans `len`.
pub open spec fn acceptable(t: Tcb, seq: u32, len: nat) -> bool {
    if len == 0 {
        if t.rcv_wnd == 0 {
            seq == t.rcv_nxt.0
        } else {
            in_window(t, seq)
        }
    } else {
        t.rcv_wnd != 0 && (in_window(t, seq) || in_window(t, seq_add(seq, len - 1)))
    }
}

/// `ack` acknowledges something that was sent and not yet acknowledged.
pub open spec fn acks_new(t: Tcb, ack: u32) -> bool {
    seq_lt(t.snd_una.0, ack) && seq_le(ack, t.snd_nxt.0)
}

/// The TCB after the ACK field `ack` of the acceptable segment `s` has been
/// processed and the segment consumed.
pub open spec fn after_ack(t: Tcb, syn_rcvd: bool, s: SegmentView, ack: u32) -> Tcb {
    let t1 = if syn_rcvd {
        Tcb { snd_wnd: s.window, snd_wl1: SeqNumber(s.seq), snd_wl2: SeqNumber(ack), ..t }
    } else {
        t
    };
    let t2 = if acks_new(t1, ack) {
        Tcb { snd_una: SeqNumber(ack), ..t1 }
    } else {
        t1
    };
    let t3 = if seq_le(t2.snd_una.0, ack) && seq_le(ack, t2.snd_nxt.0) && (seq_lt(
        t2.snd_wl1.0,
        s.seq,
    ) || (t2.snd_wl1.0 == s.seq && seq_le(t2.snd_wl2.0, ack))) {
        Tcb { snd_wnd: s.window, snd_wl1: SeqNumber(s.seq), snd_wl2: SeqNumber(ack), ..t2 }
    } else {
        t2
    };
    Tcb { rcv_nxt: SeqNumber(seq_add(s.seq, s.len() as int)), ..t3 }
}

/// What of the payload of `s` is new: the part from `rcv_nxt` on.
pub open spec fn new_payload(t: Tcb, s: SegmentView) -> Seq<u8> {
    let skip = dist(s.seq, t.rcv_nxt.0);
    if skip <= s.payload.len() {
        s.payload.subrange(skip, s.payload.len() as int)
    } else {
        Seq::empty()
    }
}

/// How the engine reacts to a received segment.
pub enum Verdict {
    /// The segment is consumed: the TCB becomes `tcb`; an ACK is sent back when
    /// `reply`; `payload` is handed to the user when not empty.
    Accept { tcb: Tcb, reply: bool, payload: Seq<u8> },
    /// The segment is refused and the TCB stays; a challenge ACK is sent when
    /// `challenge`.
    Refuse { challenge: bool },
    /// The connection ends; a RST at the given sequence number is sent, if any.
    Reset { rst_at: Option<u32> },
}

/// The reaction to the segment `s` in a state with TCB `t` (RFC 9293 §3.10.7.4).
pub open spec fn verdict(t: Tcb, syn_rcvd: bool, s: SegmentView) -> Verdict {
    if !acceptable(t, s.seq, s.len()) {
        Verdict::Refuse { challenge: s.control != TcpControl::Rst }
    } else if s.control == TcpControl::Rst {
        if s.seq == t.rcv_nxt.0 {
            Verdict::Reset { rst_at: None }
        } else {
            Verdict::Refuse { challenge: true }
        }
    } else if seq_lt(t.rcv_nxt.0, s.seq) {
        Verdict::Accept { tcb: t, reply: false, payload: Seq::empty() }
    } else if s.control == TcpControl::Syn {
        Verdict::Refuse { challenge: true }
    } else {
        match s.ack {
            None => Verdict::Refuse { challenge: false },
            Some(ack) => if syn_rcvd && !acks_new(t, ack) {
                Verdict::Reset { rst_at: Some(ack) }
            } else if !acks_new(t, ack) && seq_lt(t.snd_nxt.0, ack) {
                Verdict::Refuse { challenge: true }
            } else {
                Verdict::Accept {
                    tcb: after_ack(t, syn_rcvd, s, ack),
                    reply: s.len() > 0,
                    payload: new_payload(t, s),
                }
            },
        }
    }
}

/// The acceptance test of RFC 9293 §3.10.7.4.
fn is_seg_acceptable(t: &Tcb, seg_seq: SeqNumber, seg_len: usize) -> (r: bool)
    ensures
        r == acceptable(*t, seg_seq.0, seg_len as nat),
{
    let rcv_nxt = t.rcv_nxt;
    let wnd_end = rcv_nxt.add_len(t.rcv_wnd as usize);
    if seg_len == 0 {
        if t.rcv_wnd == 0 {
            seg_seq == rcv_nxt
        } else {
            rcv_nxt.le(seg_seq) && seg_seq.lt(wnd_end)
        }
    } else {
        if t.rcv_wnd == 0 {
            false
        } else {
            let last = seg_seq.add_len(seg_len - 1);
            (rcv_nxt.le(seg_seq) && seg_seq.lt(wnd_end)) || (rcv_nxt.le(last) && last.lt(wnd_end))
        }
    }
}

/// The segment sent from `l` to `r` that acknowledges up to `t.rcv_nxt` and
/// carries `payload`, with FIN when `fin`.
pub open spec fn ack_segment(l: LocalAddr, r: RemoteAddr, t: Tcb, payload: Seq<u8>, fin: bool) -> SegmentView {
    SegmentView {
        src_port: l.port,
        dst_port: r.port,
        control: if fin { TcpControl::Fin } else { TcpControl::None },
        seq: t.snd_nxt.0,
        ack: Some(t.rcv_nxt.0),
        window: t.rcv_wnd,
        payload,
    }
}

/// The RST without ACK sent from `l` to `r` at sequence number `seq`.
pub open spec fn rst_segment(l: LocalAddr, r: RemoteAddr, t: Tcb, seq: u32) -> SegmentView {
    SegmentView {
        src_port: l.port,
        dst_port: r.port,
        control: TcpControl::Rst,
        seq,
        ack: None,
        window: t.rcv_wnd,
        payload: Seq::empty(),
    }
}

/// `b` are the octets of `s` as emitted from `l` to `r`: laid out without
/// options, with a checksum that verifies over the IPv4 pseudo-header.
pub open spec fn emitted(l: LocalAddr, r: RemoteAddr, s: SegmentView, b: Seq<u8>) -> bool {
    b == encoding(s, be16(b, 16)) && tcp_checksum_valid(l.addr.0, r.addr.0, b)
}

/// The TCB after sending a segment of `len` in sequence space.
pub open spec fn advanced(t: Tcb, len: nat) -> Tcb {
    Tcb { snd_nxt: SeqNumber(seq_add(t.snd_nxt.0, len as int)), ..t }
}

/// Emit an ACK of everything received so far, carrying `payload`, and with FIN
/// when `fin`; the send sequence advances by the segment's length.
fn build_ack_raw(l: &LocalAddr, rm: &RemoteAddr, t: &mut Tcb, payload: Vec<u8>, fin: bool) -> (r: Vec<u8>)
    requires
        payload@.len() + HEADER_LEN <= MAX_SEGMENT,
    ensures
        *final(t) == advanced(*old(t), payload@.len() + if fin { 1nat } else { 0 }),
        emitted(*l, *rm, ack_segment(*l, *rm, *old(t), payload@, fin), r@),
        framed(r@),
        flags_are(r@, false, true, fin, false),
{
    let seg = Segment {
        src_port: l.port,
        dst_port: rm.port,
        control: if fin { TcpControl::Fin } else { TcpControl::None },
        seq_number: t.snd_nxt,
        ack_number: Some(t.rcv_nxt),
        window_len: t.rcv_wnd,
        payload,
    };
    assert(seg@ == ack_segment(*l, *rm, *old(t), seg.payload@, fin));
    let len = seg.segment_len();
    t.snd_nxt = t.snd_nxt.add_len(len);
    let r = emit_segment(&seg, l.addr, rm.addr);
    proof {
        lemma_decode_encoding(seg@, be16(r@, 16));
        lemma_encoding_fields(seg@, be16(r@, 16));
        lemma_flags_octet(seg.control, true);
    }
    r
}

/// Emit an empty ACK, or an ACK with data.
fn build_ack(l: &LocalAddr, rm: &RemoteAddr, t: &mut Tcb, payload: Vec<u8>) -> (r: Ack)
    requires
        payload@.len() + HEADER_LEN <= MAX_SEGMENT,
    ensures
        *final(t) == advanced(*old(t), payload@.len()),
        emitted(*l, *rm, ack_segment(*l, *rm, *old(t), payload@, false), r.bytes()),
{
    Ack::from_packet(build_ack_raw(l, rm, t, payload, false))
}

/// Emit a FIN with ACK.
fn build_fin(l: &LocalAddr, rm: &RemoteAddr, t: &mut Tcb) -> (r: FinAck)
    ensures
        *final(t) == advanced(*old(t), 1),
        emitted(*l, *rm, ack_segment(*l, *rm, *old(t), Seq::empty(), true), r.bytes()),
{
    let r = build_ack_raw(l, rm, t, Vec::new(), true);
    assert(Seq::<u8>::empty().len() + 1 == 1);
    FinAck::from_packet(r)
}

/// Emit a RST without ACK at `seq`.
fn build_reset(l: &LocalAddr, rm: &RemoteAddr, t: &Tcb, seq: SeqNumber) -> (r: Rst)
    ensures
        emitted(*l, *rm, rst_segment(*l, *rm, *t, seq.0), r.bytes()),
{
    let seg = Segment {
        src_port: l.port,
        dst_port: rm.port,
        control: TcpControl::Rst,
        seq_number: seq,
        ack_number: None,
        window_len: t.rcv_wnd,
        payload: Vec::new(),
    };
    assert(seg@ == rst_segment(*l, *rm, *t, seq.0)) by {
        assert(seg.payload@ =~= Seq::<u8>::empty());
    }
    let r = emit_segment(&seg, l.addr, rm.addr);
    proof {
        lemma_decode_encoding(seg@, be16(r@, 16));
        lemma_encoding_fields(seg@, be16(r@, 16));
        lemma_flags_octet(seg.control, false);
    }
    Rst::from_packet(r)
}

/// How a received segment was taken, with the segments to send back.
pub enum ReactionInner {
    /// Consumed: the ACK to send back, if any, and the new payload, if any.
    Acceptable(Option<Ack>, Option<Vec<u8>>),
    /// Refused: the challenge ACK to send back, if any.
    NotAcceptable(Option<Ack>),
    /// The connection is reset: the RST to send back, if any.
    Reset(Option<Rst>),
}

/// `p` hands over `payload` exactly, and only when there is some.
pub open spec fn delivers(p: Option<Vec<u8>>, payload: Seq<u8>) -> bool {
    match p {
        Some(v) => v@ == payload && payload.len() > 0,
        None => payload.len() == 0,
    }
}

/// The TCB once the verdict `v`, taken on `before`, is carried out.
pub open spec fn tcb_after(v: Verdict, before: Tcb) -> Tcb {
    match v {
        Verdict::Accept { tcb, .. } => tcb,
        _ => before,
    }
}

/// `r` carries out the verdict `v` taken on the TCB `before`: the segments it
/// holds are those the verdict asks for, as emitted from `l` to `rm`.
pub open spec fn reacts(r: ReactionInner, v: Verdict, l: LocalAddr, rm: RemoteAddr, before: Tcb) -> bool {
    match v {
        Verdict::Accept { tcb, reply, payload } => match r {
            ReactionInner::Acceptable(a, p) => delivers(p, payload) && match a {
                Some(a) => reply && emitted(l, rm, ack_segment(l, rm, tcb, Seq::empty(), false), a.bytes()),
                None => !reply,
            },
            _ => false,
        },
        Verdict::Refuse { challenge } => match r {
            ReactionInner::NotAcceptable(a) => match a {
                Some(a) => challenge && emitted(l, rm, ack_segment(l, rm, before, Seq::empty(), false), a.bytes()),
                None => !challenge,
            },
            _ => false,
        },
        Verdict::Reset { rst_at } => match r {
            ReactionInner::Reset(x) => match (x, rst_at) {
                (None, None) => true,
                (Some(x), Some(s)) => emitted(l, rm, rst_segment(l, rm, before, s), x.bytes()),
                _ => false,
            },
            _ => false,
        },
    }
}

/// `r` refuses a segment without an answer.
pub open spec fn refused_silently(r: ReactionInner) -> bool {
    match r {
        ReactionInner::NotAcceptable(None) => true,
        _ => false,
    }
}

/// The octets of `v` from `start` on.
fn tail_from(v: &Vec<u8>, start: usize) -> (r: Vec<u8>)
    requires
        start <= v@.len(),
    ensures
        r@ == v@.subrange(start as int, v@.len() as int),
{
    let mut r: Vec<u8> = Vec::new();
    let mut i: usize = start;
    while i < v.len()
        invariant
            start <= i <= v@.len(),
            r@ == v@.subrange(start as int, i as int),
        decreases v@.len() - i,
    {
        r.push(v[i]);
        i = i + 1;
        assert(r@ =~= v@.subrange(start as int, i as int));
    }
    r
}

fn is_rst(c: TcpControl) -> (r: bool)
    ensures
        r == (c == TcpControl::Rst),
{
    match c {
        TcpControl::Rst => true,
        _ => false,
    }
}

/// Take the received segment `seg` on the TCB `t`: the acceptance test, RST and
/// SYN handling, the ACK field, the window update and the advance of
/// `rcv_nxt`, as RFC 9293 §3.10.7.4 orders them.
#[verifier::rlimit(40)]
fn react(l: &LocalAddr, rm: &RemoteAddr, t: &mut Tcb, syn_rcvd: bool, seg: &Segment) -> (r: ReactionInner)
    requires
        seq_le(old(t).snd_una.0, old(t).snd_nxt.0),
        seg.payload@.len() + HEADER_LEN <= usize::MAX,
    ensures
        reacts(r, verdict(*old(t), syn_rcvd, seg@), *l, *rm, *old(t)),
        *final(t) == tcb_after(verdict(*old(t), syn_rcvd, seg@), *old(t)),
        final(t).snd_nxt == old(t).snd_nxt,
        final(t).snd_una != old(t).snd_una ==> acks_new(*old(t), final(t).snd_una.0),
{
    let ghost t0 = *t;
    let seg_len = seg.segment_len();
    if !is_seg_acceptable(t, seg.seq_number, seg_len) {
        let reply = if is_rst(seg.control) {
            None
        } else {
            Some(build_ack(l, rm, t, Vec::new()))
        };
        return ReactionInner::NotAcceptable(reply);
    }
    if is_rst(seg.control) {
        if seg.seq_number == t.rcv_nxt {
            return ReactionInner::Reset(None);
        }
        return ReactionInner::NotAcceptable(Some(build_ack(l, rm, t, Vec::new())));
    }
    if t.rcv_nxt.lt(seg.seq_number) {
        // a gap before the segment: nothing of it is taken
        return ReactionInner::Acceptable(None, None);
    }
    let skip = t.rcv_nxt.distance_from(seg.seq_number);
    let payload = if skip <= seg.payload.len() {
        tail_from(&seg.payload, skip)
    } else {
        Vec::new()
    };
    assert(payload@ == new_payload(t0, seg@)) by {
        if skip > seg.payload@.len() {
            assert(payload@ =~= Seq::<u8>::empty());
        }
    }
    if let TcpControl::Syn = seg.control {
        return ReactionInner::NotAcceptable(Some(build_ack(l, rm, t, Vec::new())));
    }
    match seg.ack_number {
        Some(ack) => {
            if syn_rcvd {
                if t.snd_una.lt(ack) && ack.le(t.snd_nxt) {
                    t.snd_wnd = seg.window_len;
                    t.snd_wl1 = seg.seq_number;
                    t.snd_wl2 = ack;
                } else {
                    return ReactionInner::Reset(Some(build_reset(l, rm, t, ack)));
                }
            }
            if t.snd_una.lt(ack) && ack.le(t.snd_nxt) {
                t.snd_una = ack;
            } else if t.snd_nxt.lt(ack) {
                return ReactionInner::NotAcceptable(Some(build_ack(l, rm, t, Vec::new())));
            }
            if t.snd_una.le(ack) && ack.le(t.snd_nxt) {
                if t.snd_wl1.lt(seg.seq_number) || (t.snd_wl1 == seg.seq_number && t.snd_wl2.le(ack)) {
                    t.snd_wnd = seg.window_len;
                    t.snd_wl1 = seg.seq_number;
                    t.snd_wl2 = ack;
                }
            }
            t.rcv_nxt = seg.seq_number.add_len(seg_len);
            let reply = if seg_len > 0 {
                Some(build_ack(l, rm, t, Vec::new()))
            } else {
                None
            };
            let data = if payload.len() > 0 {
                Some(payload)
            } else {
                None
            };
            ReactionInner::Acceptable(reply, data)
        },
        None => ReactionInner::NotAcceptable(None),
    }
}

/// A data segment that was sent and is not yet acknowledged.
pub struct Unacked {
    pub seq: SeqNumber,
    pub len: usize,
    pub packet: Vec<u8>,
}

/// Where an unacknowledged segment ends in sequence space.
pub open spec fn end_of(e: Unacked) -> u32 {
    seq_add(e.seq.0, e.len as int)
}

/// What a connection holds.
pub struct TcpView {
    pub local: LocalAddr,
    pub remote: RemoteAddr,
    pub tcb: Tcb,
    pub queue: Seq<Unacked>,
}

/// Each queued segment ends past `una` and no further than `nxt`, and the
/// queue is ordered by where its segments end.
pub open spec fn queue_ordered(q: Seq<Unacked>, una: u32, nxt: u32) -> bool {
    &&& forall|i: int|
        0 <= i < q.len() ==> 0 < dist(una, #[trigger] end_of(q[i])) <= dist(una, nxt)
    &&& forall|i: int, j: int|
        0 <= i < j < q.len() ==> dist(una, #[trigger] end_of(q[i])) <= dist(
            una,
            #[trigger] end_of(q[j]),
        )
}

impl TcpView {
    /// The invariant of a connection.
    pub open spec fn wf(self) -> bool {
        &&& seq_le(self.tcb.snd_una.0, self.tcb.snd_nxt.0)
        &&& self.tcb.rcv_wnd == RCV_WND
        &&& queue_ordered(self.queue, self.tcb.snd_una.0, self.tcb.snd_nxt.0)
        &&& forall|i: int|
            0 <= i < self.queue.len() ==> {
                let p = (#[trigger] self.queue[i]).packet@;
                &&& be32(p, 4) == self.queue[i].seq.0
                &&& p.len() == HEADER_LEN + self.queue[i].len
                &&& framed(p)
                &&& flags_are(p, false, true, false, false)
                &&& tcp_checksum_valid(self.local.addr.0, self.remote.addr.0, p)
            }
    }
}

/// The queue `q1` is what is left of `q0` once the segments that end no later
/// than `una` are taken from its front.
pub open spec fn drops_acked(q0: Seq<Unacked>, q1: Seq<Unacked>, una: u32) -> bool {
    &&& q1.len() <= q0.len()
    &&& q1 == q0.subrange(q0.len() - q1.len(), q0.len() as int)
    &&& forall|i: int| 0 <= i < q0.len() - q1.len() ==> seq_le(#[trigger] end_of(q0[i]), una)
}

/// Take from the front of the queue the segments that `una` acknowledges, now
/// that it moved on from `una0`.
fn drop_acked(q: &mut VecDeque<Unacked>, Ghost(una0): Ghost<u32>, una: SeqNumber, Ghost(nxt): Ghost<u32>)
    requires
        queue_ordered(old(q)@, una0, nxt),
        seq_le(una0, nxt),
        seq_lt(una0, una.0),
        seq_le(una.0, nxt),
    ensures
        queue_ordered(final(q)@, una.0, nxt),
        drops_acked(old(q)@, final(q)@, una.0),
{
    let ghost q0 = q@;
    if q.len() == 0 {
        assert(q@ =~= q0.subrange(0, 0));
        return;
    }
    proof {
        assert(0 < dist(una0, end_of(q0[0])));
        lemma_dist_between(una0, una.0, nxt);
    }
    while q.len() > 0
        invariant
            queue_ordered(q0, una0, nxt),
            0 < dist(una0, nxt),
            dist(una0, una.0) <= dist(una0, nxt),
            q@.len() <= q0.len(),
            q@ == q0.subrange(q0.len() - q@.len(), q0.len() as int),
            forall|i: int| 0 <= i < q0.len() - q@.len() ==> seq_le(#[trigger] end_of(q0[i]), una.0),
        ensures
            q@.len() <= q0.len(),
            q@ == q0.subrange(q0.len() - q@.len(), q0.len() as int),
            forall|i: int| 0 <= i < q0.len() - q@.len() ==> seq_le(#[trigger] end_of(q0[i]), una.0),
            q@.len() > 0 ==> !seq_le(end_of(q@[0]), una.0),
        decreases q@.len(),
    {
        let head_end = q[0].seq.add_len(q[0].len);
        if head_end.le(una) {
            let ghost k = q0.len() - q@.len();
            assert(q0[k] == q@[0]);
            q.pop_front();
            assert(q@ =~= q0.subrange(q0.len() - q@.len(), q0.len() as int));
        } else {
            break;
        }
    }
    proof {
        let q1 = q@;
        if q1.len() > 0 {
            let e = end_of(q1[0]);
            assert(q1[0] == q0[q0.len() - q1.len()]);
            if dist(una0, e) <= dist(una0, una.0) {
                lemma_dist_split(una0, e, una.0);
            }
            assert(dist(una0, una.0) < dist(una0, e));
            assert forall|i: int| 0 <= i < q1.len() implies 0 < dist(una.0, #[trigger] end_of(q1[i]))
                <= dist(una.0, nxt) by {
                assert(q1[i] == q0[q0.len() - q1.len() + i]);
                lemma_dist_split(una0, una.0, end_of(q1[i]));
                lemma_dist_split(una0, una.0, nxt);
            }
            assert forall|i: int, j: int| 0 <= i < j < q1.len() implies dist(
                una.0,
                #[trigger] end_of(q1[i]),
            ) <= dist(una.0, #[trigger] end_of(q1[j])) by {
                assert(q1[i] == q0[q0.len() - q1.len() + i]);
                assert(q1[j] == q0[q0.len() - q1.len() + j]);
                lemma_dist_split(una0, una.0, end_of(q1[i]));
                lemma_dist_split(una0, una.0, end_of(q1[j]));
            }
        }
    }
}

/// An established connection in state `S`, with its TCB and retransmission
/// queue.
pub struct Tcp<S: TcpState> {
    local: LocalAddr,
    remote: RemoteAddr,
    tcb: Tcb,
    retransmission: VecDeque<Unacked>,
    _marker: PhantomData<S>,
}

impl<S: TcpState> View for Tcp<S> {
    type V = TcpView;

    closed spec fn view(&self) -> TcpView {
        TcpView {
            local: self.local,
            remote: self.remote,
            tcb: self.tcb,
            queue: self.retransmission@,
        }
    }
}

impl<S: TcpState> Tcp<S> {
    /// The invariant of the connection.
    pub open spec fn wf(&self) -> bool {
        self@.wf()
    }

    /// The address of the peer.
    pub fn remote_addr(&self) -> (r: Ipv4Address)
        ensures
            r == self@.remote.addr,
    {
        self.remote.addr
    }

    /// A copy of the TCB.
    pub fn tcb(&self) -> (r: Tcb)
        ensures
            r == self@.tcb,
    {
        self.tcb
    }

    /// The number of sent segments that wait for their acknowledgement.
    pub fn unacked_count(&self) -> (r: usize)
        ensures
            r == self@.queue.len(),
    {
        self.retransmission.len()
    }

    /// The same connection in the state `T` that follows in the state graph.
    fn transition<T: TcpState>(self) -> (r: Tcp<T>)
        requires
            edge(S::state(), T::state()),
        ensures
            r@ == self@,
    {
        Tcp {
            local: self.local,
            remote: self.remote,
            tcb: self.tcb,
            retransmission: self.retransmission,
            _marker: PhantomData,
        }
    }

    /// Take a received segment, then drop from the retransmission queue what
    /// the segment acknowledged.
    fn accept(&mut self, seg: &Segment) -> (r: ReactionInner)
        requires
            old(self).wf(),
            seg.payload@.len() + HEADER_LEN <= usize::MAX,
        ensures
            final(self).wf(),
            final(self)@.local == old(self)@.local,
            final(self)@.remote == old(self)@.remote,
            reacts(
                r,
                verdict(old(self)@.tcb, S::state() == ConnState::SynRcvd, seg@),
                old(self)@.local,
                old(self)@.remote,
                old(self)@.tcb,
            ),
            final(self)@.tcb == tcb_after(
                verdict(old(self)@.tcb, S::state() == ConnState::SynRcvd, seg@),
                old(self)@.tcb,
            ),
            drops_acked(old(self)@.queue, final(self)@.queue, final(self)@.tcb.snd_una.0),
    {
        let old_una = self.tcb.snd_una;
        let r = react(&self.local, &self.remote, &mut self.tcb, S::is_syn_rcvd(), seg);
        if self.tcb.snd_una != old_una {
            drop_acked(&mut self.retransmission, Ghost(old_una.0), self.tcb.snd_una, Ghost(self.tcb.snd_nxt.0));
        } else {
            assert(self.retransmission@ =~= old(self).retransmission@.subrange(0, old(self).retransmission@.len() as int));
        }
        r
    }
}

/// The octets `b` received at `l` from `rm` are certain to parse: no longer
/// than an IPv4 datagram allows, a header without options, both ports set,
/// valid control bits and a checksum that verifies.
pub open spec fn parses_from(l: LocalAddr, rm: RemoteAddr, b: Seq<u8>) -> bool {
    &&& b.len() <= MAX_SEGMENT
    &&& header_len_of(b) == HEADER_LEN
    &&& parsable_fields(b)
    &&& tcp_checksum_valid(rm.addr.0, l.addr.0, b)
}

/// The octets `b` received at `l` from `rm` may parse: they fit in an IPv4
/// datagram and what parsing demands of the fixed header holds.
pub open spec fn may_parse(l: LocalAddr, rm: RemoteAddr, b: Seq<u8>) -> bool {
    &&& b.len() <= MAX_SEGMENT
    &&& framed(b)
    &&& parsable_fields(b)
    &&& tcp_checksum_valid(rm.addr.0, l.addr.0, b)
}

/// A connection that was `v` took the received octets `b` with the reaction
/// `r` and became `w`: either the segment they hold was processed, or it did
/// not parse and was dropped without an answer.
pub open spec fn received(v: TcpView, syn_rcvd: bool, b: Seq<u8>, r: ReactionInner, w: TcpView) -> bool {
    let vd = verdict(v.tcb, syn_rcvd, decoding(b));
    &&& w.local == v.local
    &&& w.remote == v.remote
    &&& {
        ||| may_parse(v.local, v.remote, b) && reacts(r, vd, v.local, v.remote, v.tcb) && w.tcb
            == tcb_after(vd, v.tcb) && drops_acked(v.queue, w.queue, w.tcb.snd_una.0)
        ||| !parses_from(v.local, v.remote, b) && refused_silently(r) && w == v
    }
}

impl<S: TcpState> Tcp<S> {
    /// Parse the received octets and take the segment they hold.
    fn receive(&mut self, b: &Vec<u8>) -> (r: ReactionInner)
        requires
            old(self).wf(),
            framed(b@),
        ensures
            final(self).wf(),
            received(old(self)@, S::state() == ConnState::SynRcvd, b@, r, final(self)@),
    {
        if b.len() > MAX_SEGMENT {
            return ReactionInner::NotAcceptable(None);
        }
        match parse_segment(b, self.remote.addr, self.local.addr) {
            Some(seg) => self.accept(&seg),
            None => ReactionInner::NotAcceptable(None),
        }
    }
}

/// A reaction to a received segment, with the connection in the state that
/// follows: `Ta` where the segment is consumed, `Tn` where it is refused.
pub enum Reaction<Ta: TcpState, Tn: TcpState> {
    Acceptable(Tcp<Ta>, Option<Ack>, Option<Vec<u8>>),
    NotAcceptable(Tcp<Tn>, Option<Ack>),
    Reset(Option<Rst>),
}

/// The connection `v`, in a state where `syn_rcvd` tells whether it is
/// SYN-RECEIVED, took the received octets `b` with the reaction `r`.
pub open spec fn outcome<Ta: TcpState, Tn: TcpState>(v: TcpView, syn_rcvd: bool, b: Seq<u8>, r: Reaction<Ta, Tn>) -> bool {
    match r {
        Reaction::Acceptable(t, a, p) => t.wf() && received(v, syn_rcvd, b, ReactionInner::Acceptable(a, p), t@),
        Reaction::NotAcceptable(t, a) => t.wf() && received(v, syn_rcvd, b, ReactionInner::NotAcceptable(a), t@),
        Reaction::Reset(x) => exists|w: TcpView| received(v, syn_rcvd, b, ReactionInner::Reset(x), w),
    }
}

impl<Ta: TcpState, Tn: TcpState> Reaction<Ta, Tn> {
    fn from_inner(inner: ReactionInner, tcp: Tcp<Tn>) -> (r: Reaction<Ta, Tn>)
        requires
            edge(Tn::state(), Ta::state()),
            tcp.wf(),
        ensures
            match (inner, r) {
                (ReactionInner::Acceptable(a, p), Reaction::Acceptable(t, a2, p2)) => t@ == tcp@ && a2 == a && p2 == p && t.wf(),
                (ReactionInner::NotAcceptable(a), Reaction::NotAcceptable(t, a2)) => t@ == tcp@ && a2 == a && t.wf(),
                (ReactionInner::Reset(x), Reaction::Reset(y)) => x == y,
                _ => false,
            },
    {
        match inner {
            ReactionInner::Acceptable(response, data) => Reaction::Acceptable(tcp.transition(), response, data),
            ReactionInner::NotAcceptable(response) => Reaction::NotAcceptable(tcp, response),
            ReactionInner::Reset(response) => Reaction::Reset(response),
        }
    }

    /// The connection, when the segment was consumed with nothing to send back
    /// and nothing to hand to the user.
    pub fn empty_acceptable(self) -> (r: Option<Tcp<Ta>>)
        ensures
            match self {
                Reaction::Acceptable(t, None, None) => r == Some(t),
                _ => r is None,
            },
    {
        match self {
            Reaction::Acceptable(tcp, None, None) => Some(tcp),
            _ => None,
        }
    }
}

impl<S: TcpState> Tcp<S> {
    /// Take a received segment in a state where consuming it leads to `T`.
    fn take<T: TcpState, M: SmolMessage>(self, m: &M) -> (r: Reaction<T, S>)
        requires
            self.wf(),
            edge(S::state(), T::state()),
        ensures
            outcome(self@, S::state() == ConnState::SynRcvd, m.bytes(), r),
    {
        let ghost v = self@;
        let mut tcp = self;
        let inner = tcp.receive(m.packet());
        let ghost g = inner;
        let ghost w = tcp@;
        let r = Reaction::from_inner(inner, tcp);
        assert(received(v, S::state() == ConnState::SynRcvd, m.bytes(), g, w));
        r
    }

    /// Append a data segment to the end of the queue, once emitted.
    fn enqueue(&mut self, seq: SeqNumber, len: usize, packet: Vec<u8>)
        requires
            old(self).wf(),
            len > 0,
            old(self).tcb.snd_nxt.0 == seq_add(seq.0, len as int),
            dist(old(self).tcb.snd_una.0, seq.0) + len == dist(old(self).tcb.snd_una.0, old(self).tcb.snd_nxt.0),
            be32(packet@, 4) == seq.0,
            packet@.len() == HEADER_LEN + len,
            framed(packet@),
            flags_are(packet@, false, true, false, false),
            tcp_checksum_valid(old(self).local.addr.0, old(self).remote.addr.0, packet@),
        ensures
            final(self)@ == (TcpView {
                queue: old(self)@.queue.push(Unacked { seq, len, packet }),
                ..old(self)@
            }),
            final(self).wf(),
    {
        let ghost q0 = self.retransmission@;
        let e = Unacked { seq, len, packet };
        self.retransmission.push_back(e);
        assert(end_of(e) == self.tcb.snd_nxt.0);
        assert forall|i: int| 0 <= i < self.retransmission@.len() implies #[trigger] self.retransmission@[i] == if i < q0.len() { q0[i] } else { e } by {}
    }

    /// Emit `data` in an ACK and keep it for retransmission.
    fn send_data(&mut self, data: &[u8]) -> (r: Ack)
        requires
            old(self).wf(),
            dist(old(self)@.tcb.snd_una.0, old(self)@.tcb.snd_nxt.0) + data@.len() <= SEQ_HALF,
            data@.len() + HEADER_LEN <= MAX_SEGMENT,
        ensures
            final(self).wf(),
            sent(old(self)@, data@, r, final(self)@),
    {
        let v = vstd::slice::slice_to_vec(data);
        let len = v.len();
        let seq = self.tcb.snd_nxt;
        let ghost t0 = self.tcb;
        let ghost data = v@;
        let ack = build_ack(&self.local, &self.remote, &mut self.tcb, v);
        proof {
            lemma_dist_add(t0.snd_una.0, t0.snd_nxt.0, len as int);
            let b = ack.bytes();
            lemma_encoding_fields(ack_segment(self.local, self.remote, t0, data, false), be16(b, 16));
        }
        if len > 0 {
            let p = ack.packet().clone();
            self.enqueue(seq, len, p);
        }
        ack
    }
}

/// A connection that was `v` sent `data` in the ACK `a` and became `w`: the
/// send sequence advanced past the data, and a segment with data waits in the
/// retransmission queue.
pub open spec fn sent(v: TcpView, data: Seq<u8>, a: Ack, w: TcpView) -> bool {
    &&& emitted(v.local, v.remote, ack_segment(v.local, v.remote, v.tcb, data, false), a.bytes())
    &&& w.local == v.local
    &&& w.remote == v.remote
    &&& w.tcb == advanced(v.tcb, data.len())
    &&& w.queue == if data.len() > 0 {
        v.queue.push(Unacked { seq: v.tcb.snd_nxt, len: data.len() as usize, packet: w.queue.last().packet })
    } else {
        v.queue
    }
    &&& data.len() > 0 ==> w.queue.last().packet@ == a.bytes()
}

/// What a reply-bearing reaction sends back when it consumed the segment.
pub open spec fn reply_of(r: ReactionInner) -> Option<Ack> {
    match r {
        ReactionInner::Acceptable(Some(a), _) => Some(a),
        _ => None,
    }
}

/// The reaction consumed the segment with nothing to send back and nothing to
/// hand to the user.
pub open spec fn consumed_quietly(r: ReactionInner) -> bool {
    match r {
        ReactionInner::Acceptable(None, None) => true,
        _ => false,
    }
}

/// The connection before it is opened.
pub struct TcpClosed;

impl TcpClosed {
    pub fn new() -> Self {
        TcpClosed {  }
    }

    /// Listen passively on `local`.
    pub fn open(self, local: LocalAddr) -> (r: TcpListen)
        ensures
            r.local_addr() == local,
    {
        TcpListen { local }
    }
}

/// A passive open, waiting for a SYN.
pub struct TcpListen {
    local: LocalAddr,
}

/// The TCB created from the SYN `s`, once our SYN+ACK is sent.
pub open spec fn initial_tcb(s: SegmentView) -> Tcb {
    Tcb {
        rcv_nxt: SeqNumber(seq_add(s.seq, 1)),
        rcv_wnd: RCV_WND,
        snd_wl1: SeqNumber(s.seq),
        snd_wl2: SeqNumber(ISS),
        snd_una: SeqNumber(ISS),
        snd_nxt: SeqNumber(seq_add(ISS, 1)),
        snd_wnd: s.window,
    }
}

/// The SYN+ACK that answers a SYN whose TCB became `t`.
pub open spec fn syn_ack_segment(l: LocalAddr, r: RemoteAddr, t: Tcb) -> SegmentView {
    SegmentView {
        src_port: l.port,
        dst_port: r.port,
        control: TcpControl::Syn,
        seq: ISS,
        ack: Some(t.rcv_nxt.0),
        window: t.rcv_wnd,
        payload: Seq::empty(),
    }
}

impl TcpListen {
    /// Where this endpoint listens.
    pub closed spec fn local_addr(&self) -> LocalAddr {
        self.local
    }

    /// Take a SYN from `remote`: create the TCB, latch the peer and answer
    /// with SYN+ACK. Nothing happens when the SYN does not parse.
    pub fn recv_syn(self, remote: Ipv4Address, syn: &Syn) -> (r: Option<(Tcp<SynRcvd>, SynAck)>)
        ensures
            match r {
                Some((tcp, synack)) => {
                    let s = decoding(syn.bytes());
                    let rm = RemoteAddr { addr: remote, port: s.src_port };
                    &&& may_parse(self.local_addr(), rm, syn.bytes())
                    &&& tcp.wf()
                    &&& tcp@ == TcpView {
                        local: self.local_addr(),
                        remote: rm,
                        tcb: initial_tcb(s),
                        queue: Seq::empty(),
                    }
                    &&& emitted(self.local_addr(), rm, syn_ack_segment(self.local_addr(), rm, initial_tcb(s)), synack.bytes())
                },
                None => true,
            },
            parses_from(self.local_addr(), RemoteAddr { addr: remote, port: 0 }, syn.bytes()) ==> r is Some,
    {
        let b = syn.packet();
        if b.len() > MAX_SEGMENT {
            return None;
        }
        let seg = match parse_segment(b, remote, self.local.addr) {
            Some(seg) => seg,
            None => return None,
        };
        let iss = SeqNumber(ISS);
        let mut tcb = Tcb {
            rcv_nxt: seg.seq_number.add_len(1),
            rcv_wnd: RCV_WND,
            snd_wl1: seg.seq_number,
            snd_wl2: iss,
            snd_una: iss,
            snd_nxt: iss,
            snd_wnd: seg.window_len,
        };
        let resp = Segment {
            src_port: self.local.port,
            dst_port: seg.src_port,
            control: TcpControl::Syn,
            seq_number: iss,
            ack_number: Some(tcb.rcv_nxt),
            window_len: tcb.rcv_wnd,
            payload: Vec::new(),
        };
        tcb.snd_nxt = tcb.snd_nxt.add_len(resp.segment_len());
        let remote = RemoteAddr { addr: remote, port: seg.src_port };
        let bytes = emit_segment(&resp, self.local.addr, remote.addr);
        proof {
            assert(resp@ == syn_ack_segment(self.local, remote, tcb)) by {
                assert(resp.payload@ =~= Seq::<u8>::empty());
            }
            lemma_decode_encoding(resp@, be16(bytes@, 16));
            lemma_encoding_fields(resp@, be16(bytes@, 16));
            lemma_flags_octet(resp.control, true);
        }
        let tcp = Tcp {
            local: self.local,
            remote,
            tcb,
            retransmission: VecDeque::new(),
            _marker: PhantomData,
        };
        Some((tcp, SynAck::from_packet(bytes)))
    }
}

impl ChannelFilter for TcpListen {
    /// Only a pure SYN: no ACK, RST, FIN or PSH with it.
    open spec fn admits(&self, from_addr: Ipv4Address, b: Seq<u8>) -> bool {
        framed(b) && flags_are(b, true, false, false, false) && !flag(b, FLAG_PSH)
    }

    fn filter(&self, from_addr: Ipv4Address, packet: &Vec<u8>) -> (r: bool) {
        is_framed(packet) && flag_set(packet, FLAG_SYN) && !flag_set(packet, FLAG_ACK) && !flag_set(
            packet,
            FLAG_RST,
        ) && !flag_set(packet, FLAG_FIN) && !flag_set(packet, FLAG_PSH)
    }
}

impl<S: TcpState> ChannelFilter for Tcp<S> {
    /// Only segments from the latched peer, between the two ports of the
    /// connection.
    open spec fn admits(&self, from_addr: Ipv4Address, b: Seq<u8>) -> bool {
        &&& framed(b)
        &&& from_addr == self@.remote.addr
        &&& be16(b, 2) == self@.local.port
        &&& be16(b, 0) == self@.remote.port
    }

    fn filter(&self, from_addr: Ipv4Address, packet: &Vec<u8>) -> (r: bool) {
        if from_addr != self.remote.addr {
            return false;
        }
        is_framed(packet) && read_be16(packet, 2) == self.local.port && read_be16(packet, 0)
            == self.remote.port
    }
}

impl Tcp<SynRcvd> {
    /// Take the peer's ACK of our SYN.
    pub fn recv_ack(self, ack: &Ack) -> (r: Reaction<Established, SynRcvd>)
        requires
            self.wf(),
        ensures
            outcome(self@, true, ack.bytes(), r),
    {
        self.take(ack)
    }
}

impl Tcp<Established> {
    /// Take an ACK, with or without data.
    pub fn recv(self, ack: &Ack) -> (r: Reaction<Established, Established>)
        requires
            self.wf(),
        ensures
            outcome(self@, false, ack.bytes(), r),
    {
        self.take(ack)
    }

    /// Take the peer's FIN.
    pub fn recv_fin(self, fin: &FinAck) -> (r: Reaction<CloseWait, Established>)
        requires
            self.wf(),
        ensures
            outcome(self@, false, fin.bytes(), r),
    {
        self.take(fin)
    }

    /// Send `data` and keep it for retransmission until it is acknowledged.
    /// The data fits in one IPv4 datagram, and no more than half the sequence
    /// space may be in flight.
    pub fn send(&mut self, data: &[u8]) -> (r: Ack)
        requires
            old(self).wf(),
            dist(old(self)@.tcb.snd_una.0, old(self)@.tcb.snd_nxt.0) + data@.len() <= SEQ_HALF,
            data@.len() + HEADER_LEN <= MAX_SEGMENT,
        ensures
            final(self).wf(),
            sent(old(self)@, data@, r, final(self)@),
    {
        self.send_data(data)
    }

    /// Close our side: send FIN and wait for its ACK.
    pub fn close(self) -> (r: (Tcp<FinWait1>, FinAck))
        requires
            self.wf(),
            dist(self@.tcb.snd_una.0, self@.tcb.snd_nxt.0) < SEQ_HALF,
        ensures
            closed(self@, r.1, r.0@),
            r.0.wf(),
    {
        let (tcp, fin) = self.send_fin();
        (tcp.transition(), fin)
    }

    /// The oldest segment that is not acknowledged, to be sent again.
    pub fn retransmission(&self) -> (r: Option<Ack>)
        requires
            self.wf(),
        ensures
            match r {
                Some(a) => {
                    &&& self@.queue.len() > 0
                    &&& a.bytes() == self@.queue[0].packet@
                    &&& be32(a.bytes(), 4) == self@.queue[0].seq.0
                    &&& a.bytes().len() == HEADER_LEN + self@.queue[0].len
                },
                None => self@.queue.len() == 0,
            },
    {
        if self.retransmission.len() == 0 {
            None
        } else {
            let p = self.retransmission[0].packet.clone();
            Some(Ack::from_packet(p))
        }
    }
}

/// A connection that was `v` sent its FIN in `f` and became `w`.
pub open spec fn closed(v: TcpView, f: FinAck, w: TcpView) -> bool {
    &&& emitted(v.local, v.remote, ack_segment(v.local, v.remote, v.tcb, Seq::empty(), true), f.bytes())
    &&& w == TcpView { tcb: advanced(v.tcb, 1), ..v }
}

impl<S: TcpState> Tcp<S> {
    fn send_fin(self) -> (r: (Tcp<S>, FinAck))
        requires
            self.wf(),
            dist(self@.tcb.snd_una.0, self@.tcb.snd_nxt.0) < SEQ_HALF,
        ensures
            closed(self@, r.1, r.0@),
            r.0.wf(),
    {
        let mut tcp = self;
        let ghost t0 = tcp.tcb;
        let fin = build_fin(&tcp.local, &tcp.remote, &mut tcp.tcb);
        proof {
            lemma_dist_add(t0.snd_una.0, t0.snd_nxt.0, 1);
        }
        (tcp, fin)
    }
}

impl Tcp<FinWait1> {
    /// Take the ACK of our FIN.
    pub fn recv(self, ack: &Ack) -> (r: Reaction<FinWait2, FinWait1>)
        requires
            self.wf(),
        ensures
            outcome(self@, false, ack.bytes(), r),
    {
        self.take(ack)
    }

    /// Take the peer's FIN, which acknowledges ours too, and answer it.
    /// `None` when it called for no answer.
    pub fn recv_fin(self, fin: &FinAck) -> (r: Option<Ack>)
        requires
            self.wf(),
        ensures
            exists|inner: ReactionInner, w: TcpView|
                received(self@, false, fin.bytes(), inner, w) && r == reply_of(inner),
    {
        let mut tcp = self;
        let inner = tcp.receive(fin.packet());
        let ghost g = inner;
        let r = match inner {
            ReactionInner::Acceptable(Some(a), _) => Some(a),
            _ => None,
        };
        assert(r == reply_of(g));
        r
    }
}

impl Tcp<FinWait2> {
    /// Take an ACK, whose data is dropped, and answer it. `None` when the
    /// segment called for no answer, a shape the choreography leaves out.
    pub fn recv_ack(&mut self, ack: &Ack) -> (r: Option<Ack>)
        requires
            old(self).wf(),
        ensures
            final(self).wf(),
            exists|inner: ReactionInner|
                received(old(self)@, false, ack.bytes(), inner, final(self)@) && r == reply_of(inner),
    {
        let inner = self.receive(ack.packet());
        let ghost g = inner;
        let r = match inner {
            ReactionInner::Acceptable(Some(a), _) => Some(a),
            _ => None,
        };
        assert(r == reply_of(g));
        r
    }

    /// Take the peer's FIN and answer it. `None` when it called for no answer.
    pub fn recv_fin(self, fin: &FinAck) -> (r: Option<Ack>)
        requires
            self.wf(),
        ensures
            exists|inner: ReactionInner, w: TcpView|
                received(self@, false, fin.bytes(), inner, w) && r == reply_of(inner),
    {
        let mut tcp = self;
        let inner = tcp.receive(fin.packet());
        let ghost g = inner;
        let r = match inner {
            ReactionInner::Acceptable(Some(a), _) => Some(a),
            _ => None,
        };
        assert(r == reply_of(g));
        r
    }
}

impl Tcp<CloseWait> {
    /// Take the ACK of data we sent; whether it was consumed with no answer
    /// and no data, the one shape the choreography has here.
    pub fn recv_ack(&mut self, ack: &Ack) -> (r: bool)
        requires
            old(self).wf(),
        ensures
            final(self).wf(),
            exists|inner: ReactionInner|
                received(old(self)@, false, ack.bytes(), inner, final(self)@) && r == consumed_quietly(inner),
    {
        let inner = self.receive(ack.packet());
        let ghost g = inner;
        let r = match inner {
            ReactionInner::Acceptable(None, None) => true,
            _ => false,
        };
        assert(r == consumed_quietly(g));
        r
    }

    /// Send `data` and keep it for retransmission until it is acknowledged.
    /// The data fits in one IPv4 datagram, and no more than half the sequence
    /// space may be in flight.
    pub fn send(&mut self, data: &[u8]) -> (r: Ack)
        requires
            old(self).wf(),
            dist(old(self)@.tcb.snd_una.0, old(self)@.tcb.snd_nxt.0) + data@.len() <= SEQ_HALF,
            data@.len() + HEADER_LEN <= MAX_SEGMENT,
        ensures
            final(self).wf(),
            sent(old(self)@, data@, r, final(self)@),
    {
        self.send_data(data)
    }

    /// Close our side too: send FIN and wait for its ACK.
    pub fn close(self) -> (r: (Tcp<LastAck>, FinAck))
        requires
            self.wf(),
            dist(self@.tcb.snd_una.0, self@.tcb.snd_nxt.0) < SEQ_HALF,
        ensures
            closed(self@, r.1, r.0@),
            r.0.wf(),
    {
        let (tcp, fin) = self.send_fin();
        (tcp.transition(), fin)
    }
}

impl Tcp<LastAck> {
    /// Take the ACK of our FIN; whether it was consumed with no answer and no
    /// data, which ends the connection.
    pub fn recv_ack(self, ack: &Ack) -> (r: bool)
        requires
            self.wf(),
        ensures
            exists|inner: ReactionInner, w: TcpView|
                received(self@, false, ack.bytes(), inner, w) && r == consumed_quietly(inner),
    {
        let mut tcp = self;
        let inner = tcp.receive(ack.packet());
        let ghost g = inner;
        let r = match inner {
            ReactionInner::Acceptable(None, None) => true,
            _ => false,
        };
        assert(r == consumed_quietly(g));
        r
    }
}

/// A snapshot of a connection, for classifying a received segment without
/// touching the connection itself.
pub struct TcpForPicker<S: TcpState> {
    local: LocalAddr,
    remote: RemoteAddr,
    tcb: Tcb,
    _marker: PhantomData<S>,
}

impl<S: TcpState> View for TcpForPicker<S> {
    type V = (LocalAddr, RemoteAddr, Tcb);

    closed spec fn view(&self) -> (LocalAddr, RemoteAddr, Tcb) {
        (self.local, self.remote, self.tcb)
    }
}

impl<S: TcpState> Tcp<S> {
    /// A snapshot for a picker.
    pub fn for_picker(&self) -> (r: TcpForPicker<S>)
        requires
            self.wf(),
        ensures
            r@ == (self@.local, self@.remote, self@.tcb),
    {
        TcpForPicker { local: self.local, remote: self.remote, tcb: self.tcb, _marker: PhantomData }
    }
}

/// `r` is how a connection at `l`, with peer `rm` and TCB `t`, reacts to the
/// received octets `b`: by the verdict on the segment they hold, or, where
/// they do not parse, by dropping them without an answer.
pub open spec fn classified(l: LocalAddr, rm: RemoteAddr, t: Tcb, syn_rcvd: bool, b: Seq<u8>, r: ReactionInner) -> bool {
    ||| may_parse(l, rm, b) && reacts(r, verdict(t, syn_rcvd, decoding(b)), l, rm, t)
    ||| !(framed(b) && parses_from(l, rm, b)) && refused_silently(r)
}

/// The received octets `b` parse and the segment is consumed, handing over
/// payload when `with_data` and none otherwise.
pub open spec fn taken(l: LocalAddr, rm: RemoteAddr, t: Tcb, syn_rcvd: bool, b: Seq<u8>, with_data: bool) -> bool {
    &&& may_parse(l, rm, b)
    &&& match verdict(t, syn_rcvd, decoding(b)) {
        Verdict::Accept { payload, .. } => (payload.len() > 0) == with_data,
        _ => false,
    }
}

/// The segment held in `b`, if it certainly parses, is refused or resets the
/// connection.
pub open spec fn not_taken(l: LocalAddr, rm: RemoteAddr, t: Tcb, syn_rcvd: bool, b: Seq<u8>) -> bool {
    framed(b) && parses_from(l, rm, b) ==> !(verdict(t, syn_rcvd, decoding(b)) is Accept)
}

impl<S: TcpState> TcpForPicker<S> {
    /// How the connection would react to the parsed segment `seg`.
    pub fn accept_segment(&self, seg: &Segment) -> (r: ReactionInner)
        requires
            seq_le(self@.2.snd_una.0, self@.2.snd_nxt.0),
            seg.payload@.len() + HEADER_LEN <= usize::MAX,
        ensures
            reacts(r, verdict(self@.2, S::state() == ConnState::SynRcvd, seg@), self@.0, self@.1, self@.2),
    {
        let mut tcb = self.tcb;
        react(&self.local, &self.remote, &mut tcb, S::is_syn_rcvd(), seg)
    }

    /// How the connection would react to the received octets `packet`.
    pub fn acceptable(self, packet: &Vec<u8>) -> (r: ReactionInner)
        requires
            seq_le(self@.2.snd_una.0, self@.2.snd_nxt.0),
        ensures
            classified(self@.0, self@.1, self@.2, S::state() == ConnState::SynRcvd, packet@, r),
    {
        if !is_framed(packet) {
            return ReactionInner::NotAcceptable(None);
        }
        if packet.len() > MAX_SEGMENT {
            return ReactionInner::NotAcceptable(None);
        }
        match parse_segment(packet, self.remote.addr, self.local.addr) {
            Some(seg) => self.accept_segment(&seg),
            None => ReactionInner::NotAcceptable(None),
        }
    }
}

impl TcpForPicker<SynRcvd> {
    /// The branch of the first ACK in SYN-RECEIVED: left when it is consumed,
    /// right otherwise. `None` when the segment is not an ACK at all.
    pub fn pick_syn_rcvd(self, packet: Vec<u8>) -> (r: Option<Branch<Ack, Ack>>)
        requires
            seq_le(self@.2.snd_una.0, self@.2.snd_nxt.0),
        ensures
            match r {
                None => !(framed(packet@) && Ack::shape(packet@)),
                Some(Branch::Left(a)) => a.bytes() == packet@
                    && exists|d: bool| taken(self@.0, self@.1, self@.2, true, packet@, d),
                Some(Branch::Right(a)) => a.bytes() == packet@ && not_taken(self@.0, self@.1, self@.2, true, packet@),
            },
    {
        if !Ack::fits(&packet) {
            return None;
        }
        let ghost v = self@;
        match self.acceptable(&packet) {
            ReactionInner::Acceptable(_, d) => {
                assert(taken(v.0, v.1, v.2, true, packet@, d is Some));
                Some(Branch::Left(Ack::from_packet(packet)))
            },
            _ => Some(Branch::Right(Ack::from_packet(packet))),
        }
    }
}

/// The branches of the loop in ESTABLISHED, past the first: an empty ACK
/// that is consumed, a FIN, a refused ACK, a timeout.
pub type EstablishedRest = Nested<Ack, Nested<FinAck, Nested<Ack, Timeout>>>;

impl TcpForPicker<Established> {
    /// The branch of what arrived in ESTABLISHED: an ACK whose data is
    /// consumed; else an empty ACK that is consumed; a FIN; an ACK that is
    /// not; or, with no segment, the timeout. `None` when the segment has the
    /// shape of none of these.
    pub fn pick_established(self, packet: Option<Vec<u8>>) -> (r: Option<Branch<Ack, EstablishedRest>>)
        requires
            seq_le(self@.2.snd_una.0, self@.2.snd_nxt.0),
        ensures
            match packet {
                None => r matches Some(Branch::Right(Nested::Right(Nested::Right(Nested::Right(_))))),
                Some(p) => if framed(p@) && flag(p@, FLAG_FIN) {
                    match r {
                        Some(Branch::Right(Nested::Right(Nested::Left(f)))) => f.bytes() == p@,
                        None => !FinAck::shape(p@),
                        _ => false,
                    }
                } else {
                    match r {
                        Some(Branch::Left(a)) => a.bytes() == p@ && taken(self@.0, self@.1, self@.2, false, p@, true),
                        Some(Branch::Right(Nested::Left(a))) => a.bytes() == p@ && taken(self@.0, self@.1, self@.2, false, p@, false),
                        Some(Branch::Right(Nested::Right(Nested::Right(Nested::Left(a))))) => a.bytes() == p@
                            && not_taken(self@.0, self@.1, self@.2, false, p@),
                        None => !(framed(p@) && Ack::shape(p@)),
                        _ => false,
                    }
                },
            },
    {
        let packet = match packet {
            Some(p) => p,
            None => return Some(Branch::Right(Nested::Right(Nested::Right(Nested::Right(Timeout))))),
        };
        if is_framed(&packet) && flag_set(&packet, FLAG_FIN) {
            if !FinAck::fits(&packet) {
                return None;
            }
            return Some(Branch::Right(Nested::Right(Nested::Left(FinAck::from_packet(packet)))));
        }
        if !Ack::fits(&packet) {
            return None;
        }
        match self.acceptable(&packet) {
            ReactionInner::Acceptable(_, Some(_)) => Some(Branch::Left(Ack::from_packet(packet))),
            ReactionInner::Acceptable(_, None) => Some(Branch::Right(Nested::Left(Ack::from_packet(packet)))),
            _ => Some(Branch::Right(Nested::Right(Nested::Right(Nested::Left(Ack::from_packet(packet)))))),
        }
    }
}

/// The branch of what arrived in FIN-WAIT-2: left for an ACK, right for a
/// FIN. `None` when the segment is neither.
pub fn pick_fin_wait2(packet: Vec<u8>) -> (r: Option<Branch<Ack, FinAck>>)
    ensures
        match r {
            Some(Branch::Left(a)) => a.bytes() == packet@,
            Some(Branch::Right(f)) => f.bytes() == packet@,
            None => !(framed(packet@) && (Ack::shape(packet@) || FinAck::shape(packet@))),
        },
{
    if FinAck::fits(&packet) {
        Some(Branch::Right(FinAck::from_packet(packet)))
    } else if Ack::fits(&packet) {
        Some(Branch::Left(Ack::from_packet(packet)))
    } else {
        None
    }
}

/// In every state a connection reaches, `snd_una` comes before `snd_nxt` or
/// equals it.
pub proof fn lemma_snd_una_not_past_snd_nxt<S: TcpState>(tcp: &Tcp<S>)
    requires
        tcp.wf(),
    ensures
        seq_le(tcp@.tcb.snd_una.0, tcp@.tcb.snd_nxt.0),
{
}

/// A segment that is consumed, and does not start past `rcv_nxt`, moves
/// `rcv_nxt` to its end; what is handed to the user is its payload from the
/// old `rcv_nxt` on.
pub proof fn lemma_consumed_segment(t: Tcb, syn_rcvd: bool, s: SegmentView)
    requires
        verdict(t, syn_rcvd, s) is Accept,
        !seq_lt(t.rcv_nxt.0, s.seq),
    ensures
        match verdict(t, syn_rcvd, s) {
            Verdict::Accept { tcb, payload, .. } => {
                &&& tcb.rcv_nxt.0 == seq_add(s.seq, s.len() as int)
                &&& seq_le(s.seq, t.rcv_nxt.0)
                &&& payload == if dist(s.seq, t.rcv_nxt.0) <= s.payload.len() {
                    s.payload.subrange(dist(s.seq, t.rcv_nxt.0), s.payload.len() as int)
                } else {
                    Seq::empty()
                }
            },
            _ => false,
        },
{
}

/// Every segment in the retransmission queue ends past `snd_una`.
pub proof fn lemma_queue_past_snd_una<S: TcpState>(tcp: &Tcp<S>)
    requires
        tcp.wf(),
    ensures
        forall|i: int|
            0 <= i < tcp@.queue.len() ==> seq_lt(tcp@.tcb.snd_una.0, #[trigger] end_of(tcp@.queue[i])),
{
}

/// Each change of state that the connection offers is an edge of the state
/// graph: `open` from CLOSED, `recv_syn` from LISTEN, and the reactions and
/// closes of the states past it.
pub proof fn lemma_transitions_in_graph()
    ensures
        edge(ConnState::Closed, ConnState::Listen),
        edge(ConnState::Listen, SynRcvd::state()),
        edge(SynRcvd::state(), Established::state()),
        edge(Established::state(), Established::state()),
        edge(Established::state(), CloseWait::state()),
        edge(Established::state(), FinWait1::state()),
        edge(FinWait1::state(), FinWait2::state()),
        edge(CloseWait::state(), LastAck::state()),
{
}

/// With the fixed receive window, a FIN at `rcv_nxt` that acknowledges no
/// more than was sent is consumed past SYN-RECEIVED and answered by an ACK;
/// `rcv_nxt` moves past the FIN and its data, which is handed over whole. An
/// ACK exactly half the sequence space behind `snd_nxt` is left out: the
/// modular order then refuses it.
pub proof fn lemma_fin_at_rcv_nxt_taken(t: Tcb, s: SegmentView, ack: u32)
    requires
        seq_le(t.snd_una.0, t.snd_nxt.0),
        t.rcv_wnd == RCV_WND,
        s.control == TcpControl::Fin,
        s.seq == t.rcv_nxt.0,
        s.ack == Some(ack),
        seq_le(ack, t.snd_nxt.0),
        dist(ack, t.snd_nxt.0) < SEQ_HALF,
        s.payload.len() < RCV_WND,
    ensures
        match verdict(t, false, s) {
            Verdict::Accept { tcb, reply, payload } => {
                &&& reply
                &&& tcb.rcv_nxt.0 == seq_add(s.seq, s.len() as int)
                &&& payload == s.payload
            },
            _ => false,
        },
{
    assert(dist(s.seq, t.rcv_nxt.0) == 0);
    assert(s.payload.subrange(0, s.payload.len() as int) =~= s.payload);
}

/// Every segment that the engine emits carries a checksum that verifies over
/// the IPv4 pseudo-header from the local address to the peer's.
pub proof fn lemma_emitted_checksum(l: LocalAddr, rm: RemoteAddr, s: SegmentView, b: Seq<u8>)
    requires
        emitted(l, rm, s, b),
    ensures
        tcp_checksum_valid(l.addr.0, rm.addr.0, b),
{
}

/// An ACK that acknowledges beyond `snd_nxt` draws exactly one challenge ACK
/// and leaves the TCB as it was, past SYN-RECEIVED, unless it lies past a gap
/// in the receive window or exactly half the sequence space ahead.
pub proof fn lemma_ack_beyond_snd_nxt(t: Tcb, s: SegmentView, ack: u32)
    requires
        seq_le(t.snd_una.0, t.snd_nxt.0),
        s.ack == Some(ack),
        s.control != TcpControl::Rst,
        s.control != TcpControl::Syn,
        seq_lt(t.snd_nxt.0, ack),
        dist(t.snd_nxt.0, ack) < SEQ_HALF,
        !(acceptable(t, s.seq, s.len()) && seq_lt(t.rcv_nxt.0, s.seq)),
    ensures
        verdict(t, false, s) == (Verdict::Refuse { challenge: true }),
        tcb_after(verdict(t, false, s), t) == t,
{
}

/// A segment that spans no sequence space and was consumed draws no answer,
/// hands over nothing and changes nothing when it comes again, unless its ACK
/// lies exactly half the sequence space from `snd_nxt`.
pub proof fn lemma_redelivery(t: Tcb, syn_rcvd: bool, s: SegmentView)
    requires
        seq_le(t.snd_una.0, t.snd_nxt.0),
        s.len() == 0,
        verdict(t, syn_rcvd, s) is Accept,
        s.ack is Some ==> dist(s.ack.unwrap(), t.snd_nxt.0) != SEQ_HALF,
    ensures
        ({
            let t1 = tcb_after(verdict(t, syn_rcvd, s), t);
            verdict(t1, false, s) == (Verdict::Accept { tcb: t1, reply: false, payload: Seq::empty() })
        }),
{
    let t1 = tcb_after(verdict(t, syn_rcvd, s), t);
    assert(s.payload.len() == 0);
    assert(new_payload(t1, s) =~= Seq::<u8>::empty());
    if !seq_lt(t.rcv_nxt.0, s.seq) {
        assert(t1.rcv_nxt.0 == s.seq) by {
            assert(seq_add(s.seq, 0) == s.seq);
        }
        assert(acceptable(t1, s.seq, 0));
    }
}

} // verus!
