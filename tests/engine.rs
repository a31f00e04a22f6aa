use smoltcp::wire::{IpAddress, Ipv4Address as SmolIpv4, TcpControl, TcpPacket, TcpRepr, TcpSeqNumber};
use tcpst::messages::{Ack, FinAck, SmolMessage, Syn};
use tcpst::seq::SeqNumber;
use tcpst::st::{Branch, Nested};
use tcpst::tcp::{
    pick_fin_wait2, ChannelFilter, Established, LocalAddr, Reaction, ReactionInner, Tcp, TcpClosed,
    ISS, RCV_WND,
};
use tcpst::wire::Ipv4Address;

const LOCAL: u32 = 0x0a00_0001;
const PEER: u32 = 0x0a00_0002;
const LOCAL_PORT: u16 = 555;
const PEER_PORT: u16 = 40000;

fn ip(a: u32) -> IpAddress {
    IpAddress::Ipv4(SmolIpv4(a.to_be_bytes()))
}

/// A segment from the peer to us, as smoltcp emits it.
fn peer_segment(control: TcpControl, seq: u32, ack: Option<u32>, payload: &[u8]) -> Vec<u8> {
    let repr = TcpRepr {
        src_port: PEER_PORT,
        dst_port: LOCAL_PORT,
        control,
        seq_number: TcpSeqNumber(seq as i32),
        ack_number: ack.map(|a| TcpSeqNumber(a as i32)),
        window_len: 4096,
        window_scale: None,
        max_seg_size: None,
        sack_permitted: false,
        sack_ranges: [None, None, None],
        payload,
    };
    let mut buf = vec![0; repr.buffer_len()];
    repr.emit(&mut TcpPacket::new_unchecked(&mut buf), &ip(PEER), &ip(LOCAL), &Default::default());
    buf
}

/// What we sent, as the peer parses it; the checksum is verified on the way.
fn sent(bytes: &[u8]) -> (TcpControl, u32, Option<u32>, u16, Vec<u8>) {
    let packet = TcpPacket::new_checked(bytes).expect("framed");
    assert!(packet.verify_checksum(&ip(LOCAL), &ip(PEER)));
    assert_eq!(packet.src_port(), LOCAL_PORT);
    assert_eq!(packet.dst_port(), PEER_PORT);
    let repr = TcpRepr::parse(&packet, &ip(LOCAL), &ip(PEER), &Default::default()).expect("parses");
    (
        repr.control,
        repr.seq_number.0 as u32,
        repr.ack_number.map(|a| a.0 as u32),
        repr.window_len,
        repr.payload.to_vec(),
    )
}

fn local() -> LocalAddr {
    LocalAddr { addr: Ipv4Address(LOCAL), port: LOCAL_PORT }
}

fn ack(seq: u32, ack: u32, payload: &[u8]) -> Ack {
    Ack::from_packet(peer_segment(TcpControl::None, seq, Some(ack), payload))
}

fn handshake() -> Tcp<Established> {
    let listen = TcpClosed::new().open(local());
    let syn = peer_segment(TcpControl::Syn, 1000, None, &[]);
    assert!(listen.filter(Ipv4Address(PEER), &syn));
    let (tcp, _synack) = listen.recv_syn(Ipv4Address(PEER), &Syn::from_packet(syn)).expect("SYN parses");
    match tcp.recv_ack(&ack(1001, ISS + 1, &[])) {
        Reaction::Acceptable(tcp, None, None) => tcp,
        _ => panic!("the first ACK is consumed quietly"),
    }
}

/// The end state of the data exchange: "hi\n" in, "ih\n" out and acknowledged.
fn after_exchange() -> Tcp<Established> {
    let tcp = handshake();
    let mut tcp = match tcp.recv(&ack(1001, ISS + 1, b"hi\n")) {
        Reaction::Acceptable(tcp, Some(_), Some(_)) => tcp,
        _ => panic!("data is consumed"),
    };
    let _ = tcp.send(b"ih\n");
    match tcp.recv(&ack(1004, ISS + 4, &[])) {
        Reaction::Acceptable(tcp, None, None) => tcp,
        _ => panic!("the ACK of our data is consumed quietly"),
    }
}

#[test]
fn three_way_handshake() {
    let listen = TcpClosed::new().open(local());
    let syn = peer_segment(TcpControl::Syn, 1000, None, &[]);
    let (tcp, synack) = listen.recv_syn(Ipv4Address(PEER), &Syn::from_packet(syn)).unwrap();
    let (control, seq, ack_no, window, payload) = sent(synack.packet());
    assert_eq!(control, TcpControl::Syn);
    assert_eq!(seq, ISS);
    assert_eq!(ack_no, Some(1001));
    assert_eq!(window, RCV_WND);
    assert!(payload.is_empty());
    assert_eq!(tcp.remote_addr(), Ipv4Address(PEER));
    let t = tcp.tcb();
    assert_eq!(t.snd_wnd, 4096);
    assert_eq!(t.snd_nxt, SeqNumber(ISS + 1));

    let tcp = match tcp.recv_ack(&ack(1001, ISS + 1, &[])) {
        Reaction::Acceptable(tcp, None, None) => tcp,
        _ => panic!("the first ACK is consumed quietly"),
    };
    let t = tcp.tcb();
    assert_eq!(t.snd_una, SeqNumber(ISS + 1));
    assert_eq!(t.snd_nxt, SeqNumber(ISS + 1));
    assert_eq!(t.rcv_nxt, SeqNumber(1001));
}

#[test]
fn data_in_data_out() {
    let tcp = handshake();
    let mut tcp = match tcp.recv(&ack(1001, ISS + 1, b"hi\n")) {
        Reaction::Acceptable(tcp, Some(resp), Some(data)) => {
            assert_eq!(data, b"hi\n".to_vec());
            let (control, seq, ack_no, _, payload) = sent(resp.packet());
            assert_eq!(control, TcpControl::None);
            assert_eq!(seq, ISS + 1);
            assert_eq!(ack_no, Some(1004));
            assert!(payload.is_empty());
            tcp
        }
        _ => panic!("data is consumed and acknowledged"),
    };
    let out = tcp.send(b"ih\n");
    let (_, seq, ack_no, _, payload) = sent(out.packet());
    assert_eq!(seq, ISS + 1);
    assert_eq!(ack_no, Some(1004));
    assert_eq!(payload, b"ih\n".to_vec());
    assert_eq!(tcp.tcb().snd_nxt, SeqNumber(ISS + 4));
    assert_eq!(tcp.unacked_count(), 1);

    let tcp = match tcp.recv(&ack(1004, ISS + 4, &[])) {
        Reaction::Acceptable(tcp, None, None) => tcp,
        _ => panic!("the ACK of our data is consumed quietly"),
    };
    assert_eq!(tcp.unacked_count(), 0);
    assert_eq!(tcp.tcb().snd_una, SeqNumber(ISS + 4));
}

#[test]
fn out_of_window_segment_draws_challenge() {
    let tcp = after_exchange();
    let before = tcp.tcb();
    match tcp.recv(&ack(5000, ISS + 4, &[])) {
        Reaction::NotAcceptable(tcp, Some(challenge)) => {
            let (_, seq, ack_no, _, payload) = sent(challenge.packet());
            assert_eq!(seq, ISS + 4);
            assert_eq!(ack_no, Some(1004));
            assert!(payload.is_empty());
            assert_eq!(tcp.tcb(), before);
        }
        _ => panic!("a challenge ACK"),
    }
}

#[test]
fn peer_initiated_close() {
    let tcp = after_exchange();
    let fin = FinAck::from_packet(peer_segment(TcpControl::Fin, 1004, Some(ISS + 4), &[]));
    let tcp = match tcp.recv_fin(&fin) {
        Reaction::Acceptable(tcp, Some(resp), None) => {
            let (_, seq, ack_no, _, _) = sent(resp.packet());
            assert_eq!(seq, ISS + 4);
            assert_eq!(ack_no, Some(1005));
            tcp
        }
        _ => panic!("the FIN is consumed and acknowledged"),
    };
    let (tcp, fin) = tcp.close();
    let (control, seq, ack_no, _, _) = sent(fin.packet());
    assert_eq!(control, TcpControl::Fin);
    assert_eq!(seq, ISS + 4);
    assert_eq!(ack_no, Some(1005));
    assert!(tcp.recv_ack(&ack(1005, ISS + 5, &[])));
}

#[test]
fn local_initiated_close() {
    let tcp = after_exchange();
    let (tcp, fin) = tcp.close();
    let (control, seq, _, _, _) = sent(fin.packet());
    assert_eq!(control, TcpControl::Fin);
    assert_eq!(seq, ISS + 4);
    let mut tcp = tcp.recv(&ack(1004, ISS + 5, &[])).empty_acceptable().expect("FIN-WAIT-2");
    let reply = tcp.recv_ack(&ack(1004, ISS + 5, b"late")).expect("data in FIN-WAIT-2 is acknowledged");
    let (_, _, ack_no, _, _) = sent(reply.packet());
    assert_eq!(ack_no, Some(1008));
    let fin = FinAck::from_packet(peer_segment(TcpControl::Fin, 1008, Some(ISS + 5), &[]));
    let last = tcp.recv_fin(&fin).expect("the FIN is acknowledged");
    let (control, seq, ack_no, _, _) = sent(last.packet());
    assert_eq!(control, TcpControl::None);
    assert_eq!(seq, ISS + 5);
    assert_eq!(ack_no, Some(1009));
}

#[test]
fn retransmission_repeats_oldest_segment() {
    let tcp = handshake();
    let mut tcp = tcp.recv(&ack(1001, ISS + 1, &[])).empty_acceptable().unwrap();
    let first = tcp.send(b"one");
    let _second = tcp.send(b"two");
    let again = tcp.retransmission().expect("data is outstanding");
    assert_eq!(again.packet(), first.packet());
    let (_, seq, _, _, payload) = sent(again.packet());
    assert_eq!(seq, ISS + 1);
    assert_eq!(payload, b"one".to_vec());
    match tcp.for_picker().pick_established(None) {
        Some(Branch::Right(Nested::Right(Nested::Right(Nested::Right(_))))) => {}
        _ => panic!("no segment is a timeout"),
    }
}

#[test]
fn partial_ack_keeps_unacknowledged_segments() {
    let tcp = handshake();
    let mut tcp = tcp.recv(&ack(1001, ISS + 1, &[])).empty_acceptable().unwrap();
    let _ = tcp.send(b"one");
    let second = tcp.send(b"two");
    let tcp = tcp.recv(&ack(1001, ISS + 4, &[])).empty_acceptable().unwrap();
    assert_eq!(tcp.unacked_count(), 1);
    assert_eq!(tcp.retransmission().unwrap().packet(), second.packet());
    let tcp = tcp.recv(&ack(1001, ISS + 7, &[])).empty_acceptable().unwrap();
    assert_eq!(tcp.unacked_count(), 0);
    assert!(tcp.retransmission().is_none());
}

#[test]
fn empty_send_is_not_queued() {
    let mut tcp = handshake();
    let out = tcp.send(&[]);
    assert_eq!(tcp.unacked_count(), 0);
    assert_eq!(tcp.tcb().snd_nxt, SeqNumber(ISS + 1));
    let (_, seq, _, _, payload) = sent(out.packet());
    assert_eq!(seq, ISS + 1);
    assert!(payload.is_empty());
}

#[test]
fn emitted_segments_have_valid_checksums() {
    let listen = TcpClosed::new().open(local());
    let syn = peer_segment(TcpControl::Syn, 77, None, &[]);
    let (tcp, synack) = listen.recv_syn(Ipv4Address(PEER), &Syn::from_packet(syn)).unwrap();
    let mut outputs = vec![synack.packet().clone()];
    let mut tcp = tcp.recv_ack(&ack(78, ISS + 1, &[])).empty_acceptable().unwrap();
    outputs.push(tcp.send(b"payload").packet().clone());
    let tcp = match tcp.recv(&ack(78, ISS + 1, b"xyz")) {
        Reaction::Acceptable(tcp, Some(resp), Some(_)) => {
            outputs.push(resp.packet().clone());
            tcp
        }
        _ => panic!("data is consumed"),
    };
    let (_, fin) = tcp.close();
    outputs.push(fin.packet().clone());
    for bytes in &outputs {
        let packet = TcpPacket::new_checked(&bytes[..]).unwrap();
        assert!(packet.verify_checksum(&ip(LOCAL), &ip(PEER)));
    }
}

#[test]
fn reemitting_a_parsed_ack_gives_the_same_bytes() {
    let mut tcp = handshake();
    let out = tcp.send(b"round trip");
    let bytes = out.packet().clone();
    let packet = TcpPacket::new_checked(&bytes[..]).unwrap();
    let repr = TcpRepr::parse(&packet, &ip(LOCAL), &ip(PEER), &Default::default()).unwrap();
    let mut again = vec![0; repr.buffer_len()];
    repr.emit(&mut TcpPacket::new_unchecked(&mut again), &ip(LOCAL), &ip(PEER), &Default::default());
    assert_eq!(again, bytes);
}

#[test]
fn ack_beyond_snd_nxt_draws_one_challenge() {
    let tcp = after_exchange();
    let before = tcp.tcb();
    match tcp.recv(&ack(1004, ISS + 100, &[])) {
        Reaction::NotAcceptable(tcp, Some(challenge)) => {
            let (_, seq, ack_no, _, _) = sent(challenge.packet());
            assert_eq!(seq, ISS + 4);
            assert_eq!(ack_no, Some(1004));
            assert_eq!(tcp.tcb(), before);
        }
        _ => panic!("a challenge ACK"),
    }
}

#[test]
fn redelivered_ack_changes_nothing() {
    let tcp = after_exchange();
    let segment = ack(1004, ISS + 4, &[]);
    let tcp = tcp.recv(&segment).empty_acceptable().unwrap();
    let before = tcp.tcb();
    let tcp = tcp.recv(&segment).empty_acceptable().expect("consumed quietly again");
    assert_eq!(tcp.tcb(), before);
}

#[test]
fn old_data_is_clipped_to_rcv_nxt() {
    let tcp = handshake();
    match tcp.recv(&ack(999, ISS + 1, b"abcd")) {
        Reaction::Acceptable(tcp, Some(_), Some(data)) => {
            assert_eq!(data, b"cd".to_vec());
            assert_eq!(tcp.tcb().rcv_nxt, SeqNumber(1003));
        }
        _ => panic!("the new part is consumed"),
    }
}

#[test]
fn segment_after_a_gap_is_dropped_quietly() {
    let tcp = handshake();
    match tcp.recv(&ack(1010, ISS + 1, b"late")) {
        Reaction::Acceptable(tcp, None, None) => assert_eq!(tcp.tcb().rcv_nxt, SeqNumber(1001)),
        _ => panic!("accepted, nothing taken"),
    }
}

#[test]
fn bad_first_ack_draws_reset() {
    let listen = TcpClosed::new().open(local());
    let syn = peer_segment(TcpControl::Syn, 1000, None, &[]);
    let (tcp, _) = listen.recv_syn(Ipv4Address(PEER), &Syn::from_packet(syn)).unwrap();
    match tcp.recv_ack(&ack(1001, 9999, &[])) {
        Reaction::Reset(Some(rst)) => {
            let (control, seq, ack_no, _, _) = sent(rst.packet());
            assert_eq!(control, TcpControl::Rst);
            assert_eq!(seq, 9999);
            assert_eq!(ack_no, None);
        }
        _ => panic!("a RST at the ACK number"),
    }
}

#[test]
fn duplicate_first_ack_draws_reset() {
    let listen = TcpClosed::new().open(local());
    let syn = peer_segment(TcpControl::Syn, 1000, None, &[]);
    let (tcp, _) = listen.recv_syn(Ipv4Address(PEER), &Syn::from_packet(syn)).unwrap();
    assert!(matches!(tcp.recv_ack(&ack(1001, ISS, &[])), Reaction::Reset(Some(_))));
}

#[test]
fn rst_at_rcv_nxt_resets_cleanly() {
    let tcp = handshake();
    let picker = tcp.for_picker();
    let rst = peer_segment(TcpControl::Rst, 1001, None, &[]);
    assert!(matches!(picker.acceptable(&rst), ReactionInner::Reset(None)));
}

#[test]
fn rst_inside_window_draws_challenge() {
    let tcp = handshake();
    let rst = peer_segment(TcpControl::Rst, 999, None, b"abcd");
    match tcp.for_picker().acceptable(&rst) {
        ReactionInner::NotAcceptable(Some(challenge)) => {
            let (_, seq, ack_no, _, _) = sent(challenge.packet());
            assert_eq!(seq, ISS + 1);
            assert_eq!(ack_no, Some(1001));
        }
        _ => panic!("a challenge ACK"),
    }
}

#[test]
fn bare_rst_past_rcv_nxt_draws_challenge() {
    let tcp = handshake();
    let rst = peer_segment(TcpControl::Rst, 1005, None, &[]);
    match tcp.for_picker().acceptable(&rst) {
        ReactionInner::NotAcceptable(Some(challenge)) => {
            let (control, seq, ack_no, _, payload) = sent(challenge.packet());
            assert_eq!(control, TcpControl::None);
            assert_eq!(seq, ISS + 1);
            assert_eq!(ack_no, Some(1001));
            assert!(payload.is_empty());
        }
        _ => panic!("a challenge ACK, not a reset"),
    }
}

#[test]
fn syn_with_data_acknowledges_only_the_syn() {
    let listen = TcpClosed::new().open(local());
    let syn = peer_segment(TcpControl::Syn, 1000, None, b"early");
    let (tcp, synack) = listen.recv_syn(Ipv4Address(PEER), &Syn::from_packet(syn)).unwrap();
    let (_, seq, ack_no, _, _) = sent(synack.packet());
    assert_eq!(seq, ISS);
    assert_eq!(ack_no, Some(1001));
    assert_eq!(tcp.tcb().rcv_nxt, SeqNumber(1001));
    assert_eq!(tcp.tcb().rcv_wnd, RCV_WND);
}

#[test]
fn oversized_segment_is_refused_silently() {
    let tcp = handshake();
    let mut big = vec![0xffu8; 200_000];
    big[13] = 0xf8;
    assert!(Ack::fits(&big));
    assert!(matches!(tcp.for_picker().acceptable(&big), ReactionInner::NotAcceptable(None)));
    match tcp.for_picker().pick_established(Some(big.clone())) {
        Some(Branch::Right(Nested::Right(Nested::Right(Nested::Left(_))))) => {}
        _ => panic!("the branch of refused ACKs"),
    }
    let before = tcp.tcb();
    match tcp.recv(&Ack::from_packet(big)) {
        Reaction::NotAcceptable(tcp, None) => assert_eq!(tcp.tcb(), before),
        _ => panic!("dropped without an answer"),
    }
}

#[test]
fn rst_outside_window_is_dropped_silently() {
    let tcp = handshake();
    let rst = peer_segment(TcpControl::Rst, 9000, None, &[]);
    assert!(matches!(tcp.for_picker().acceptable(&rst), ReactionInner::NotAcceptable(None)));
}

#[test]
fn syn_in_established_draws_challenge() {
    let tcp = handshake();
    let syn = peer_segment(TcpControl::Syn, 1001, Some(ISS + 1), &[]);
    assert!(matches!(tcp.for_picker().acceptable(&syn), ReactionInner::NotAcceptable(Some(_))));
}

#[test]
fn segment_without_ack_is_refused_silently() {
    let tcp = handshake();
    let bare = peer_segment(TcpControl::None, 1001, None, b"x");
    assert!(matches!(tcp.for_picker().acceptable(&bare), ReactionInner::NotAcceptable(None)));
}

#[test]
fn bad_checksum_is_dropped_silently() {
    let tcp = handshake();
    let mut bytes = peer_segment(TcpControl::None, 1001, Some(ISS + 1), b"hi");
    bytes[16] ^= 0xff;
    let before = tcp.tcb();
    match tcp.recv(&Ack::from_packet(bytes)) {
        Reaction::NotAcceptable(tcp, None) => assert_eq!(tcp.tcb(), before),
        _ => panic!("dropped without an answer"),
    }
}

#[test]
fn unframed_bytes_are_refused_silently() {
    let tcp = handshake();
    assert!(matches!(tcp.for_picker().acceptable(&vec![1, 2, 3]), ReactionInner::NotAcceptable(None)));
}

#[test]
fn listen_filter_takes_only_pure_syn() {
    let listen = TcpClosed::new().open(local());
    assert!(listen.filter(Ipv4Address(PEER), &peer_segment(TcpControl::Syn, 1, None, &[])));
    assert!(!listen.filter(Ipv4Address(PEER), &peer_segment(TcpControl::Syn, 1, Some(5), &[])));
    assert!(!listen.filter(Ipv4Address(PEER), &peer_segment(TcpControl::None, 1, Some(5), &[])));
    assert!(!listen.filter(Ipv4Address(PEER), &peer_segment(TcpControl::Rst, 1, None, &[])));
    let mut psh = peer_segment(TcpControl::Syn, 1, None, &[]);
    psh[13] |= 0x08;
    assert!(!listen.filter(Ipv4Address(PEER), &psh));
    assert!(!listen.filter(Ipv4Address(PEER), &vec![0; 10]));
}

#[test]
fn connection_filter_takes_only_the_peer() {
    let tcp = handshake();
    let seg = peer_segment(TcpControl::None, 1001, Some(ISS + 1), &[]);
    assert!(tcp.filter(Ipv4Address(PEER), &seg));
    assert!(!tcp.filter(Ipv4Address(PEER + 1), &seg));
    let mut other_port = seg.clone();
    other_port[1] ^= 1;
    assert!(!tcp.filter(Ipv4Address(PEER), &other_port));
    let mut other_dst = seg.clone();
    other_dst[3] ^= 1;
    assert!(!tcp.filter(Ipv4Address(PEER), &other_dst));
}

#[test]
fn syn_rcvd_picker_splits_acceptable_from_not() {
    let listen = TcpClosed::new().open(local());
    let syn = peer_segment(TcpControl::Syn, 1000, None, &[]);
    let (tcp, _) = listen.recv_syn(Ipv4Address(PEER), &Syn::from_packet(syn)).unwrap();
    let good = peer_segment(TcpControl::None, 1001, Some(ISS + 1), &[]);
    assert!(matches!(tcp.for_picker().pick_syn_rcvd(good), Some(Branch::Left(_))));
    let bad = peer_segment(TcpControl::None, 1001, Some(ISS + 7), &[]);
    assert!(matches!(tcp.for_picker().pick_syn_rcvd(bad), Some(Branch::Right(_))));
    let fin = peer_segment(TcpControl::Fin, 1001, Some(ISS + 1), &[]);
    assert!(tcp.for_picker().pick_syn_rcvd(fin).is_none());
}

#[test]
fn established_picker_sorts_segments() {
    let tcp = handshake();
    let p = tcp.for_picker();
    let data = peer_segment(TcpControl::None, 1001, Some(ISS + 1), b"d");
    assert!(matches!(p.pick_established(Some(data)), Some(Branch::Left(_))));
    let p = tcp.for_picker();
    let empty = peer_segment(TcpControl::None, 1001, Some(ISS + 1), &[]);
    assert!(matches!(p.pick_established(Some(empty)), Some(Branch::Right(Nested::Left(_)))));
    let p = tcp.for_picker();
    let fin = peer_segment(TcpControl::Fin, 1001, Some(ISS + 1), &[]);
    assert!(matches!(p.pick_established(Some(fin)), Some(Branch::Right(Nested::Right(Nested::Left(_))))));
    let p = tcp.for_picker();
    let far = peer_segment(TcpControl::None, 70000, Some(ISS + 1), &[]);
    assert!(matches!(
        p.pick_established(Some(far)),
        Some(Branch::Right(Nested::Right(Nested::Right(Nested::Left(_)))))
    ));
}

#[test]
fn fin_wait2_picker_splits_fin_from_ack() {
    let fin = peer_segment(TcpControl::Fin, 1, Some(2), &[]);
    assert!(matches!(pick_fin_wait2(fin), Some(Branch::Right(_))));
    let plain = peer_segment(TcpControl::None, 1, Some(2), &[]);
    assert!(matches!(pick_fin_wait2(plain), Some(Branch::Left(_))));
    let syn = peer_segment(TcpControl::Syn, 1, None, &[]);
    assert!(pick_fin_wait2(syn).is_none());
}

#[test]
fn syn_with_bad_checksum_opens_nothing() {
    let listen = TcpClosed::new().open(local());
    let mut syn = peer_segment(TcpControl::Syn, 1000, None, &[]);
    syn[17] ^= 0x01;
    assert!(listen.recv_syn(Ipv4Address(PEER), &Syn::from_packet(syn)).is_none());
}

#[test]
fn close_wait_send_is_acknowledged() {
    let tcp = after_exchange();
    let fin = FinAck::from_packet(peer_segment(TcpControl::Fin, 1004, Some(ISS + 4), &[]));
    let mut tcp = match tcp.recv_fin(&fin) {
        Reaction::Acceptable(tcp, Some(_), None) => tcp,
        _ => panic!("CLOSE-WAIT"),
    };
    let out = tcp.send(b"bye");
    let (_, seq, ack_no, _, payload) = sent(out.packet());
    assert_eq!(seq, ISS + 4);
    assert_eq!(ack_no, Some(1005));
    assert_eq!(payload, b"bye".to_vec());
    assert!(tcp.recv_ack(&ack(1005, ISS + 7, &[])));
    assert_eq!(tcp.unacked_count(), 0);
}

#[test]
fn simultaneous_fin_in_fin_wait1_is_acknowledged() {
    let tcp = after_exchange();
    let (tcp, _fin) = tcp.close();
    let fin = FinAck::from_packet(peer_segment(TcpControl::Fin, 1004, Some(ISS + 5), &[]));
    let reply = tcp.recv_fin(&fin).expect("answered");
    let (control, seq, ack_no, _, _) = sent(reply.packet());
    assert_eq!(control, TcpControl::None);
    assert_eq!(seq, ISS + 5);
    assert_eq!(ack_no, Some(1005));
}

fn segment(control: TcpControl, seq: u32, ack: Option<u32>, payload: &[u8]) -> tcpst::wire::Segment {
    tcpst::wire::Segment {
        src_port: PEER_PORT,
        dst_port: LOCAL_PORT,
        control,
        seq_number: SeqNumber(seq),
        ack_number: ack.map(SeqNumber),
        window_len: 2048,
        payload: payload.to_vec(),
    }
}

#[test]
fn accept_segment_on_parsed_values() {
    let tcp = handshake();
    let p = tcp.for_picker();
    match p.accept_segment(&segment(TcpControl::None, 1001, Some(ISS + 1), b"hi\n")) {
        ReactionInner::Acceptable(Some(resp), Some(data)) => {
            assert_eq!(data, b"hi\n".to_vec());
            let (_, seq, ack_no, _, _) = sent(resp.packet());
            assert_eq!(seq, ISS + 1);
            assert_eq!(ack_no, Some(1004));
        }
        _ => panic!("consumed"),
    }
    assert!(matches!(
        p.accept_segment(&segment(TcpControl::None, 1001, None, b"x")),
        ReactionInner::NotAcceptable(None)
    ));
    assert!(matches!(
        p.accept_segment(&segment(TcpControl::Fin, 1001, Some(ISS + 1), &[])),
        ReactionInner::Acceptable(Some(_), None)
    ));
    assert!(matches!(
        p.accept_segment(&segment(TcpControl::Rst, 1001, None, &[])),
        ReactionInner::Reset(None)
    ));
}

#[test]
fn empty_ack_in_window_is_consumed_quietly() {
    let tcp = handshake();
    let p = tcp.for_picker();
    assert!(matches!(
        p.accept_segment(&segment(TcpControl::None, 1001, Some(ISS + 1), &[])),
        ReactionInner::Acceptable(None, None)
    ));
    assert!(matches!(
        p.accept_segment(&segment(TcpControl::None, 1001 + RCV_WND as u32, Some(ISS + 1), &[])),
        ReactionInner::NotAcceptable(Some(_))
    ));
}

#[test]
fn segment_len_counts_syn_and_fin() {
    assert_eq!(segment(TcpControl::Syn, 0, None, b"ab").segment_len(), 3);
    assert_eq!(segment(TcpControl::Fin, 0, None, &[]).segment_len(), 1);
    assert_eq!(segment(TcpControl::None, 0, None, b"abc").segment_len(), 3);
    assert_eq!(segment(TcpControl::Rst, 0, None, &[]).segment_len(), 0);
}
