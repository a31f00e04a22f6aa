//! The user channel: the messages between the TCP core and its user, carried
//! over crossbeam channels, one per direction.
use vstd::prelude::*;
use std::marker::PhantomData;
use crossbeam_channel::{Receiver, Sender};
use crate::st::{Action, Branch, Choice, End, Message, OfferOne, OfferTwo, Role, SelectOne, SelectTwo};

verus! {

/// crossbeam_channel's sending half, carried as an opaque value.
#[verifier::external_type_specification]
#[verifier::external_body]
#[verifier::reject_recursive_types(T)]
pub struct ExSender<T>(Sender<T>);

/// crossbeam_channel's receiving half, carried as an opaque value.
#[verifier::external_type_specification]
#[verifier::external_body]
#[verifier::reject_recursive_types(T)]
pub struct ExReceiver<T>(Receiver<T>);

/// The user asks for a passive open.
pub struct Open(pub ());

/// The core has created the TCB.
pub struct TcbCreated(pub ());

/// The handshake is complete.
pub struct Connected(pub ());

/// A half-close request, or the news that the peer closed.
pub struct Close(pub ());

/// Payload, in either direction.
pub struct Data(pub Vec<u8>);

/// A message of the user channel, of any kind.
pub enum NetRepresentation {
    Open(Open),
    TcbCreated(TcbCreated),
    Connected(Connected),
    Close(Close),
    Data(Data),
}

/// A message that travels on the user channel.
pub trait CrossbeamMessage: Message + Sized {
    /// `net` is a message of this kind.
    spec fn is_kind(net: NetRepresentation) -> bool;

    /// This message as one of any kind.
    spec fn net_of(&self) -> NetRepresentation;

    fn matches_kind(net: &NetRepresentation) -> (r: bool)
        ensures
            r == Self::is_kind(*net),
    ;

    fn to_net_representation(self) -> (r: NetRepresentation)
        ensures
            r == self.net_of(),
            Self::is_kind(r),
    ;

    fn from_net_representation(packet: NetRepresentation) -> (r: Self)
        requires
            Self::is_kind(packet),
        ensures
            r.net_of() == packet,
    ;
}

impl Message for Open {
}

impl CrossbeamMessage for Open {
    open spec fn is_kind(net: NetRepresentation) -> bool {
        net is Open
    }

    open spec fn net_of(&self) -> NetRepresentation {
        NetRepresentation::Open(*self)
    }

    fn matches_kind(net: &NetRepresentation) -> (r: bool) {
        match net {
            NetRepresentation::Open(_) => true,
            _ => false,
        }
    }

    fn to_net_representation(self) -> (r: NetRepresentation) {
        NetRepresentation::Open(self)
    }

    fn from_net_representation(packet: NetRepresentation) -> (r: Self) {
        match packet {
            NetRepresentation::Open(m) => m,
            _ => vstd::pervasive::unreached(),
        }
    }
}

impl Message for TcbCreated {
}

impl CrossbeamMessage for TcbCreated {
    open spec fn is_kind(net: NetRepresentation) -> bool {
        net is TcbCreated
    }

    open spec fn net_of(&self) -> NetRepresentation {
        NetRepresentation::TcbCreated(*self)
    }

    fn matches_kind(net: &NetRepresentation) -> (r: bool) {
        match net {
            NetRepresentation::TcbCreated(_) => true,
            _ => false,
        }
    }

    fn to_net_representation(self) -> (r: NetRepresentation) {
        NetRepresentation::TcbCreated(self)
    }

    fn from_net_representation(packet: NetRepresentation) -> (r: Self) {
        match packet {
            NetRepresentation::TcbCreated(m) => m,
            _ => vstd::pervasive::unreached(),
        }
    }
}

impl Message for Connected {
}

impl CrossbeamMessage for Connected {
    open spec fn is_kind(net: NetRepresentation) -> bool {
        net is Connected
    }

    open spec fn net_of(&self) -> NetRepresentation {
        NetRepresentation::Connected(*self)
    }

    fn matches_kind(net: &NetRepresentation) -> (r: bool) {
        match net {
            NetRepresentation::Connected(_) => true,
            _ => false,
        }
    }

    fn to_net_representation(self) -> (r: NetRepresentation) {
        NetRepresentation::Connected(self)
    }

    fn from_net_representation(packet: NetRepresentation) -> (r: Self) {
        match packet {
            NetRepresentation::Connected(m) => m,
            _ => vstd::pervasive::unreached(),
        }
    }
}

impl Message for Close {
}

impl CrossbeamMessage for Close {
    open spec fn is_kind(net: NetRepresentation) -> bool {
        net is Close
    }

    open spec fn net_of(&self) -> NetRepresentation {
        NetRepresentation::Close(*self)
    }

    fn matches_kind(net: &NetRepresentation) -> (r: bool) {
        match net {
            NetRepresentation::Close(_) => true,
            _ => false,
        }
    }

    fn to_net_representation(self) -> (r: NetRepresentation) {
        NetRepresentation::Close(self)
    }

    fn from_net_representation(packet: NetRepresentation) -> (r: Self) {
        match packet {
            NetRepresentation::Close(m) => m,
            _ => vstd::pervasive::unreached(),
        }
    }
}

impl Message for Data {
}

impl CrossbeamMessage for Data {
    open spec fn is_kind(net: NetRepresentation) -> bool {
        net is Data
    }

    open spec fn net_of(&self) -> NetRepresentation {
        NetRepresentation::Data(*self)
    }

    fn matches_kind(net: &NetRepresentation) -> (r: bool) {
        match net {
            NetRepresentation::Data(_) => true,
            _ => false,
        }
    }

    fn to_net_representation(self) -> (r: NetRepresentation) {
        NetRepresentation::Data(self)
    }

    fn from_net_representation(packet: NetRepresentation) -> (r: Self) {
        match packet {
            NetRepresentation::Data(m) => m,
            _ => vstd::pervasive::unreached(),
        }
    }
}

/// Relies on crossbeam_channel's `Sender::send`: it fails only when every
/// receiver is gone.
#[verifier::external_body]
fn send_message(s: &Sender<NetRepresentation>, m: NetRepresentation) -> (r: bool) {
    s.send(m).is_ok()
}

/// Relies on crossbeam_channel's `Receiver::recv`: it blocks until a message
/// comes, and fails once the channel is empty and every sender is gone.
#[verifier::external_body]
fn recv_message(r: &Receiver<NetRepresentation>) -> (m: Option<NetRepresentation>) {
    r.recv().ok()
}

/// The received message `net` as one of kind `M`, if it is of that kind.
pub fn accept_one<M: CrossbeamMessage>(net: NetRepresentation) -> (r: Option<M>)
    ensures
        match r {
            Some(m) => M::is_kind(net) && m.net_of() == net,
            None => !M::is_kind(net),
        },
{
    if M::matches_kind(&net) {
        Some(M::from_net_representation(net))
    } else {
        None
    }
}

/// The received message `net` in the branch `choice`, if it is of the kind of
/// that branch.
pub fn accept_picked<M1: CrossbeamMessage, M2: CrossbeamMessage>(net: NetRepresentation, choice: Choice) -> (r: Option<Branch<M1, M2>>)
    ensures
        match choice {
            Choice::Left => match r {
                Some(Branch::Left(m)) => M1::is_kind(net) && m.net_of() == net,
                None => !M1::is_kind(net),
                _ => false,
            },
            Choice::Right => match r {
                Some(Branch::Right(m)) => M2::is_kind(net) && m.net_of() == net,
                None => !M2::is_kind(net),
                _ => false,
            },
        },
{
    match choice {
        Choice::Left => match accept_one::<M1>(net) {
            Some(m) => Some(Branch::Left(m)),
            None => None,
        },
        Choice::Right => match accept_one::<M2>(net) {
            Some(m) => Some(Branch::Right(m)),
            None => None,
        },
    }
}

/// A session-typed channel between the roles `R1` (this side) and `R2`,
/// carried over crossbeam channels.
pub struct CrossBeamRoleChannel<R1: Role, R2: Role> {
    pub send: Sender<NetRepresentation>,
    pub recv: Receiver<NetRepresentation>,
    pub phantom: PhantomData<(R1, R2)>,
}

impl<R1: Role, R2: Role> CrossBeamRoleChannel<R1, R2> {
    pub fn new(send: Sender<NetRepresentation>, recv: Receiver<NetRepresentation>) -> Self {
        CrossBeamRoleChannel { send, recv, phantom: PhantomData }
    }

    /// Receive the one message of kind `M` that the protocol expects. `None`
    /// when the other side is gone or sent a message of another kind.
    pub fn offer_one<M: CrossbeamMessage, A: Action>(&mut self, _o: OfferOne<R2, M, A>) -> (r: Option<(M, A)>)
        ensures
            match r {
                Some((m, _)) => M::is_kind(m.net_of()),
                None => true,
            },
    {
        let net = recv_message(&self.recv)?;
        let m = accept_one::<M>(net)?;
        Some((m, A::new()))
    }

    /// Send the one message that the protocol expects. `None` when the other
    /// side is gone.
    pub fn select_one<M: CrossbeamMessage, A: Action>(&mut self, _o: SelectOne<R2, M, A>, message: M) -> (r: Option<A>) {
        if send_message(&self.send, message.to_net_representation()) {
            Some(A::new())
        } else {
            None
        }
    }

    /// Receive a message of one of two kinds; `picker` tells which branch it
    /// belongs to. `None` when the other side is gone or the message is not of
    /// the kind of the branch that `picker` chose.
    pub fn offer_two<M1: CrossbeamMessage, M2: CrossbeamMessage, A1: Action, A2: Action, F: FnOnce(&NetRepresentation) -> Choice>(
        &mut self,
        _o: OfferTwo<R2, M1, M2, A1, A2>,
        picker: F,
    ) -> (r: Option<Branch<(M1, A1), (M2, A2)>>)
        requires
            forall|n: &NetRepresentation| picker.requires((n,)),
        ensures
            match r {
                Some(Branch::Left((m, _))) => M1::is_kind(m.net_of()) && picker.ensures((&m.net_of(),), Choice::Left),
                Some(Branch::Right((m, _))) => M2::is_kind(m.net_of()) && picker.ensures((&m.net_of(),), Choice::Right),
                None => true,
            },
    {
        let data = recv_message(&self.recv)?;
        let choice = picker(&data);
        match accept_picked::<M1, M2>(data, choice) {
            Some(Branch::Left(m)) => Some(Branch::Left((m, A1::new()))),
            Some(Branch::Right(m)) => Some(Branch::Right((m, A2::new()))),
            None => None,
        }
    }

    /// Send a message of the first of two kinds and take its branch. `None`
    /// when the other side is gone.
    pub fn select_left<M1: CrossbeamMessage, M2: CrossbeamMessage, A1: Action, A2: Action>(
        &mut self,
        _o: SelectTwo<R2, M1, M2, A1, A2>,
        message: M1,
    ) -> (r: Option<A1>) {
        if send_message(&self.send, message.to_net_representation()) {
            Some(A1::new())
        } else {
            None
        }
    }

    /// Send a message of the second of two kinds and take its branch. `None`
    /// when the other side is gone.
    pub fn select_right<M1: CrossbeamMessage, M2: CrossbeamMessage, A1: Action, A2: Action>(
        &mut self,
        _o: SelectTwo<R2, M1, M2, A1, A2>,
        message: M2,
    ) -> (r: Option<A2>) {
        if send_message(&self.send, message.to_net_representation()) {
            Some(A2::new())
        } else {
            None
        }
    }

    /// End the protocol and let the channel go.
    pub fn close(self, _end: End) {
    }
}

/// The picker of a user-channel offer between data and a close: data goes
/// left, anything else right.
pub fn pick_data_or_close(net: &NetRepresentation) -> (r: Choice)
    ensures
        r == (if *net is Data { Choice::Left } else { Choice::Right }),
{
    match net {
        NetRepresentation::Data(_) => Choice::Left,
        _ => Choice::Right,
    }
}

/// The picker of a user-channel offer between the news of a connection and a
/// close: `Connected` goes left, anything else right.
pub fn pick_connected_or_close(net: &NetRepresentation) -> (r: Choice)
    ensures
        r == (if *net is Connected { Choice::Left } else { Choice::Right }),
{
    match net {
        NetRepresentation::Connected(_) => Choice::Left,
        _ => Choice::Right,
    }
}

} // verus!
