//! A single-connection, server-side TCP endpoint whose connection engine and
//! protocol choreography are verified.
//!
//! The choreographies below state, for the TCP core and for its user, the
//! order of every send and receive; each step is a single-use value.

pub mod cb;
pub mod messages;
pub mod seq;
pub mod st;
pub mod tcp;
pub mod wire;

use vstd::prelude::*;
use std::marker::PhantomData;
use crate::cb::{Close, Connected, Data, Open, TcbCreated};
use crate::messages::{Ack, FinAck, Rst, Syn, SynAck};
use crate::st::{Action, End, NestRole, Nested, OfferOne, OfferTwo, Role, SelectOne, SelectTwo, Timeout};

verus! {

/// The TCP core, toward the network and the user.
pub struct RoleServerSystem;

impl Role for RoleServerSystem {
}

/// The local user of the TCP core.
pub struct RoleServerUser;

impl Role for RoleServerUser {
}

/// The remote peer.
pub struct RoleClientSystem;

impl Role for RoleClientSystem {
}

/// FIN-WAIT-1 of the core: the ACK of our FIN, or the peer's FIN with it.
pub type ServerSystemFinWait1 = OfferTwo<
    RoleClientSystem,
    Ack,
    FinAck,
    ServerSystemFinWait2,
    SelectOne<RoleClientSystem, Ack, End>,
>;

/// FIN-WAIT-2 of the core: data that is acknowledged and dropped, until the
/// peer's FIN.
pub struct ServerSystemFinWait2(PhantomData<ServerSystemFinWait2Inner>);

pub type ServerSystemFinWait2Inner = OfferTwo<
    RoleClientSystem,
    Ack,
    FinAck,
    SelectOne<RoleClientSystem, Ack, ServerSystemFinWait2>,
    SelectOne<RoleClientSystem, Ack, End>,
>;

impl ServerSystemFinWait2 {
    pub fn inner(self) -> ServerSystemFinWait2Inner {
        ServerSystemFinWait2Inner::new()
    }
}

impl Action for ServerSystemFinWait2 {
    fn new() -> Self {
        Self(PhantomData)
    }
}

/// CLOSE-WAIT of the core: the user sends data, each acknowledged, until it
/// closes.
pub struct ServerSystemCloseWait(PhantomData<ServerSystemCloseWaitInner>);

pub type ServerSystemCloseWaitInner = OfferTwo<
    RoleServerUser,
    Data,
    Close,
    SelectOne<RoleClientSystem, Ack, OfferOne<RoleClientSystem, Ack, ServerSystemCloseWait>>,
    SelectOne<RoleClientSystem, FinAck, OfferOne<RoleClientSystem, Ack, End>>,
>;

impl ServerSystemCloseWait {
    pub fn inner(self) -> ServerSystemCloseWaitInner {
        ServerSystemCloseWaitInner::new()
    }
}

impl Action for ServerSystemCloseWait {
    fn new() -> Self {
        Self(PhantomData)
    }
}

/// ESTABLISHED of the core: data from the peer, answered by the user; empty
/// ACKs; the peer's FIN; refused ACKs, challenged; timeouts, answered by a
/// retransmission.
pub struct ServerSystemCommLoop(PhantomData<ServerSystemCommLoopInner>);

pub type ServerSystemCommLoopInner = OfferTwo<
    RoleClientSystem,
    Ack,
    Nested<Ack, Nested<FinAck, Nested<Ack, Timeout>>>,
    SelectOne<
        RoleClientSystem,
        Ack,
        SelectOne<
            RoleServerUser,
            Data,
            OfferTwo<
                RoleServerUser,
                Data,
                Close,
                SelectOne<RoleClientSystem, Ack, ServerSystemCommLoop>,
                SelectOne<RoleClientSystem, FinAck, ServerSystemFinWait1>,
            >,
        >,
    >,
    OfferTwo<
        NestRole,
        Ack,
        Nested<FinAck, Nested<Ack, Timeout>>,
        ServerSystemCommLoop,
        OfferTwo<
            NestRole,
            FinAck,
            Nested<Ack, Timeout>,
            SelectOne<RoleClientSystem, Ack, SelectOne<RoleServerUser, Close, ServerSystemCloseWait>>,
            OfferTwo<
                NestRole,
                Ack,
                Timeout,
                SelectOne<RoleClientSystem, Ack, ServerSystemCommLoop>,
                SelectOne<RoleClientSystem, Ack, ServerSystemCommLoop>,
            >,
        >,
    >,
>;

impl ServerSystemCommLoop {
    pub fn inner(self) -> ServerSystemCommLoopInner {
        ServerSystemCommLoopInner::new()
    }
}

impl Action for ServerSystemCommLoop {
    fn new() -> Self {
        Self(PhantomData)
    }
}

/// SYN-RECEIVED of the core: the first ACK, which completes the handshake, or
/// one that is refused and answered by an ACK or a RST.
pub struct ServerSystemSynRcvd(PhantomData<ServerSystemSynRcvdInner>);

pub type ServerSystemSynRcvdInner = OfferTwo<
    RoleClientSystem,
    Ack,
    Ack,
    SelectOne<RoleServerUser, Connected, ServerSystemCommLoop>,
    SelectTwo<
        RoleClientSystem,
        Ack,
        Rst,
        ServerSystemSynRcvd,
        SelectOne<RoleServerUser, Close, End>,
    >,
>;

impl ServerSystemSynRcvd {
    pub fn inner(self) -> ServerSystemSynRcvdInner {
        ServerSystemSynRcvdInner::new()
    }
}

impl Action for ServerSystemSynRcvd {
    fn new() -> Self {
        Self(PhantomData)
    }
}

/// The whole choreography of the core: the user's open, the peer's SYN, our
/// SYN+ACK, then SYN-RECEIVED.
pub type ServerSystemSessionType = OfferOne<
    RoleServerUser,
    Open,
    SelectOne<
        RoleServerUser,
        TcbCreated,
        OfferOne<RoleClientSystem, Syn, SelectOne<RoleClientSystem, SynAck, ServerSystemSynRcvd>>,
    >,
>;

/// The user after the peer closed: data to send, until the user closes too.
pub struct ServerUserCloseWait(PhantomData<ServerUserCloseWaitInner>);

pub type ServerUserCloseWaitInner = SelectTwo<RoleServerSystem, Data, Close, ServerUserCloseWait, End>;

impl ServerUserCloseWait {
    pub fn inner(self) -> ServerUserCloseWaitInner {
        ServerUserCloseWaitInner::new()
    }
}

impl Action for ServerUserCloseWait {
    fn new() -> Self {
        Self(PhantomData)
    }
}

/// The user while connected: data from the peer, answered with data or a
/// close; or the news that the peer closed.
pub struct ServerUserCommLoop(PhantomData<ServerUserCommLoopInner>);

pub type ServerUserCommLoopInner = OfferTwo<
    RoleServerSystem,
    Data,
    Close,
    SelectTwo<RoleServerSystem, Data, Close, ServerUserCommLoop, End>,
    ServerUserCloseWait,
>;

impl ServerUserCommLoop {
    pub fn inner(self) -> ServerUserCommLoopInner {
        ServerUserCommLoopInner::new()
    }
}

impl Action for ServerUserCommLoop {
    fn new() -> Self {
        Self(PhantomData)
    }
}

/// The whole choreography of the user: open, learn that the TCB exists, then
/// either the connection or its failure.
pub type ServerUserSessionType = SelectOne<
    RoleServerSystem,
    Open,
    OfferOne<RoleServerSystem, TcbCreated, OfferTwo<RoleServerSystem, Connected, Close, ServerUserCommLoop, End>>,
>;

} // verus!
