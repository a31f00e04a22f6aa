//! The choreography runtime: single-use witnesses that a participant stands at
//! a given point of its protocol.
use vstd::prelude::*;
use std::marker::PhantomData;

verus! {

/// A step of a protocol; each step can be produced from nothing once the
/// previous one has been consumed.
pub trait Action: Sized {
    fn new() -> Self;
}

/// A participant of a choreography.
pub trait Role {
}

/// Something that can be sent or received in a choreography.
pub trait Message {
}

/// Receive one message of kind `M` from `R`, then continue as `A`.
pub struct OfferOne<R: Role, M: Message, A: Action> {
    phantom: PhantomData<(R, M, A)>,
}

impl<R: Role, M: Message, A: Action> Action for OfferOne<R, M, A> {
    fn new() -> Self {
        OfferOne { phantom: PhantomData }
    }
}

/// Send one message of kind `M` to `R`, then continue as `A`.
pub struct SelectOne<R: Role, M: Message, A: Action> {
    phantom: PhantomData<(R, M, A)>,
}

impl<R: Role, M: Message, A: Action> Action for SelectOne<R, M, A> {
    fn new() -> Self {
        SelectOne { phantom: PhantomData }
    }
}

/// Receive from `R` either an `M1`, continuing as `A1`, or an `M2`,
/// continuing as `A2`.
pub struct OfferTwo<R: Role, M1: Message, M2: Message, A1: Action, A2: Action> {
    phantom: PhantomData<(R, M1, M2, A1, A2)>,
}

impl<R: Role, M1: Message, M2: Message, A1: Action, A2: Action> Action for OfferTwo<
    R,
    M1,
    M2,
    A1,
    A2,
> {
    fn new() -> Self {
        OfferTwo { phantom: PhantomData }
    }
}

/// Which of two branches a received message belongs to.
pub enum Choice {
    Left,
    Right,
}

/// One of two alternatives.
pub enum Branch<L, R> {
    Left(L),
    Right(R),
}

/// Send to `R` either an `M1`, continuing as `A1`, or an `M2`, continuing as
/// `A2`.
pub struct SelectTwo<R: Role, M1: Message, M2: Message, A1: Action, A2: Action> {
    phantom: PhantomData<(R, M1, M2, A1, A2)>,
}

impl<R: Role, M1: Message, M2: Message, A1: Action, A2: Action> Action for SelectTwo<
    R,
    M1,
    M2,
    A1,
    A2,
> {
    fn new() -> Self {
        SelectTwo { phantom: PhantomData }
    }
}

/// The end of a protocol.
#[derive(Copy, Clone)]
pub struct End {}

impl Action for End {
    fn new() -> Self {
        End {}
    }
}

/// The role through which an offer of more than two branches is split into
/// nested offers of two.
pub struct NestRole;

impl Role for NestRole {
}

/// A message of one of two kinds, used to nest offers of more than two
/// branches.
pub enum Nested<M1, M2> {
    Left(M1),
    Right(M2),
}

impl<M1: Message, M2: Message> Message for Nested<M1, M2> {
}

/// Take one step into a nested offer: the message that was already received
/// goes to the branch of its kind.
pub fn nested_offer_two<M1: Message, M2: Message, A1: Action, A2: Action>(
    _o: OfferTwo<NestRole, M1, M2, A1, A2>,
    nested: Nested<M1, M2>,
) -> (r: Branch<(M1, A1), (M2, A2)>)
    ensures
        match (nested, r) {
            (Nested::Left(m), Branch::Left((n, _))) => n == m,
            (Nested::Right(m), Branch::Right((n, _))) => n == m,
            _ => false,
        },
{
    match nested {
        Nested::Left(m1) => Branch::Left((m1, A1::new())),
        Nested::Right(m2) => Branch::Right((m2, A2::new())),
    }
}

/// What an offer yields when its deadline passed with no message.
pub struct Timeout;

impl Message for Timeout {
}

} // verus!
