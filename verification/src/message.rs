//! The records that members send each other. Each datagram carries one
//! `Swim` record: a ping, an acknowledgement, or a request to ping a third
//! member.

use crate::member::{Member, MemberView};
use vstd::prelude::*;

verus! {

/// What an optional member stands for.
pub open spec fn opt_view(m: Option<Member>) -> Option<MemberView> {
    match m {
        Some(m) => Some(m@),
        None => None,
    }
}

/// A copy of an optional member.
pub fn clone_opt(m: &Option<Member>) -> (c: Option<Member>)
    ensures
        opt_view(c) == opt_view(*m),
{
    match m {
        Some(m) => Some(m.clone()),
        None => None,
    }
}

/// The kind of a record, as the discriminator on the wire names it.
#[derive(Clone, Copy, Debug, PartialEq, Eq, Structural)]
pub enum SwimType {
    Ping,
    Ack,
    PingReq,
}

pub struct PingView {
    pub from: MemberView,
    pub forward_to: Option<MemberView>,
}

/// "Are you there?" With `forward_to`, the ping is sent on behalf of that
/// member, and the answer is meant for it.
#[derive(Debug, PartialEq)]
pub struct Ping {
    pub from: Member,
    pub forward_to: Option<Member>,
}

impl View for Ping {
    type V = PingView;

    open spec fn view(&self) -> PingView {
        PingView { from: self.from@, forward_to: opt_view(self.forward_to) }
    }
}

impl Clone for Ping {
    fn clone(&self) -> (c: Ping)
        ensures
            c@ == self@,
    {
        Ping { from: self.from.clone(), forward_to: clone_opt(&self.forward_to) }
    }
}

pub struct AckView {
    pub from: MemberView,
    pub forward_to: Option<MemberView>,
}

/// "I am here." With `forward_to`, the answer is for that member and not for
/// the one that receives it first.
#[derive(Debug, PartialEq)]
pub struct Ack {
    pub from: Member,
    pub forward_to: Option<Member>,
}

impl View for Ack {
    type V = AckView;

    open spec fn view(&self) -> AckView {
        AckView { from: self.from@, forward_to: opt_view(self.forward_to) }
    }
}

impl Clone for Ack {
    fn clone(&self) -> (c: Ack)
        ensures
            c@ == self@,
    {
        Ack { from: self.from.clone(), forward_to: clone_opt(&self.forward_to) }
    }
}

pub struct PingReqView {
    pub from: MemberView,
    pub target: MemberView,
}

/// "Ping `target` for me."
#[derive(Debug, PartialEq)]
pub struct PingReq {
    pub from: Member,
    pub target: Member,
}

impl View for PingReq {
    type V = PingReqView;

    open spec fn view(&self) -> PingReqView {
        PingReqView { from: self.from@, target: self.target@ }
    }
}

impl Clone for PingReq {
    fn clone(&self) -> (c: PingReq)
        ensures
            c@ == self@,
    {
        PingReq { from: self.from.clone(), target: self.target.clone() }
    }
}

pub enum SwimView {
    Ping(PingView),
    Ack(AckView),
    PingReq(PingReqView),
}

/// One record: its kind and the payload of that kind.
#[derive(Debug, PartialEq)]
pub enum Swim {
    Ping(Ping),
    Ack(Ack),
    PingReq(PingReq),
}

impl View for Swim {
    type V = SwimView;

    open spec fn view(&self) -> SwimView {
        match self {
            Swim::Ping(p) => SwimView::Ping(p@),
            Swim::Ack(a) => SwimView::Ack(a@),
            Swim::PingReq(r) => SwimView::PingReq(r@),
        }
    }
}

impl Clone for Swim {
    fn clone(&self) -> (c: Swim)
        ensures
            c@ == self@,
    {
        match self {
            Swim::Ping(p) => Swim::Ping(p.clone()),
            Swim::Ack(a) => Swim::Ack(a.clone()),
            Swim::PingReq(r) => Swim::PingReq(r.clone()),
        }
    }
}

impl SwimView {
    pub open spec fn field_type(self) -> SwimType {
        match self {
            SwimView::Ping(_) => SwimType::Ping,
            SwimView::Ack(_) => SwimType::Ack,
            SwimView::PingReq(_) => SwimType::PingReq,
        }
    }
}

impl Swim {
    /// The kind of this record.
    pub fn get_field_type(&self) -> (t: SwimType)
        ensures
            t == self@.field_type(),
    {
        match self {
            Swim::Ping(_) => SwimType::Ping,
            Swim::Ack(_) => SwimType::Ack,
            Swim::PingReq(_) => SwimType::PingReq,
        }
    }
}

/// What an optional record stands for.
pub open spec fn opt_swim_view(m: Option<Swim>) -> Option<SwimView> {
    match m {
        Some(m) => Some(m@),
        None => None,
    }
}

} // verus!
