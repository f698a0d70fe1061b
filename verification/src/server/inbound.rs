//! The receiver: what to do with each record that arrives.
//!
//! A ping is acknowledged and its sender filed as alive. A request to ping
//! is carried out, with the answer meant for the one who asked. An
//! acknowledgement meant for another member is passed on to it; any other
//! goes to the prober.

use crate::codec::{decode, swim_of};
use crate::member::{Health, MemberListView, MemberView};
use crate::message::{Ack, AckView, Ping, PingReq, PingReqView, PingView, Swim, SwimView};
use crate::server::outbound::{ack, ack_record, forward_ack, ping, ping_record, sent};
use crate::server::{actions_view, Action, ActionView, Server};
use crate::trace::TraceKind;
use vstd::prelude::*;

verus! {

/// The length of the buffer that a datagram is read into, in bytes.
pub const RECV_BUFFER_LEN: usize = 1024;

/// Telling the trace sink that `msg` has come from `addr`.
pub open spec fn heard(kind: TraceKind, addr: Seq<char>, msg: SwimView) -> ActionView {
    ActionView::Trace { kind, peer: addr, record: Some(msg) }
}

/// The sender of a ping as it is filed: under the address that the ping was
/// seen to come from, whatever address is written in it.
pub open spec fn ping_sender(addr: Seq<char>, msg: PingView) -> MemberView {
    MemberView { address: addr, ..msg.from }
}

/// What the receiver does with a ping from `addr`: it acknowledges it to
/// `addr`, and names in the acknowledgement the member that the ping was
/// sent on behalf of, where there is one.
pub open spec fn ping_received(me: MemberView, addr: Seq<char>, msg: PingView) -> Seq<ActionView> {
    seq![heard(TraceKind::RecvPing, addr, SwimView::Ping(msg))] + sent(
        TraceKind::SendAck,
        addr,
        ack_record(me, msg.forward_to),
    )
}

/// What the receiver does with a request from `addr` to ping a member: it
/// pings the address under which it has filed that member, on behalf of the
/// one who asked; where it has not filed that member, nothing.
pub open spec fn pingreq_received(
    me: MemberView,
    list: MemberListView,
    addr: Seq<char>,
    msg: PingReqView,
) -> Seq<ActionView> {
    seq![heard(TraceKind::RecvPingReq, addr, SwimView::PingReq(msg))] + if list.members.dom().contains(
        msg.target.id,
    ) {
        sent(
            TraceKind::SendPing,
            list.members[msg.target.id].address,
            ping_record(me, Some(msg.from)),
        )
    } else {
        Seq::empty()
    }
}

/// Whether an acknowledgement is meant for another member than `me`.
pub open spec fn is_for_another(me: MemberView, msg: AckView) -> bool {
    msg.forward_to matches Some(to) && to.id != me.id
}

/// What the receiver does with an acknowledgement from `addr`: one meant
/// for another member is sent on to the address written for that member, as
/// it is; any other is handed to the prober.
pub open spec fn ack_received(me: MemberView, addr: Seq<char>, msg: AckView) -> Seq<ActionView> {
    seq![heard(TraceKind::RecvAck, addr, SwimView::Ack(msg))] + if is_for_another(me, msg) {
        seq![
            heard(TraceKind::SendForwardAck, msg.forward_to->0.address, SwimView::Ack(msg)),
            ActionView::Send { addr: msg.forward_to->0.address, msg: SwimView::Ack(msg) },
        ]
    } else {
        seq![ActionView::Deliver { addr, ack: msg }]
    }
}

/// What the receiver does with a record from `addr`.
pub open spec fn received(
    me: MemberView,
    list: MemberListView,
    addr: Seq<char>,
    msg: SwimView,
) -> Seq<ActionView> {
    match msg {
        SwimView::Ping(ping) => ping_received(me, addr, ping),
        SwimView::Ack(ack) => ack_received(me, addr, ack),
        SwimView::PingReq(pingreq) => pingreq_received(me, list, addr, pingreq),
    }
}

/// The member list after the receiver has dealt with a record from `addr`:
/// only a ping changes it.
pub open spec fn list_after(list: MemberListView, addr: Seq<char>, msg: SwimView) -> MemberListView {
    match msg {
        SwimView::Ping(ping) => list.insert(ping_sender(addr, ping), Health::Alive),
        SwimView::Ack(ack) => list,
        SwimView::PingReq(pingreq) => list,
    }
}

/// The record that the receiver takes a datagram from `addr` for: none
/// where `addr` is on the blacklist, and none where the bytes are not a record.
pub open spec fn accepted(blacklist: Set<Seq<char>>, addr: Seq<char>, datagram: Seq<u8>) -> Option<
    SwimView,
> {
    if blacklist.contains(addr) {
        None
    } else {
        match swim_of(datagram) {
            Ok(msg) => Some(msg),
            Err(_) => None,
        }
    }
}

/// A trace event with the record that it is about.
fn hear(kind: TraceKind, addr: &String, msg: Swim) -> (action: Action)
    ensures
        action@ == heard(kind, addr@, msg@),
{
    Action::Trace { kind, peer: addr.clone(), record: Some(msg) }
}

/// Puts the actions of `more` behind `first`.
fn after(first: Action, more: Vec<Action>) -> (actions: Vec<Action>)
    ensures
        actions_view(actions@) == seq![first@] + actions_view(more@),
{
    let mut actions: Vec<Action> = Vec::new();
    actions.push(first);
    let mut more = more;
    actions.append(&mut more);
    actions
}

/// The receiver.
#[derive(Debug)]
pub struct Inbound {
    /// The length of the buffer that a datagram is read into.
    pub buffer_len: usize,
}

impl Inbound {
    pub fn new() -> (inbound: Inbound)
        ensures
            inbound.buffer_len == RECV_BUFFER_LEN,
    {
        Inbound { buffer_len: RECV_BUFFER_LEN }
    }

    /// One turn of the receiver: deals with the datagram that was read, and
    /// that has come from `addr`. A datagram from an address on the
    /// blacklist is dropped, and so is one that is not a record; neither is
    /// answered. Any other is dealt with by the kind of its record.
    pub fn run(&self, server: &mut Server, addr: String, datagram: &[u8]) -> (actions: Vec<Action>)
        requires
            old(server).wf(),
        ensures
            final(server).wf(),
            final(server).same_but_list(old(server)),
            match accepted(old(server).blacklisted(), addr@, datagram@) {
                Some(msg) => final(server).member_list@ == list_after(
                    old(server).member_list@,
                    addr@,
                    msg,
                ) && actions_view(actions@) == received(
                    old(server).member@,
                    old(server).member_list@,
                    addr@,
                    msg,
                ),
                None => final(server).member_list@ == old(server).member_list@ && actions_view(
                    actions@,
                ) == Seq::<ActionView>::empty(),
            },
    {
        if server.check_blacklist(&addr) {
            return Self::nothing();
        }
        match decode(datagram) {
            Ok(msg) => Self::dispatch(server, addr, msg),
            Err(_) => Self::nothing(),
        }
    }

    /// No action.
    fn nothing() -> (actions: Vec<Action>)
        ensures
            actions_view(actions@) == Seq::<ActionView>::empty(),
    {
        let actions: Vec<Action> = Vec::new();
        actions
    }

    /// Deals with the record `msg` that has come from `addr`, by its kind.
    pub fn dispatch(server: &mut Server, addr: String, msg: Swim) -> (actions: Vec<Action>)
        requires
            old(server).wf(),
        ensures
            final(server).wf(),
            final(server).same_but_list(old(server)),
            final(server).member_list@ == list_after(old(server).member_list@, addr@, msg@),
            actions_view(actions@) == received(
                old(server).member@,
                old(server).member_list@,
                addr@,
                msg@,
            ),
    {
        match msg {
            Swim::Ping(ping) => Self::process_ping(server, addr, ping),
            Swim::Ack(ack) => Self::process_ack(server, addr, ack),
            Swim::PingReq(pingreq) => Self::process_pingreq(server, addr, pingreq),
        }
    }

    /// Carries out the request `msg`, come from `addr`, to ping a member.
    pub fn process_pingreq(server: &Server, addr: String, msg: PingReq) -> (actions: Vec<Action>)
        requires
            server.wf(),
        ensures
            actions_view(actions@) == pingreq_received(
                server.member@,
                server.member_list@,
                addr@,
                msg@,
            ),
    {
        let first = hear(TraceKind::RecvPingReq, &addr, Swim::PingReq(msg.clone()));
        let target_addr = match server.member_list.get(&msg.target.id) {
            Some(member) => member.address.clone(),
            None => {
                let actions = after(first, Vec::new());
                return actions;
            },
        };
        after(first, ping(server, target_addr, Some(msg.from)))
    }

    /// Deals with the acknowledgement `msg` that has come from `addr`.
    pub fn process_ack(server: &Server, addr: String, msg: Ack) -> (actions: Vec<Action>)
        ensures
            actions_view(actions@) == ack_received(server.member@, addr@, msg@),
    {
        let first = hear(TraceKind::RecvAck, &addr, Swim::Ack(msg.clone()));
        match &msg.forward_to {
            Some(to) => {
                if server.member.id != to.id {
                    let forward_to_addr = to.address.clone();
                    return after(first, forward_ack(server, forward_to_addr, Swim::Ack(msg)));
                }
            },
            None => {},
        }
        let mut rest: Vec<Action> = Vec::new();
        rest.push(Action::Deliver { addr, ack: msg });
        after(first, rest)
    }

    /// Acknowledges the ping `msg` that has come from `addr`, and files its
    /// sender as alive, under the address `addr`.
    pub fn process_ping(server: &mut Server, addr: String, msg: Ping) -> (actions: Vec<Action>)
        requires
            old(server).wf(),
        ensures
            final(server).wf(),
            final(server).same_but_list(old(server)),
            final(server).member_list@ == old(server).member_list@.insert(
                ping_sender(addr@, msg@),
                Health::Alive,
            ),
            actions_view(actions@) == ping_received(old(server).member@, addr@, msg@),
    {
        let first = hear(TraceKind::RecvPing, &addr, Swim::Ping(msg.clone()));
        let actions = after(first, ack(server, addr.clone(), msg.forward_to));
        let mut from = msg.from;
        from.address = addr;
        server.member_list.insert(from, Health::Alive);
        actions
    }
}

/// The address that a member claims in its ping is not believed: after a
/// ping from `addr`, its sender is filed under `addr`, and as alive.
pub proof fn law_ping_files_observed_address(list: MemberListView, addr: Seq<char>, msg: PingView)
    ensures
        ({
            let after = list_after(list, addr, SwimView::Ping(msg));
            &&& after.members.dom().contains(msg.from.id)
            &&& after.members[msg.from.id].address == addr
            &&& after.members[msg.from.id].id == msg.from.id
            &&& after.health.dom().contains(msg.from.id)
            &&& after.health[msg.from.id] == Health::Alive
        }),
{
}

/// An acknowledgement meant for this member is handed to the prober and is
/// not sent anywhere, and neither is one that is meant for no one.
pub proof fn law_own_ack_is_consumed(
    me: MemberView,
    list: MemberListView,
    addr: Seq<char>,
    msg: AckView,
)
    requires
        msg.forward_to matches Some(to) ==> to.id == me.id,
    ensures
        received(me, list, addr, SwimView::Ack(msg)) == seq![
            heard(TraceKind::RecvAck, addr, SwimView::Ack(msg)),
            ActionView::Deliver { addr, ack: msg },
        ],
        forall|i: int|
            0 <= i < received(me, list, addr, SwimView::Ack(msg)).len() ==> !(#[trigger] received(
                me,
                list,
                addr,
                SwimView::Ack(msg),
            )[i] is Send),
        list_after(list, addr, SwimView::Ack(msg)) == list,
{
}

} // verus!
