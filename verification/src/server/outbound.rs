//! The prober: one probe per member and protocol period.
//!
//! A probe pings a member and waits for its acknowledgement. Where none
//! comes in time, the member is marked `Suspect` and up to
//! `PINGREQ_TARGETS` other members are asked to ping it. Where even then no
//! acknowledgement comes in time, the member is marked `Confirmed`.
//!
//! The prober does not wait, send or read the clock by itself. Its caller
//! looks at the queue from the receiver, tells the prober what it found
//! there, and carries out the actions that the prober answers with.

use crate::clock::{steady_now_ms, MAX_STEADY_MS};
use crate::member::{
    is_listing, is_target_choice, ref_views_of, views_of, Health, Member, MemberListView,
    MemberView,
};
use crate::message::{
    opt_view, Ack, AckView, Ping, PingReq, PingReqView, PingView, Swim, SwimView,
};
use crate::server::{actions_view, Action, ActionView, Server};
use crate::trace::TraceKind;
use vstd::prelude::*;

verus! {

/// How long the prober sleeps when it finds its queue empty, in milliseconds.
pub const PING_RECV_QUEUE_EMPTY_SLEEP_MS: u64 = 10;

/// How long the prober waits for the answer to a ping, unless told otherwise, in milliseconds.
pub const PING_TIMING_DEFAULT_MS: i64 = 1000;

/// How long the prober waits for an answer by way of the helpers, unless told otherwise, in milliseconds.
pub const PINGREQ_TIMING_DEFAULT_MS: i64 = 1100;

/// The phase of a probe: waiting for the answer to its own ping, or for an
/// answer to the pings of the helpers.
#[derive(Clone, Copy, Debug, PartialEq, Eq, Structural)]
pub enum AckFrom {
    Ping,
    PingReq,
}

impl AckFrom {
    pub open spec fn name(self) -> Seq<char> {
        match self {
            AckFrom::Ping => "Ping"@,
            AckFrom::PingReq => "PingReq"@,
        }
    }

    pub fn to_string(&self) -> (s: String)
        ensures
            s@ == self.name(),
    {
        match self {
            AckFrom::Ping => "Ping".to_owned(),
            AckFrom::PingReq => "PingReq".to_owned(),
        }
    }
}

/// The two time budgets of a probe. Their sum is the protocol period: the
/// time from the start of one probe to the start of the next.
#[derive(Clone, Copy, Debug, PartialEq, Eq, Structural)]
pub struct Timing {
    pub ping_ms: i64,
    pub pingreq_ms: i64,
}

impl Default for Timing {
    fn default() -> (timing: Timing)
        ensures
            timing.ping_ms == PING_TIMING_DEFAULT_MS,
            timing.pingreq_ms == PINGREQ_TIMING_DEFAULT_MS,
    {
        Timing { ping_ms: PING_TIMING_DEFAULT_MS, pingreq_ms: PINGREQ_TIMING_DEFAULT_MS }
    }
}

/// Whether `n` is a number that an `i64` can hold.
pub open spec fn fits_i64(n: int) -> bool {
    i64::MIN <= n <= i64::MAX
}

impl Timing {
    pub fn new(ping_ms: i64, pingreq_ms: i64) -> (timing: Timing)
        ensures
            timing.ping_ms == ping_ms,
            timing.pingreq_ms == pingreq_ms,
    {
        Timing { ping_ms, pingreq_ms }
    }

    /// The length of the protocol period, in milliseconds.
    pub fn protocol_period_ms(&self) -> (period: i64)
        requires
            fits_i64(self.ping_ms + self.pingreq_ms),
        ensures
            period == self.ping_ms + self.pingreq_ms,
    {
        self.ping_ms + self.pingreq_ms
    }

    /// When a ping sent at `now` is given up.
    pub fn ping_timeout_from(&self, now: i64) -> (timeout: i64)
        requires
            fits_i64(now + self.ping_ms),
        ensures
            timeout == now + self.ping_ms,
    {
        now + self.ping_ms
    }

    /// When the helpers asked at `now` are given up.
    pub fn pingreq_timeout_from(&self, now: i64) -> (timeout: i64)
        requires
            fits_i64(now + self.pingreq_ms),
        ensures
            timeout == now + self.pingreq_ms,
    {
        now + self.pingreq_ms
    }

    /// When the protocol period that begins at `now` ends.
    pub fn next_protocol_period_from(&self, now: i64) -> (deadline: i64)
        requires
            fits_i64(self.ping_ms + self.pingreq_ms),
            fits_i64(now + self.ping_ms + self.pingreq_ms),
        ensures
            deadline == now + self.ping_ms + self.pingreq_ms,
    {
        now + (self.ping_ms + self.pingreq_ms)
    }

    /// When a ping sent at this moment is given up: `ping_ms` after the
    /// reading of the steady clock.
    pub fn ping_timeout(&self) -> (timeout: i64)
        requires
            self.ping_ms + MAX_STEADY_MS <= i64::MAX,
        ensures
            0 <= timeout - self.ping_ms <= MAX_STEADY_MS,
    {
        self.ping_timeout_from(steady_now_ms())
    }

    /// When the helpers asked at this moment are given up: `pingreq_ms`
    /// after the reading of the steady clock.
    pub fn pingreq_timeout(&self) -> (timeout: i64)
        requires
            self.pingreq_ms + MAX_STEADY_MS <= i64::MAX,
        ensures
            0 <= timeout - self.pingreq_ms <= MAX_STEADY_MS,
    {
        self.pingreq_timeout_from(steady_now_ms())
    }

    /// When the protocol period that begins at this moment ends: both
    /// budgets after the reading of the steady clock.
    pub fn next_protocol_period(&self) -> (deadline: i64)
        requires
            fits_i64(self.ping_ms + self.pingreq_ms),
            self.ping_ms + self.pingreq_ms + MAX_STEADY_MS <= i64::MAX,
        ensures
            0 <= deadline - (self.ping_ms + self.pingreq_ms) <= MAX_STEADY_MS,
    {
        self.next_protocol_period_from(steady_now_ms())
    }

    /// How long to sleep at `now` until `deadline`, in milliseconds; nothing
    /// where the deadline has passed.
    pub fn time_left(deadline: i64, now: i64) -> (left: Option<u64>)
        ensures
            left == if now <= deadline {
                Some((deadline - now) as u64)
            } else {
                None
            },
    {
        if now <= deadline {
            Some((deadline as i128 - now as i128) as u64)
        } else {
            None
        }
    }
}

/// The ping that `from` sends, on behalf of `forward_to` where there is one.
pub open spec fn ping_record(from: MemberView, forward_to: Option<MemberView>) -> SwimView {
    SwimView::Ping(PingView { from, forward_to })
}

/// The acknowledgement that `from` sends, meant for `forward_to` where there is one.
pub open spec fn ack_record(from: MemberView, forward_to: Option<MemberView>) -> SwimView {
    SwimView::Ack(AckView { from, forward_to })
}

/// The request of `from` to ping `target`.
pub open spec fn pingreq_record(from: MemberView, target: MemberView) -> SwimView {
    SwimView::PingReq(PingReqView { from, target })
}

/// Sending `msg` to `addr`, and then telling the trace sink so under `kind`.
pub open spec fn sent(kind: TraceKind, addr: Seq<char>, msg: SwimView) -> Seq<ActionView> {
    seq![ActionView::Send { addr, msg }, ActionView::Trace { kind, peer: addr, record: Some(msg) }]
}

/// Telling the trace sink of `kind` at `peer`, with no record.
pub open spec fn noted(kind: TraceKind, peer: Seq<char>) -> ActionView {
    ActionView::Trace { kind, peer, record: None }
}

/// Asks the helper `pingreq_target` to ping `target`.
pub fn pingreq(server: &Server, pingreq_target: &Member, target: &Member) -> (actions: Vec<Action>)
    ensures
        actions_view(actions@) == sent(
            TraceKind::SendPingReq,
            pingreq_target@.address,
            pingreq_record(server.member@, target@),
        ),
{
    let msg = Swim::PingReq(PingReq { from: server.member.clone(), target: target.clone() });
    let mut actions: Vec<Action> = Vec::new();
    actions.push(Action::Send { addr: pingreq_target.address.clone(), msg: msg.clone() });
    actions.push(
        Action::Trace {
            kind: TraceKind::SendPingReq,
            peer: pingreq_target.address.clone(),
            record: Some(msg),
        },
    );
    actions
}

/// Pings the member at `addr`, on behalf of `forward_to` where there is one.
pub fn ping(server: &Server, addr: String, forward_to: Option<Member>) -> (actions: Vec<Action>)
    ensures
        actions_view(actions@) == sent(
            TraceKind::SendPing,
            addr@,
            ping_record(server.member@, opt_view(forward_to)),
        ),
{
    let msg = Swim::Ping(Ping { from: server.member.clone(), forward_to });
    let mut actions: Vec<Action> = Vec::new();
    actions.push(Action::Send { addr: addr.clone(), msg: msg.clone() });
    actions.push(Action::Trace { kind: TraceKind::SendPing, peer: addr, record: Some(msg) });
    actions
}

/// Passes the acknowledgement `swim`, as it is, on to `addr`.
pub fn forward_ack(server: &Server, addr: String, swim: Swim) -> (actions: Vec<Action>)
    ensures
        actions_view(actions@) == seq![
            ActionView::Trace { kind: TraceKind::SendForwardAck, peer: addr@, record: Some(swim@) },
            ActionView::Send { addr: addr@, msg: swim@ },
        ],
{
    let mut actions: Vec<Action> = Vec::new();
    actions.push(
        Action::Trace {
            kind: TraceKind::SendForwardAck,
            peer: addr.clone(),
            record: Some(swim.clone()),
        },
    );
    actions.push(Action::Send { addr, msg: swim });
    actions
}

/// Acknowledges a ping to the member at `addr`. With `forward_to`, the
/// acknowledgement is meant for that member.
pub fn ack(server: &Server, addr: String, forward_to: Option<Member>) -> (actions: Vec<Action>)
    ensures
        actions_view(actions@) == sent(
            TraceKind::SendAck,
            addr@,
            ack_record(server.member@, opt_view(forward_to)),
        ),
{
    let msg = Swim::Ack(Ack { from: server.member.clone(), forward_to });
    let mut actions: Vec<Action> = Vec::new();
    actions.push(Action::Send { addr: addr.clone(), msg: msg.clone() });
    actions.push(Action::Trace { kind: TraceKind::SendAck, peer: addr, record: Some(msg) });
    actions
}

pub enum InboxView {
    Ack { addr: Seq<char>, ack: AckView },
    Empty { now: i64 },
}

/// What the prober found when it looked at the queue from the receiver: an
/// acknowledgement with the address it came from, or nothing, at the time
/// `now` of the steady clock.
#[derive(Debug, PartialEq)]
pub enum Inbox {
    Ack { addr: String, ack: Ack },
    Empty { now: i64 },
}

impl View for Inbox {
    type V = InboxView;

    open spec fn view(&self) -> InboxView {
        match self {
            Inbox::Ack { addr, ack } => InboxView::Ack { addr: addr@, ack: ack@ },
            Inbox::Empty { now } => InboxView::Empty { now: *now },
        }
    }
}

/// What one look at the queue means to a probe.
#[derive(Clone, Copy, Debug, PartialEq, Eq, Structural)]
pub enum AckWait {
    /// The acknowledgement of the probed member has come.
    Matched,
    /// The acknowledgement of another member has come, and was dropped.
    Discarded,
    /// Nothing has come, and the time is up.
    TimedOut,
    /// Nothing has come yet.
    Pending,
}

/// Where a probe stands.
#[derive(Clone, Copy, Debug, PartialEq, Eq, Structural)]
pub enum ProbeState {
    /// Waiting, until `timeout`, for an acknowledgement in the given phase.
    Waiting { phase: AckFrom, timeout: i64 },
    /// Over: the member was acknowledged, or marked `Confirmed`.
    Done,
}

/// One probe: the member that is probed, and where the probe stands.
#[derive(Debug)]
pub struct Probe {
    pub member: Member,
    pub state: ProbeState,
}

/// What a look at the queue means to the probe of the member `member_id`
/// that waits until `timeout`. An acknowledgement matches when it is from
/// that member, by its identifier and by nothing else.
pub open spec fn ack_wait(member_id: Seq<char>, timeout: i64, inbox: InboxView) -> AckWait {
    match inbox {
        InboxView::Ack { addr, ack } => if ack.from.id == member_id {
            AckWait::Matched
        } else {
            AckWait::Discarded
        },
        InboxView::Empty { now } => if now > timeout {
            AckWait::TimedOut
        } else {
            AckWait::Pending
        },
    }
}

/// The member that an acknowledgement from `addr` tells of. A direct answer
/// is filed with the address it came from. A forwarded one came from the
/// helper's address, so the address written in it stays.
pub open spec fn acked_member(addr: Seq<char>, ack: AckView) -> MemberView {
    if ack.forward_to is None {
        MemberView { address: addr, ..ack.from }
    } else {
        ack.from
    }
}

/// The member list after the probe of `member_id` has looked at the queue.
pub open spec fn list_after_ack(
    list: MemberListView,
    member_id: Seq<char>,
    inbox: InboxView,
) -> MemberListView {
    match inbox {
        InboxView::Ack { addr, ack } => if ack.from.id == member_id {
            list.insert(acked_member(addr, ack), Health::Alive)
        } else {
            list
        },
        InboxView::Empty { now } => list,
    }
}

/// Where the probe of `member_id` stands after one look at the queue.
pub open spec fn probe_next(
    timing: Timing,
    state: ProbeState,
    member_id: Seq<char>,
    inbox: InboxView,
) -> ProbeState {
    match state {
        ProbeState::Done => ProbeState::Done,
        ProbeState::Waiting { phase, timeout } => match ack_wait(member_id, timeout, inbox) {
            AckWait::Matched => ProbeState::Done,
            AckWait::Discarded => state,
            AckWait::Pending => state,
            AckWait::TimedOut => match phase {
                AckFrom::Ping => ProbeState::Waiting {
                    phase: AckFrom::PingReq,
                    timeout: (inbox->now + timing.pingreq_ms) as i64,
                },
                AckFrom::PingReq => ProbeState::Done,
            },
        },
    }
}

/// The health that the probe of `member_id` writes for it in one step, if it writes any.
pub open spec fn probe_writes(state: ProbeState, member_id: Seq<char>, inbox: InboxView) -> Option<
    Health,
> {
    match state {
        ProbeState::Done => None,
        ProbeState::Waiting { phase, timeout } => match ack_wait(member_id, timeout, inbox) {
            AckWait::Matched => Some(Health::Alive),
            AckWait::Discarded => None,
            AckWait::Pending => None,
            AckWait::TimedOut => match phase {
                AckFrom::Ping => Some(Health::Suspect),
                AckFrom::PingReq => Some(Health::Confirmed),
            },
        },
    }
}

/// The member list after one step of the probe of `member`.
pub open spec fn probe_list(
    list: MemberListView,
    state: ProbeState,
    member: MemberView,
    inbox: InboxView,
) -> MemberListView {
    match state {
        ProbeState::Done => list,
        ProbeState::Waiting { phase, timeout } => match ack_wait(member.id, timeout, inbox) {
            AckWait::Matched => list_after_ack(list, member.id, inbox),
            AckWait::Discarded => list,
            AckWait::Pending => list,
            AckWait::TimedOut => match phase {
                AckFrom::Ping => list.insert_health(member.id, Health::Suspect),
                AckFrom::PingReq => list.insert_health(member.id, Health::Confirmed),
            },
        },
    }
}

/// Whether the step takes the probe from its own ping to the helpers.
pub open spec fn asks_helpers(state: ProbeState, member_id: Seq<char>, inbox: InboxView) -> bool {
    state matches ProbeState::Waiting { phase, timeout } && phase == AckFrom::Ping && ack_wait(
        member_id,
        timeout,
        inbox,
    ) == AckWait::TimedOut
}

/// Asking each of `helpers` in turn to ping `member` for `me`, and telling
/// the trace sink before each request.
pub open spec fn pingreq_round(
    me: MemberView,
    member: MemberView,
    helpers: Seq<MemberView>,
) -> Seq<ActionView>
    decreases helpers.len(),
{
    if helpers.len() == 0 {
        Seq::empty()
    } else {
        pingreq_round(me, member, helpers.drop_last()) + seq![
            noted(TraceKind::ProbePingReq, helpers.last().address),
        ] + sent(
            TraceKind::SendPingReq,
            helpers.last().address,
            pingreq_record(me, member),
        )
    }
}

/// What one step of the probe of `member` asks of the outside world, where
/// `helpers` are the members that it turns to when its own ping has timed out.
pub open spec fn probe_actions(
    state: ProbeState,
    me: MemberView,
    member: MemberView,
    inbox: InboxView,
    helpers: Seq<MemberView>,
) -> Seq<ActionView> {
    match state {
        ProbeState::Done => Seq::empty(),
        ProbeState::Waiting { phase, timeout } => match ack_wait(member.id, timeout, inbox) {
            AckWait::Matched => match phase {
                AckFrom::Ping => seq![
                    noted(TraceKind::ProbeAckReceived, member.address),
                    noted(TraceKind::ProbeComplete, member.address),
                ],
                AckFrom::PingReq => seq![noted(TraceKind::ProbeComplete, member.address)],
            },
            AckWait::Discarded => Seq::empty(),
            AckWait::Pending => seq![ActionView::Sleep { ms: PING_RECV_QUEUE_EMPTY_SLEEP_MS }],
            AckWait::TimedOut => match phase {
                AckFrom::Ping => seq![noted(TraceKind::ProbeMarkedSuspect, member.address)]
                    + pingreq_round(me, member, helpers),
                AckFrom::PingReq => seq![
                    noted(TraceKind::ProbeMarkedConfirmed, member.address),
                    noted(TraceKind::ProbeComplete, member.address),
                ],
            },
        },
    }
}

/// Whether the prober probes `member`: it is alive, or it is persistent and
/// has any health at all.
pub open spec fn is_pingable(list: MemberListView, member: MemberView) -> bool {
    list.health.dom().contains(member.id) && (list.health[member.id] == Health::Alive
        || member.persistent)
}

/// The count of rounds after one more.
pub open spec fn next_round(rounds: isize) -> isize {
    if rounds == isize::MAX {
        0
    } else {
        (rounds + 1) as isize
    }
}

/// Puts the actions of `more` behind those of `actions`.
fn append(actions: &mut Vec<Action>, more: Vec<Action>)
    ensures
        actions_view(final(actions)@) == actions_view(old(actions)@) + actions_view(more@),
{
    let mut more = more;
    actions.append(&mut more);
}

/// A trace event without a record.
fn note(kind: TraceKind, peer: &String) -> (action: Action)
    ensures
        action@ == noted(kind, peer@),
{
    Action::Trace { kind, peer: peer.clone(), record: None }
}

/// The prober, with the time budgets it keeps to.
#[derive(Debug)]
pub struct Outbound {
    pub timing: Timing,
}

impl Outbound {
    pub fn new(timing: Timing) -> (outbound: Outbound)
        ensures
            outbound.timing == timing,
    {
        Outbound { timing }
    }

    /// The start of one turn of the prober. A paused prober does nothing,
    /// and its caller sleeps for `PAUSE_SLEEP_MS`. Otherwise a round begins:
    /// it is counted, and the members are handed out in an order drawn at
    /// random, to be looked at one after the other.
    pub fn run(&self, server: &mut Server) -> (round: Option<Vec<Member>>)
        requires
            old(server).wf(),
        ensures
            final(server).wf(),
            final(server).member_list == old(server).member_list,
            final(server).name == old(server).name,
            final(server).port == old(server).port,
            final(server).member == old(server).member,
            final(server).pause == old(server).pause,
            final(server).blacklist == old(server).blacklist,
            final(server).rounds == if old(server).pause {
                old(server).rounds
            } else {
                next_round(old(server).rounds)
            },
            match round {
                Some(list) => !old(server).pause && is_listing(
                    views_of(list@),
                    old(server).member_list@.members,
                ),
                None => old(server).pause,
            },
    {
        if server.paused() {
            return None;
        }
        server.update_round();
        Some(server.member_list.check_list())
    }

    /// Whether `member` is one to probe: see `is_pingable`.
    pub fn pingable(server: &Server, member: &Member) -> (pingable: bool)
        requires
            server.wf(),
        ensures
            pingable == is_pingable(server.member_list@, member@),
    {
        match server.member_list.health_of(member) {
            Some(health) => *health == Health::Alive || member.persistent,
            None => false,
        }
    }

    /// Whether the prober probes `member` when its turn in the round has
    /// come: it is pingable, and its address is not on the blacklist.
    pub fn should_probe(server: &Server, member: &Member) -> (probe: bool)
        requires
            server.wf(),
        ensures
            probe == (!server.blacklisted().contains(member@.address) && is_pingable(
                server.member_list@,
                member@,
            )),
    {
        let pingable = Self::pingable(server, member);
        if server.check_blacklist(&member.address) {
            return false;
        }
        pingable
    }

    /// Begins the probe of `member` at the time `now`: pings it, and waits
    /// for the answer until `ping_ms` later.
    pub fn begin_probe(&self, server: &Server, member: Member, now: i64) -> (begun: (
        Probe,
        Vec<Action>,
    ))
        requires
            fits_i64(now + self.timing.ping_ms),
        ensures
            begun.0.member@ == member@,
            begun.0.state == (ProbeState::Waiting {
                phase: AckFrom::Ping,
                timeout: (now + self.timing.ping_ms) as i64,
            }),
            actions_view(begun.1@) == seq![noted(TraceKind::ProbeBegin, member@.address)] + sent(
                TraceKind::SendPing,
                member@.address,
                ping_record(server.member@, None),
            ),
    {
        let mut actions: Vec<Action> = Vec::new();
        actions.push(note(TraceKind::ProbeBegin, &member.address));
        append(&mut actions, ping(server, member.address.clone(), None));
        let timeout = self.timing.ping_timeout_from(now);
        (Probe { member, state: ProbeState::Waiting { phase: AckFrom::Ping, timeout } }, actions)
    }

    /// One look at the queue for the probe of `member` that waits until
    /// `timeout`. The acknowledgement of `member` is filed in the member
    /// list as `Alive`; any other is dropped.
    pub fn recv_ack(server: &mut Server, member: &Member, timeout: i64, inbox: Inbox) -> (outcome:
        AckWait)
        requires
            old(server).wf(),
        ensures
            final(server).wf(),
            final(server).same_but_list(old(server)),
            outcome == ack_wait(member@.id, timeout, inbox@),
            final(server).member_list@ == list_after_ack(
                old(server).member_list@,
                member@.id,
                inbox@,
            ),
    {
        match inbox {
            Inbox::Ack { addr, ack } => {
                if member.id != ack.from.id {
                    return AckWait::Discarded;
                }
                let direct = ack.forward_to.is_none();
                let mut from = ack.from;
                if direct {
                    from.address = addr;
                }
                server.member_list.insert(from, Health::Alive);
                AckWait::Matched
            },
            Inbox::Empty { now } => {
                if now > timeout {
                    AckWait::TimedOut
                } else {
                    AckWait::Pending
                }
            },
        }
    }

    /// Asks each of `helpers` in turn to ping `member`.
    pub fn ask_helpers(server: &Server, member: &Member, helpers: &Vec<&Member>) -> (actions: Vec<
        Action,
    >)
        ensures
            actions_view(actions@) == pingreq_round(server.member@, member@, ref_views_of(helpers@)),
    {
        let mut actions: Vec<Action> = Vec::new();
        let mut i: usize = 0;
        while i < helpers.len()
            invariant
                i <= helpers@.len(),
                actions_view(actions@) == pingreq_round(
                    server.member@,
                    member@,
                    ref_views_of(helpers@).take(i as int),
                ),
            decreases helpers@.len() - i,
        {
            let helper = helpers[i];
            actions.push(note(TraceKind::ProbePingReq, &helper.address));
            append(&mut actions, pingreq(server, helper, member));
            proof {
                let all = ref_views_of(helpers@);
                assert(all.take(i + 1).drop_last() =~= all.take(i as int));
            }
            i += 1;
        }
        assert(ref_views_of(helpers@).take(helpers@.len() as int) =~= ref_views_of(helpers@));
        actions
    }

    /// One step of a probe: what the prober does when it has looked at the
    /// queue and found `inbox`.
    ///
    /// While the probe waits, the acknowledgement of its member ends it, with
    /// the member filed as `Alive`; any other acknowledgement is dropped; an
    /// empty queue before the timeout lets the caller sleep for
    /// `PING_RECV_QUEUE_EMPTY_SLEEP_MS`. An empty queue after the timeout of
    /// the first phase marks the member `Suspect`, asks the helpers, and
    /// waits for `pingreq_ms` more; after the timeout of the second phase it
    /// marks the member `Confirmed` and ends the probe. A probe that is over
    /// does nothing.
    pub fn probe(&self, server: &mut Server, probe: &mut Probe, inbox: Inbox) -> (actions: Vec<
        Action,
    >)
        requires
            old(server).wf(),
            inbox@ matches InboxView::Empty { now } ==> fits_i64(now + self.timing.pingreq_ms),
        ensures
            final(server).wf(),
            final(server).same_but_list(old(server)),
            final(probe).member@ == old(probe).member@,
            final(probe).state == probe_next(
                self.timing,
                old(probe).state,
                old(probe).member@.id,
                inbox@,
            ),
            final(server).member_list@ == probe_list(
                old(server).member_list@,
                old(probe).state,
                old(probe).member@,
                inbox@,
            ),
            !asks_helpers(old(probe).state, old(probe).member@.id, inbox@) ==> actions_view(
                actions@,
            ) == probe_actions(
                old(probe).state,
                old(server).member@,
                old(probe).member@,
                inbox@,
                Seq::empty(),
            ),
            asks_helpers(old(probe).state, old(probe).member@.id, inbox@) ==> exists|
                helpers: Seq<MemberView>,
            |
                is_target_choice(
                    old(server).member_list@,
                    old(server).member@.id,
                    old(probe).member@.id,
                    helpers,
                ) && actions_view(actions@) == #[trigger] probe_actions(
                    old(probe).state,
                    old(server).member@,
                    old(probe).member@,
                    inbox@,
                    helpers,
                ),
    {
        let mut actions: Vec<Action> = Vec::new();
        match probe.state {
            ProbeState::Done => {},
            ProbeState::Waiting { phase, timeout } => {
                let now = match &inbox {
                    Inbox::Ack { .. } => 0,
                    Inbox::Empty { now } => *now,
                };
                match Self::recv_ack(server, &probe.member, timeout, inbox) {
                    AckWait::Matched => {
                        match phase {
                            AckFrom::Ping => {
                                actions.push(
                                    note(TraceKind::ProbeAckReceived, &probe.member.address),
                                );
                            },
                            AckFrom::PingReq => {},
                        }
                        actions.push(note(TraceKind::ProbeComplete, &probe.member.address));
                        probe.state = ProbeState::Done;
                    },
                    AckWait::Discarded => {},
                    AckWait::Pending => {
                        actions.push(Action::Sleep { ms: PING_RECV_QUEUE_EMPTY_SLEEP_MS });
                    },
                    AckWait::TimedOut => match phase {
                        AckFrom::Ping => {
                            actions.push(
                                note(TraceKind::ProbeMarkedSuspect, &probe.member.address),
                            );
                            server.member_list.insert_health(&probe.member, Health::Suspect);
                            let helpers = server.member_list.pingreq_targets(
                                &server.member,
                                &probe.member,
                            );
                            append(
                                &mut actions,
                                Self::ask_helpers(server, &probe.member, &helpers),
                            );
                            probe.state = ProbeState::Waiting {
                                phase: AckFrom::PingReq,
                                timeout: self.timing.pingreq_timeout_from(now),
                            };
                            proof {
                                let chosen = ref_views_of(helpers@);
                                assert(actions_view(actions@) == probe_actions(
                                    old(probe).state,
                                    old(server).member@,
                                    old(probe).member@,
                                    inbox@,
                                    chosen,
                                ));
                            }
                        },
                        AckFrom::PingReq => {
                            actions.push(
                                note(TraceKind::ProbeMarkedConfirmed, &probe.member.address),
                            );
                            server.member_list.insert_health(&probe.member, Health::Confirmed);
                            actions.push(note(TraceKind::ProbeComplete, &probe.member.address));
                            probe.state = ProbeState::Done;
                        },
                    },
                }
            },
        }
        actions
    }
}

/// The health labels that a probe of `member_id` writes for it, in their
/// order, when it starts in `state` and looks at the queue once for each of
/// `inboxes`.
pub open spec fn labels_written(
    timing: Timing,
    state: ProbeState,
    member_id: Seq<char>,
    inboxes: Seq<InboxView>,
) -> Seq<Health>
    decreases inboxes.len(),
{
    if inboxes.len() == 0 {
        Seq::empty()
    } else {
        let rest = labels_written(
            timing,
            probe_next(timing, state, member_id, inboxes[0]),
            member_id,
            inboxes.drop_first(),
        );
        match probe_writes(state, member_id, inboxes[0]) {
            Some(health) => seq![health] + rest,
            None => rest,
        }
    }
}

/// The changes of health that one probe may make: to `Alive` from any health
/// but `Confirmed`, and to the next stricter health.
pub open spec fn health_step_allowed(before: Health, after: Health) -> bool {
    (after == Health::Alive && before != Health::Confirmed) || after.rank() == before.rank() + 1
}

/// A probe that is over writes nothing more.
pub proof fn lemma_done_writes_nothing(
    timing: Timing,
    member_id: Seq<char>,
    inboxes: Seq<InboxView>,
)
    ensures
        labels_written(timing, ProbeState::Done, member_id, inboxes) == Seq::<Health>::empty(),
    decreases inboxes.len(),
{
    if inboxes.len() > 0 {
        lemma_done_writes_nothing(timing, member_id, inboxes.drop_first());
    }
}

/// A probe that waits for the helpers writes nothing, or `Alive`, or `Confirmed`.
pub proof fn lemma_second_phase_labels(
    timing: Timing,
    timeout: i64,
    member_id: Seq<char>,
    inboxes: Seq<InboxView>,
)
    ensures
        ({
            let written = labels_written(
                timing,
                ProbeState::Waiting { phase: AckFrom::PingReq, timeout },
                member_id,
                inboxes,
            );
            ||| written == Seq::<Health>::empty()
            ||| written == seq![Health::Alive]
            ||| written == seq![Health::Confirmed]
        }),
    decreases inboxes.len(),
{
    if inboxes.len() > 0 {
        let state = ProbeState::Waiting { phase: AckFrom::PingReq, timeout };
        let next = probe_next(timing, state, member_id, inboxes[0]);
        if next == ProbeState::Done {
            lemma_done_writes_nothing(timing, member_id, inboxes.drop_first());
            let rest = labels_written(timing, next, member_id, inboxes.drop_first());
            match probe_writes(state, member_id, inboxes[0]) {
                Some(health) => {
                    assert(seq![health] + rest =~= seq![health]);
                },
                None => {},
            }
        } else {
            lemma_second_phase_labels(timing, timeout, member_id, inboxes.drop_first());
        }
    }
}

/// Within one probe the health of the probed member is only ever written
/// in one of these orders: `Alive`; `Suspect`; `Suspect` and then `Alive`;
/// `Suspect` and then `Confirmed`. So a probe of a member that was `Alive`
/// makes none but the allowed changes, and after `Confirmed` it makes none.
pub proof fn law_probe_health_order(
    timing: Timing,
    timeout: i64,
    member_id: Seq<char>,
    inboxes: Seq<InboxView>,
)
    ensures
        ({
            let written = labels_written(
                timing,
                ProbeState::Waiting { phase: AckFrom::Ping, timeout },
                member_id,
                inboxes,
            );
            let path = seq![Health::Alive] + written;
            &&& (written == Seq::<Health>::empty() || written == seq![Health::Alive] || written
                == seq![Health::Suspect] || written == seq![Health::Suspect, Health::Alive]
                || written == seq![Health::Suspect, Health::Confirmed])
            &&& forall|i: int|
                0 <= i < path.len() - 1 ==> health_step_allowed(#[trigger] path[i], path[i + 1])
            &&& forall|i: int|
                0 <= i < path.len() - 1 ==> #[trigger] path[i] != Health::Confirmed
        }),
    decreases inboxes.len(),
{
    let state = ProbeState::Waiting { phase: AckFrom::Ping, timeout };
    let written = labels_written(timing, state, member_id, inboxes);
    if inboxes.len() > 0 {
        let next = probe_next(timing, state, member_id, inboxes[0]);
        let rest = labels_written(timing, next, member_id, inboxes.drop_first());
        match ack_wait(member_id, timeout, inboxes[0]) {
            AckWait::Matched => {
                lemma_done_writes_nothing(timing, member_id, inboxes.drop_first());
                assert(written =~= seq![Health::Alive]);
            },
            AckWait::TimedOut => {
                lemma_second_phase_labels(
                    timing,
                    (inboxes[0]->now + timing.pingreq_ms) as i64,
                    member_id,
                    inboxes.drop_first(),
                );
                assert(written == seq![Health::Suspect] + rest);
                if rest == Seq::<Health>::empty() {
                    assert(written =~= seq![Health::Suspect]);
                } else if rest == seq![Health::Alive] {
                    assert(written =~= seq![Health::Suspect, Health::Alive]);
                } else {
                    assert(written =~= seq![Health::Suspect, Health::Confirmed]);
                }
            },
            _ => {
                law_probe_health_order(timing, timeout, member_id, inboxes.drop_first());
            },
        }
    }
    let path = seq![Health::Alive] + written;
    assert forall|i: int| 0 <= i < path.len() - 1 implies health_step_allowed(
        #[trigger] path[i],
        path[i + 1],
    ) && path[i] != Health::Confirmed by {
        if i == 0 {
            assert(path[1] == written[0]);
        } else {
            assert(path[1] == written[0]);
            assert(path[2] == written[1]);
        }
    }
}

/// The acknowledgement of the probed member, come while the probe waits
/// for the helpers, ends the probe with the member `Alive`: `Confirmed` is
/// not written, and nothing is written after it.
pub proof fn law_ack_revives_suspect(
    timing: Timing,
    list: MemberListView,
    member: MemberView,
    timeout: i64,
    addr: Seq<char>,
    ack: AckView,
    later: Seq<InboxView>,
)
    requires
        ack.from.id == member.id,
    ensures
        ({
            let state = ProbeState::Waiting { phase: AckFrom::PingReq, timeout };
            let inbox = InboxView::Ack { addr, ack };
            let after = probe_list(list, state, member, inbox);
            &&& probe_next(timing, state, member.id, inbox) == ProbeState::Done
            &&& after.health.dom().contains(member.id)
            &&& after.health[member.id] == Health::Alive
            &&& after.members.dom().contains(member.id)
            &&& after.members[member.id] == acked_member(addr, ack)
            &&& labels_written(timing, state, member.id, seq![inbox] + later) == seq![
                Health::Alive,
            ]
        }),
{
    let state = ProbeState::Waiting { phase: AckFrom::PingReq, timeout };
    let inbox = InboxView::Ack { addr, ack };
    let inboxes = seq![inbox] + later;
    assert(inboxes[0] == inbox);
    assert(inboxes.drop_first() =~= later);
    lemma_done_writes_nothing(timing, member.id, later);
    assert(seq![Health::Alive] + Seq::<Health>::empty() =~= seq![Health::Alive]);
}

} // verus!
