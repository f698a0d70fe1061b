//! The state that the receiver and the prober share, and what either of them
//! asks of the outside world.

pub mod inbound;
pub mod outbound;

use crate::member::{Member, MemberList, MemberListView};
use crate::message::{opt_swim_view, Ack, AckView, Swim, SwimView};
use crate::trace::TraceKind;
use vstd::prelude::*;

verus! {

/// How long either loop sleeps before it looks at the pause flag again, in milliseconds.
pub const PAUSE_SLEEP_MS: u64 = 100;

/// The timeout set on reading from and on writing to the socket, in milliseconds.
pub const SOCKET_TIMEOUT_MS: u64 = 1000;

pub enum ActionView {
    Trace { kind: TraceKind, peer: Seq<char>, record: Option<SwimView> },
    Send { addr: Seq<char>, msg: SwimView },
    Deliver { addr: Seq<char>, ack: AckView },
    Sleep { ms: u64 },
}

/// Something that the detector asks of the outside world. The one who runs
/// it carries the actions out in the order in which they are given.
#[derive(Debug, PartialEq)]
pub enum Action {
    /// Hand the event to the trace sink, with the peer's address and, where there is one, the record.
    Trace { kind: TraceKind, peer: String, record: Option<Swim> },
    /// Send the record to the address, as one datagram. Where that fails, the record is lost.
    Send { addr: String, msg: Swim },
    /// Put the acknowledgement, with the address it came from, on the queue from the receiver to the prober.
    Deliver { addr: String, ack: Ack },
    /// Let the time pass.
    Sleep { ms: u64 },
}

impl View for Action {
    type V = ActionView;

    open spec fn view(&self) -> ActionView {
        match self {
            Action::Trace { kind, peer, record } => ActionView::Trace {
                kind: *kind,
                peer: peer@,
                record: opt_swim_view(*record),
            },
            Action::Send { addr, msg } => ActionView::Send { addr: addr@, msg: msg@ },
            Action::Deliver { addr, ack } => ActionView::Deliver { addr: addr@, ack: ack@ },
            Action::Sleep { ms } => ActionView::Sleep { ms: *ms },
        }
    }
}

impl Clone for Action {
    fn clone(&self) -> (c: Action)
        ensures
            c@ == self@,
    {
        match self {
            Action::Trace { kind, peer, record } => Action::Trace {
                kind: *kind,
                peer: peer.clone(),
                record: match record {
                    Some(msg) => Some(msg.clone()),
                    None => None,
                },
            },
            Action::Send { addr, msg } => Action::Send { addr: addr.clone(), msg: msg.clone() },
            Action::Deliver { addr, ack } => Action::Deliver {
                addr: addr.clone(),
                ack: ack.clone(),
            },
            Action::Sleep { ms } => Action::Sleep { ms: *ms },
        }
    }
}

/// What a sequence of actions stands for.
pub open spec fn actions_view(s: Seq<Action>) -> Seq<ActionView> {
    s.map_values(|a: Action| a@)
}

/// What one process knows and is: its own member record, the members it has
/// heard of, whether it is paused, how many rounds of probing it has begun,
/// and the addresses it does not listen to.
#[derive(Debug)]
pub struct Server {
    pub name: String,
    pub port: u16,
    pub member: Member,
    pub member_list: MemberList,
    pub pause: bool,
    pub rounds: isize,
    pub blacklist: Vec<String>,
}

impl Server {
    /// The invariant of the state: that of its member list.
    pub open spec fn wf(&self) -> bool {
        self.member_list.wf()
    }

    /// Nothing but the member list differs between `self` and `before`.
    pub open spec fn same_but_list(&self, before: &Server) -> bool {
        &&& self.name == before.name
        &&& self.port == before.port
        &&& self.member == before.member
        &&& self.pause == before.pause
        &&& self.rounds == before.rounds
        &&& self.blacklist == before.blacklist
    }

    /// The addresses on the blacklist.
    pub open spec fn blacklisted(&self) -> Set<Seq<char>> {
        Set::new(
            |a: Seq<char>|
                exists|i: int| 0 <= i < self.blacklist@.len() && (#[trigger] self.blacklist@[i])@ == a,
        )
    }

    /// The state of a process that has just bound its socket to `port`: it
    /// is named after its member, knows no other member, and listens to all.
    pub fn new(port: u16, member: Member) -> (server: Server)
        ensures
            server.wf(),
            server.name@ == member@.id,
            server.port == port,
            server.member@ == member@,
            server.member_list@ == MemberListView::empty(),
            !server.pause,
            server.rounds == 0,
            server.blacklisted() == Set::<Seq<char>>::empty(),
    {
        let server = Server {
            name: member.id.clone(),
            port,
            member,
            member_list: MemberList::new(),
            pause: false,
            rounds: 0,
            blacklist: Vec::new(),
        };
        server
    }

    /// How many rounds of probing have begun.
    pub fn rounds(&self) -> (rounds: isize)
        ensures
            rounds == self.rounds,
    {
        self.rounds
    }

    /// Counts one more round. After the largest number the count starts again at 0.
    pub fn update_round(&mut self)
        ensures
            final(self).rounds == if old(self).rounds == isize::MAX {
                0
            } else {
                old(self).rounds + 1
            },
            final(self).name == old(self).name,
            final(self).port == old(self).port,
            final(self).member == old(self).member,
            final(self).member_list == old(self).member_list,
            final(self).pause == old(self).pause,
            final(self).blacklist == old(self).blacklist,
    {
        match self.rounds.checked_add(1) {
            Some(next) => {
                self.rounds = next;
            },
            None => {
                self.rounds = 0;
            },
        }
    }

    /// Stops listening to `addr`.
    pub fn add_to_blacklist(&mut self, addr: String)
        ensures
            final(self).blacklisted() == old(self).blacklisted().insert(addr@),
            final(self).name == old(self).name,
            final(self).port == old(self).port,
            final(self).member == old(self).member,
            final(self).member_list == old(self).member_list,
            final(self).pause == old(self).pause,
            final(self).rounds == old(self).rounds,
    {
        if self.check_blacklist(&addr) {
            return;
        }
        let ghost before = self.blacklist@;
        self.blacklist.push(addr);
        proof {
            assert forall|a: Seq<char>|
                self.blacklisted().contains(a) <==> old(self).blacklisted().insert(addr@).contains(
                    a,
                ) by {
                if old(self).blacklisted().contains(a) {
                    let i = choose|i: int| 0 <= i < before.len() && (#[trigger] before[i])@ == a;
                    assert(self.blacklist@[i]@ == a);
                }
                if a == addr@ {
                    assert(self.blacklist@[before.len() as int]@ == a);
                }
            }
        }
    }

    /// Whether `addr` is on the blacklist.
    pub fn check_blacklist(&self, addr: &String) -> (listed: bool)
        ensures
            listed == self.blacklisted().contains(addr@),
    {
        let mut i: usize = 0;
        while i < self.blacklist.len()
            invariant
                i <= self.blacklist@.len(),
                forall|j: int| 0 <= j < i ==> (#[trigger] self.blacklist@[j])@ != addr@,
            decreases self.blacklist@.len() - i,
        {
            if self.blacklist[i] == *addr {
                return true;
            }
            i += 1;
        }
        false
    }

    /// Halts the receiver and the prober at their next turn.
    pub fn pause(&mut self)
        ensures
            final(self).pause,
            final(self).name == old(self).name,
            final(self).port == old(self).port,
            final(self).member == old(self).member,
            final(self).member_list == old(self).member_list,
            final(self).rounds == old(self).rounds,
            final(self).blacklist == old(self).blacklist,
    {
        self.pause = true;
    }

    /// Lets the receiver and the prober go on.
    pub fn unpause(&mut self)
        ensures
            !final(self).pause,
            final(self).name == old(self).name,
            final(self).port == old(self).port,
            final(self).member == old(self).member,
            final(self).member_list == old(self).member_list,
            final(self).rounds == old(self).rounds,
            final(self).blacklist == old(self).blacklist,
    {
        self.pause = false;
    }

    pub fn paused(&self) -> (paused: bool)
        ensures
            paused == self.pause,
    {
        self.pause
    }

    /// The port that the socket is bound to.
    pub fn port(&self) -> (port: u16)
        ensures
            port == self.port,
    {
        self.port
    }

    pub fn name(&self) -> (name: String)
        ensures
            name@ == self.name@,
    {
        self.name.clone()
    }
}

} // verus!
