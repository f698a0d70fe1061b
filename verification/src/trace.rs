//! The observation points of the detector. What the trace sink does with an
//! event is not the detector's concern; which events it is handed, and in
//! which order, is.

use vstd::prelude::*;

verus! {

/// An observation point.
#[derive(Clone, Copy, Debug, PartialEq, Eq, Structural)]
pub enum TraceKind {
    RecvPing,
    RecvAck,
    RecvPingReq,
    SendPing,
    SendAck,
    SendPingReq,
    SendForwardAck,
    ProbeBegin,
    ProbeAckReceived,
    ProbeMarkedSuspect,
    ProbePingReq,
    ProbeMarkedConfirmed,
    ProbeComplete,
}

impl TraceKind {
    /// The tag under which the sink knows the observation point.
    pub open spec fn tag_of(self) -> Seq<char> {
        match self {
            TraceKind::RecvPing => "recv-ping"@,
            TraceKind::RecvAck => "recv-ack"@,
            TraceKind::RecvPingReq => "recv-pingreq"@,
            TraceKind::SendPing => "send-ping"@,
            TraceKind::SendAck => "send-ack"@,
            TraceKind::SendPingReq => "send-pingreq"@,
            TraceKind::SendForwardAck => "send-forward-ack"@,
            TraceKind::ProbeBegin => "probe-begin"@,
            TraceKind::ProbeAckReceived => "probe-ack-received"@,
            TraceKind::ProbeMarkedSuspect => "probe-marked-suspect"@,
            TraceKind::ProbePingReq => "probe-pingreq"@,
            TraceKind::ProbeMarkedConfirmed => "probe-marked-confirmed"@,
            TraceKind::ProbeComplete => "probe-complete"@,
        }
    }

    pub fn tag(&self) -> (tag: &'static str)
        ensures
            tag@ == self.tag_of(),
    {
        match self {
            TraceKind::RecvPing => "recv-ping",
            TraceKind::RecvAck => "recv-ack",
            TraceKind::RecvPingReq => "recv-pingreq",
            TraceKind::SendPing => "send-ping",
            TraceKind::SendAck => "send-ack",
            TraceKind::SendPingReq => "send-pingreq",
            TraceKind::SendForwardAck => "send-forward-ack",
            TraceKind::ProbeBegin => "probe-begin",
            TraceKind::ProbeAckReceived => "probe-ack-received",
            TraceKind::ProbeMarkedSuspect => "probe-marked-suspect",
            TraceKind::ProbePingReq => "probe-pingreq",
            TraceKind::ProbeMarkedConfirmed => "probe-marked-confirmed",
            TraceKind::ProbeComplete => "probe-complete",
        }
    }
}

} // verus!
