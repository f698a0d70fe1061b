use habitat_swim::codec::encode;
use habitat_swim::member::{Health, Member};
use habitat_swim::message::{Ack, Ping, PingReq, Swim};
use habitat_swim::server::inbound::{Inbound, RECV_BUFFER_LEN};
use habitat_swim::server::{Action, Server};
use habitat_swim::trace::TraceKind;

fn member(id: &str, address: &str) -> Member {
    Member { id: id.to_string(), address: address.to_string(), incarnation: 0, persistent: false }
}

fn server() -> Server {
    Server::new(9000, member("me", "127.0.0.1:9000"))
}

fn heard(kind: TraceKind, peer: &str, msg: &Swim) -> Action {
    Action::Trace { kind, peer: peer.to_string(), record: Some(msg.clone()) }
}

fn send(addr: &str, msg: &Swim) -> Action {
    Action::Send { addr: addr.to_string(), msg: msg.clone() }
}

#[test]
fn inbound_new() {
    assert_eq!(Inbound::new().buffer_len, 1024);
    assert_eq!(RECV_BUFFER_LEN, 1024);
}

#[test]
fn ping_is_acknowledged_and_sender_filed_alive() {
    let mut s = server();
    let ping = Ping { from: member("a", "10.0.0.1:1"), forward_to: None };
    let actions = Inbound::process_ping(&mut s, "127.0.0.1:7001".to_string(), ping.clone());
    let ack = Swim::Ack(Ack { from: member("me", "127.0.0.1:9000"), forward_to: None });
    assert_eq!(
        actions,
        vec![
            heard(TraceKind::RecvPing, "127.0.0.1:7001", &Swim::Ping(ping)),
            send("127.0.0.1:7001", &ack),
            heard(TraceKind::SendAck, "127.0.0.1:7001", &ack),
        ]
    );
    assert_eq!(s.member_list.health_of(&member("a", "")), Some(&Health::Alive));
}

#[test]
fn ping_sender_is_filed_under_the_address_it_came_from() {
    let mut s = server();
    let claimed = Member {
        id: "a".to_string(),
        address: "10.6.6.6:6666".to_string(),
        incarnation: 4,
        persistent: true,
    };
    let ping = Ping { from: claimed, forward_to: None };
    Inbound::process_ping(&mut s, "127.0.0.1:7001".to_string(), ping);
    let filed = s.member_list.get(&"a".to_string()).unwrap();
    assert_eq!(filed.get_address(), "127.0.0.1:7001");
    assert_eq!(filed.get_id(), "a");
    assert_eq!(filed.get_incarnation(), 4);
    assert!(filed.get_persistent());
    assert_eq!(s.member_list.len(), 1);
}

#[test]
fn ping_revives_a_confirmed_member() {
    let mut s = server();
    let a = member("a", "127.0.0.1:7001");
    s.member_list.insert(a.clone(), Health::Confirmed);
    let ping = Ping { from: a.clone(), forward_to: None };
    Inbound::process_ping(&mut s, "127.0.0.1:7001".to_string(), ping);
    assert_eq!(s.member_list.health_of(&a), Some(&Health::Alive));
}

#[test]
fn forwarded_ping_is_acknowledged_for_the_one_who_asked() {
    let mut s = server();
    let asker = member("asker", "127.0.0.1:7002");
    let ping = Ping { from: member("helper", "127.0.0.1:7001"), forward_to: Some(asker.clone()) };
    let actions = Inbound::process_ping(&mut s, "127.0.0.1:7001".to_string(), ping.clone());
    let ack = Swim::Ack(Ack { from: member("me", "127.0.0.1:9000"), forward_to: Some(asker) });
    assert_eq!(
        actions,
        vec![
            heard(TraceKind::RecvPing, "127.0.0.1:7001", &Swim::Ping(ping)),
            send("127.0.0.1:7001", &ack),
            heard(TraceKind::SendAck, "127.0.0.1:7001", &ack),
        ]
    );
    // the helper is filed, not the one who asked
    assert!(s.member_list.get(&"helper".to_string()).is_some());
    assert!(s.member_list.get(&"asker".to_string()).is_none());
}

#[test]
fn pingreq_for_a_known_target_is_carried_out() {
    let mut s = server();
    s.member_list.insert(member("t", "127.0.0.1:7003"), Health::Alive);
    let asker = member("asker", "127.0.0.1:7002");
    // the address written for the target in the request is not the one that is pinged
    let req = PingReq { from: asker.clone(), target: member("t", "10.9.9.9:9") };
    let actions = Inbound::process_pingreq(&s, "127.0.0.1:7002".to_string(), req.clone());
    let ping = Swim::Ping(Ping { from: member("me", "127.0.0.1:9000"), forward_to: Some(asker) });
    assert_eq!(
        actions,
        vec![
            heard(TraceKind::RecvPingReq, "127.0.0.1:7002", &Swim::PingReq(req)),
            send("127.0.0.1:7003", &ping),
            heard(TraceKind::SendPing, "127.0.0.1:7003", &ping),
        ]
    );
    assert_eq!(s.member_list.len(), 1);
}

#[test]
fn pingreq_for_an_unknown_target_is_dropped() {
    let s = server();
    let req = PingReq { from: member("asker", "127.0.0.1:7002"), target: member("t", "x") };
    let actions = Inbound::process_pingreq(&s, "127.0.0.1:7002".to_string(), req.clone());
    assert_eq!(actions, vec![heard(TraceKind::RecvPingReq, "127.0.0.1:7002", &Swim::PingReq(req))]);
}

#[test]
fn ack_for_me_goes_to_the_prober() {
    let s = server();
    let ack = Ack { from: member("a", "127.0.0.1:7001"), forward_to: None };
    let actions = Inbound::process_ack(&s, "127.0.0.1:7001".to_string(), ack.clone());
    assert_eq!(
        actions,
        vec![
            heard(TraceKind::RecvAck, "127.0.0.1:7001", &Swim::Ack(ack.clone())),
            Action::Deliver { addr: "127.0.0.1:7001".to_string(), ack },
        ]
    );
}

#[test]
fn forwarded_ack_for_me_goes_to_the_prober_and_is_not_sent_on() {
    let s = server();
    let ack = Ack {
        from: member("a", "127.0.0.1:7001"),
        forward_to: Some(member("me", "127.0.0.1:1")),
    };
    let actions = Inbound::process_ack(&s, "127.0.0.1:7005".to_string(), ack.clone());
    assert_eq!(
        actions,
        vec![
            heard(TraceKind::RecvAck, "127.0.0.1:7005", &Swim::Ack(ack.clone())),
            Action::Deliver { addr: "127.0.0.1:7005".to_string(), ack },
        ]
    );
    assert!(!actions.iter().any(|a| matches!(a, Action::Send { .. })));
}

#[test]
fn ack_for_another_is_sent_on_as_it_is() {
    let s = server();
    let ack = Ack {
        from: member("a", "127.0.0.1:7001"),
        forward_to: Some(member("other", "127.0.0.1:7002")),
    };
    let actions = Inbound::process_ack(&s, "127.0.0.1:7001".to_string(), ack.clone());
    let msg = Swim::Ack(ack);
    assert_eq!(
        actions,
        vec![
            heard(TraceKind::RecvAck, "127.0.0.1:7001", &msg),
            heard(TraceKind::SendForwardAck, "127.0.0.1:7002", &msg),
            send("127.0.0.1:7002", &msg),
        ]
    );
    assert!(!actions.iter().any(|a| matches!(a, Action::Deliver { .. })));
}

#[test]
fn dispatch_by_kind() {
    let mut s = server();
    let from = member("a", "127.0.0.1:7001");
    let ping = Swim::Ping(Ping { from: from.clone(), forward_to: None });
    let actions = Inbound::dispatch(&mut s, "127.0.0.1:7001".to_string(), ping);
    assert!(matches!(actions[0], Action::Trace { kind: TraceKind::RecvPing, .. }));
    let ack = Swim::Ack(Ack { from: from.clone(), forward_to: None });
    let actions = Inbound::dispatch(&mut s, "127.0.0.1:7001".to_string(), ack);
    assert!(matches!(actions[0], Action::Trace { kind: TraceKind::RecvAck, .. }));
    let req = Swim::PingReq(PingReq { from: from.clone(), target: from.clone() });
    let actions = Inbound::dispatch(&mut s, "127.0.0.1:7001".to_string(), req);
    assert!(matches!(actions[0], Action::Trace { kind: TraceKind::RecvPingReq, .. }));
    assert_eq!(actions.len(), 3);
}

#[test]
fn run_reads_the_datagram() {
    let mut s = server();
    let ping = Swim::Ping(Ping { from: member("a", "x"), forward_to: None });
    let bytes = encode(&ping).unwrap();
    let actions = Inbound::new().run(&mut s, "127.0.0.1:7001".to_string(), &bytes);
    assert_eq!(actions.len(), 3);
    assert_eq!(actions[0], heard(TraceKind::RecvPing, "127.0.0.1:7001", &ping));
    assert_eq!(s.member_list.get(&"a".to_string()).unwrap().get_address(), "127.0.0.1:7001");
}

#[test]
fn run_drops_what_comes_from_a_blacklisted_address() {
    let mut s = server();
    s.add_to_blacklist("127.0.0.1:7001".to_string());
    let ping = Swim::Ping(Ping { from: member("a", "x"), forward_to: None });
    let bytes = encode(&ping).unwrap();
    let actions = Inbound::new().run(&mut s, "127.0.0.1:7001".to_string(), &bytes);
    assert!(actions.is_empty());
    assert_eq!(s.member_list.len(), 0);
    let actions = Inbound::new().run(&mut s, "127.0.0.1:7002".to_string(), &bytes);
    assert_eq!(actions.len(), 3);
}

#[test]
fn run_drops_what_is_not_a_record() {
    let mut s = server();
    for bytes in [vec![], vec![0x08], vec![0x08, 0x09], vec![0xff; 40]] {
        let actions = Inbound::new().run(&mut s, "127.0.0.1:7001".to_string(), &bytes);
        assert!(actions.is_empty());
    }
    assert_eq!(s.member_list.len(), 0);
}
