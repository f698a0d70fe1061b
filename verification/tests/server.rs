use habitat_swim::member::{Health, Member};
use habitat_swim::server::Server;

fn start_server(port: u16) -> Server {
    Server::new(port, Member::new())
}

#[test]
fn mod_new() {
    start_server(6666);
}

#[test]
fn new_server_state() {
    let member = Member::new();
    let id = member.get_id().to_string();
    let server = Server::new(6667, member);
    assert_eq!(server.name(), id);
    assert_eq!(server.port(), 6667);
    assert_eq!(server.rounds(), 0);
    assert!(!server.paused());
    assert_eq!(server.member_list.len(), 0);
    assert!(!server.check_blacklist(&"127.0.0.1:6667".to_string()));
}

#[test]
fn update_round_counts_up() {
    let mut server = start_server(1);
    server.update_round();
    server.update_round();
    assert_eq!(server.rounds(), 2);
}

#[test]
fn update_round_wraps_to_zero() {
    let mut server = start_server(1);
    server.rounds = isize::MAX - 1;
    server.update_round();
    assert_eq!(server.rounds(), isize::MAX);
    server.update_round();
    assert_eq!(server.rounds(), 0);
    server.update_round();
    assert_eq!(server.rounds(), 1);
}

#[test]
fn pause_and_unpause() {
    let mut server = start_server(1);
    server.pause();
    assert!(server.paused());
    server.pause();
    assert!(server.paused());
    server.unpause();
    assert!(!server.paused());
}

#[test]
fn blacklist() {
    let mut server = start_server(1);
    server.add_to_blacklist("127.0.0.1:7000".to_string());
    server.add_to_blacklist("127.0.0.1:7001".to_string());
    server.add_to_blacklist("127.0.0.1:7000".to_string());
    assert!(server.check_blacklist(&"127.0.0.1:7000".to_string()));
    assert!(server.check_blacklist(&"127.0.0.1:7001".to_string()));
    assert!(!server.check_blacklist(&"127.0.0.1:7002".to_string()));
}

#[test]
fn member_list_is_reachable_through_the_server() {
    let mut server = start_server(1);
    let other = Member::new();
    server.member_list.insert(other.clone(), Health::Alive);
    assert_eq!(server.member_list.health_of(&other), Some(&Health::Alive));
}
