use habitat_swim::member::{Health, Member, MemberList, PINGREQ_TARGETS};

fn populated_member_list(size: u64) -> MemberList {
    let mut ml = MemberList::new();
    for _x in 0..size {
        let m = Member::new();
        ml.insert(m, Health::Alive);
    }
    ml
}

fn member(id: &str, address: &str) -> Member {
    Member { id: id.to_string(), address: address.to_string(), incarnation: 0, persistent: false }
}

// Sets the uuid to simple, and the incarnation to zero.
#[test]
fn member_new() {
    let member = Member::new();
    assert_eq!(member.get_id().len(), 32);
    assert_eq!(member.get_incarnation(), 0);
}

#[test]
fn member_new_id_is_lower_case_hexadecimal() {
    let member = Member::new();
    assert!(member.get_id().chars().all(|c| c.is_ascii_digit() || ('a'..='f').contains(&c)));
    assert_eq!(member.get_address(), "");
    assert!(!member.get_persistent());
}

#[test]
fn member_new_ids_differ() {
    assert_ne!(Member::new().get_id(), Member::new().get_id());
}

#[test]
fn member_setters() {
    let mut m = Member::new();
    m.set_id("a".to_string());
    m.set_address("127.0.0.1:9000".to_string());
    m.set_incarnation(7);
    m.set_persistent(true);
    assert_eq!(m.get_id(), "a");
    assert_eq!(m.get_address(), "127.0.0.1:9000");
    assert_eq!(m.get_incarnation(), 7);
    assert!(m.get_persistent());
}

#[test]
fn member_clone_and_eq() {
    let m = member("a", "127.0.0.1:1");
    let c = m.clone();
    assert!(m == c);
    assert!(m != member("a", "127.0.0.1:2"));
    assert!(m != member("b", "127.0.0.1:1"));
}

#[test]
fn health_to_string() {
    assert_eq!(Health::Alive.to_string(), "Alive");
    assert_eq!(Health::Suspect.to_string(), "Suspect");
    assert_eq!(Health::Confirmed.to_string(), "Confirmed");
}

#[test]
fn new() {
    let ml = MemberList::new();
    assert_eq!(ml.len(), 0);
}

#[test]
fn insert() {
    let ml = populated_member_list(4);
    assert_eq!(ml.len(), 4);
}

#[test]
fn insert_replaces_and_returns_prior() {
    let mut ml = MemberList::new();
    assert!(ml.insert(member("a", "127.0.0.1:1"), Health::Alive).is_none());
    let prior = ml.insert(member("a", "127.0.0.1:2"), Health::Suspect);
    assert!(prior == Some(member("a", "127.0.0.1:1")));
    assert_eq!(ml.len(), 1);
    assert_eq!(ml.get(&"a".to_string()).unwrap().get_address(), "127.0.0.1:2");
    assert_eq!(ml.health_of(&member("a", "")), Some(&Health::Suspect));
}

#[test]
fn check_list() {
    let ml = populated_member_list(1000);
    let list_a = ml.check_list();
    let list_b = ml.check_list();
    assert!(list_a != list_b);
}

#[test]
fn check_list_is_a_permutation() {
    let ml = populated_member_list(20);
    let list = ml.check_list();
    assert_eq!(list.len(), 20);
    let mut ids: Vec<String> = list.iter().map(|m| m.get_id().to_string()).collect();
    ids.sort();
    ids.dedup();
    assert_eq!(ids.len(), 20);
    for m in list.iter() {
        assert!(ml.get(&m.id).unwrap() == m);
    }
}

#[test]
fn health_of() {
    let ml = populated_member_list(1);
    for member in ml.members() {
        assert_eq!(ml.health_of(member), Some(&Health::Alive));
    }
}

#[test]
fn health_of_unknown_member() {
    let ml = populated_member_list(3);
    assert_eq!(ml.health_of(&Member::new()), None);
}

#[test]
fn insert_health_sets_the_label_only() {
    let mut ml = MemberList::new();
    let m = member("a", "127.0.0.1:1");
    ml.insert(m.clone(), Health::Alive);
    assert_eq!(ml.insert_health(&m, Health::Suspect), Some(Health::Alive));
    assert_eq!(ml.insert_health(&m, Health::Confirmed), Some(Health::Suspect));
    assert_eq!(ml.health_of(&m), Some(&Health::Confirmed));
    assert_eq!(ml.len(), 1);
    assert!(ml.get(&m.id).unwrap() == &m);
}

#[test]
fn insert_health_of_unknown_member_adds_no_member() {
    let mut ml = MemberList::new();
    let m = member("a", "127.0.0.1:1");
    assert_eq!(ml.insert_health(&m, Health::Suspect), None);
    assert_eq!(ml.health_of(&m), Some(&Health::Suspect));
    assert_eq!(ml.len(), 0);
    assert!(ml.get(&m.id).is_none());
}

#[test]
fn every_member_has_a_health() {
    let mut ml = populated_member_list(5);
    ml.insert(member("a", "127.0.0.1:1"), Health::Confirmed);
    for m in ml.members() {
        assert!(ml.health_of(m).is_some());
    }
    assert_eq!(ml.members().len(), 6);
}

#[test]
fn pingreq_targets() {
    let ml = populated_member_list(10);
    let members = ml.members();
    let from: &Member = members.get(0).unwrap();
    let target: &Member = members.get(1).unwrap();
    assert_eq!(ml.pingreq_targets(from, target).len(), PINGREQ_TARGETS);
}

#[test]
fn pingreq_targets_excludes_pinging_member() {
    let ml = populated_member_list(3);
    let members = ml.members();
    let from: &Member = members.get(0).unwrap();
    let target: &Member = members.get(1).unwrap();
    let targets = ml.pingreq_targets(from, target);
    assert_eq!(targets.iter().find(|&&x| x.get_id() == from.get_id()).is_none(), true);
}

#[test]
fn pingreq_targets_excludes_target_member() {
    let ml = populated_member_list(3);
    let members = ml.members();
    let from: &Member = members.get(0).unwrap();
    let target: &Member = members.get(1).unwrap();
    let targets = ml.pingreq_targets(from, target);
    assert_eq!(targets.iter().find(|&&x| x.get_id() == target.get_id()).is_none(), true);
}

#[test]
fn pingreq_targets_minimum_viable_pingreq_size_is_three() {
    let ml = populated_member_list(3);
    let members = ml.members();
    let from: &Member = members.get(0).unwrap();
    let target: &Member = members.get(1).unwrap();
    let targets = ml.pingreq_targets(from, target);
    assert_eq!(targets.len(), 1);
}

#[test]
fn pingreq_targets_of_ten_are_five_distinct_others() {
    let ml = populated_member_list(10);
    let members = ml.members();
    let from: &Member = members.get(3).unwrap();
    let target: &Member = members.get(7).unwrap();
    for _ in 0..50 {
        let targets = ml.pingreq_targets(from, target);
        assert_eq!(targets.len(), 5);
        let mut ids: Vec<&str> = targets.iter().map(|m| m.get_id()).collect();
        ids.sort();
        ids.dedup();
        assert_eq!(ids.len(), 5);
        assert!(!ids.contains(&from.get_id()));
        assert!(!ids.contains(&target.get_id()));
    }
}

#[test]
fn pingreq_targets_of_two_is_empty() {
    let ml = populated_member_list(2);
    let members = ml.members();
    let from: &Member = members.get(0).unwrap();
    let target: &Member = members.get(1).unwrap();
    assert_eq!(ml.pingreq_targets(from, target).len(), 0);
}

#[test]
fn pingreq_targets_with_sender_outside_the_list() {
    let ml = populated_member_list(4);
    let members = ml.members();
    let from = Member::new();
    let target: &Member = members.get(1).unwrap();
    assert_eq!(ml.pingreq_targets(&from, target).len(), 3);
    assert_eq!(ml.pingreq_targets(target, target).len(), 3);
}

#[test]
fn pingreq_targets_are_drawn_at_random() {
    let ml = populated_member_list(200);
    let members = ml.members();
    let from: &Member = members.get(0).unwrap();
    let target: &Member = members.get(1).unwrap();
    let first: Vec<String> =
        ml.pingreq_targets(from, target).iter().map(|m| m.get_id().to_string()).collect();
    let mut differs = false;
    for _ in 0..20 {
        let next: Vec<String> =
            ml.pingreq_targets(from, target).iter().map(|m| m.get_id().to_string()).collect();
        if next != first {
            differs = true;
        }
    }
    assert!(differs);
}
