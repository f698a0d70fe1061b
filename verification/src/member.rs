//! Members of the group, the health that the detector assigns to them, and
//! the table in which a process keeps both.

use crate::id_map::IdMap;
use rand::Rng;
use vstd::prelude::*;

verus! {

/// How many helpers are asked to probe a member on the prober's behalf.
pub const PINGREQ_TARGETS: usize = 5;

/// How a member is currently judged by the failure detector.
#[derive(Clone, Copy, Debug, PartialEq, Eq, Structural)]
pub enum Health {
    Alive,
    Suspect,
    Confirmed,
}

impl Health {
    /// The strictness of a label: `Alive` is below `Suspect`, which is below `Confirmed`.
    pub open spec fn rank(self) -> nat {
        match self {
            Health::Alive => 0,
            Health::Suspect => 1,
            Health::Confirmed => 2,
        }
    }

    /// The label as it is written in messages to people.
    pub open spec fn name(self) -> Seq<char> {
        match self {
            Health::Alive => "Alive"@,
            Health::Suspect => "Suspect"@,
            Health::Confirmed => "Confirmed"@,
        }
    }

    pub fn to_string(&self) -> (s: String)
        ensures
            s@ == self.name(),
    {
        match self {
            Health::Alive => "Alive".to_owned(),
            Health::Suspect => "Suspect".to_owned(),
            Health::Confirmed => "Confirmed".to_owned(),
        }
    }
}

/// What a `Member` stands for: its identifier and address as sequences of characters.
pub struct MemberView {
    pub id: Seq<char>,
    pub address: Seq<char>,
    pub incarnation: u64,
    pub persistent: bool,
}

/// One participant: an identity, the address it is reached at, and its incarnation.
#[derive(Debug)]
pub struct Member {
    pub id: String,
    pub address: String,
    pub incarnation: u64,
    pub persistent: bool,
}

impl View for Member {
    type V = MemberView;

    open spec fn view(&self) -> MemberView {
        MemberView {
            id: self.id@,
            address: self.address@,
            incarnation: self.incarnation,
            persistent: self.persistent,
        }
    }
}

impl Clone for Member {
    fn clone(&self) -> (m: Member)
        ensures
            m@ == self@,
    {
        Member {
            id: self.id.clone(),
            address: self.address.clone(),
            incarnation: self.incarnation,
            persistent: self.persistent,
        }
    }
}

impl PartialEq for Member {
    fn eq(&self, other: &Member) -> (b: bool) {
        self.id == other.id && self.address == other.address && self.incarnation
            == other.incarnation && self.persistent == other.persistent
    }
}

impl vstd::std_specs::cmp::PartialEqSpecImpl for Member {
    open spec fn obeys_eq_spec() -> bool {
        true
    }

    open spec fn eq_spec(&self, other: &Member) -> bool {
        self@ == other@
    }
}

/// A lower-case hexadecimal digit.
pub open spec fn is_lower_hex(c: char) -> bool {
    ('0' <= c && c <= '9') || ('a' <= c && c <= 'f')
}

/// The shape of a fresh identifier: 32 lower-case hexadecimal digits.
pub open spec fn is_simple_id(s: Seq<char>) -> bool {
    s.len() == 32 && forall|i: int| 0 <= i < s.len() ==> is_lower_hex(#[trigger] s[i])
}

/// Draws a random version-4 UUID with `uuid::Uuid::new_v4` and writes it in its
/// simple form. The contract claims only the form, which `Simple`'s `Display`
/// gives to every UUID: each of the 16 bytes as two lower-case hexadecimal
/// digits, with nothing between them. The thread's generator is seeded by the
/// operating system on first use and does not return where that fails.
#[verifier::external_body]
fn random_simple_id() -> (s: String)
    ensures
        is_simple_id(s@),
{
    uuid::Uuid::new_v4().simple().to_string()
}

/// Reorders `values` at random with `rand::Rng::shuffle` on the thread's
/// generator. The contract claims what holds of every outcome: the vector
/// holds the same items as before, each as often as before. The thread's
/// generator is seeded by the operating system on first use and does not
/// return where that fails.
#[verifier::external_body]
fn shuffle<T>(values: &mut Vec<T>)
    ensures
        final(values)@.to_multiset() == old(values)@.to_multiset(),
{
    rand::thread_rng().shuffle(values);
}

impl Member {
    /// A fresh local member: a random identifier, incarnation 0, no address yet.
    pub fn new() -> (m: Member)
        ensures
            is_simple_id(m@.id),
            m@.address == Seq::<char>::empty(),
            m@.incarnation == 0,
            !m@.persistent,
    {
        Member { id: random_simple_id(), address: String::new(), incarnation: 0, persistent: false }
    }

    pub fn get_id(&self) -> (id: &str)
        ensures
            id@ == self@.id,
    {
        self.id.as_str()
    }

    pub fn get_address(&self) -> (address: &str)
        ensures
            address@ == self@.address,
    {
        self.address.as_str()
    }

    pub fn get_incarnation(&self) -> (incarnation: u64)
        ensures
            incarnation == self@.incarnation,
    {
        self.incarnation
    }

    pub fn get_persistent(&self) -> (persistent: bool)
        ensures
            persistent == self@.persistent,
    {
        self.persistent
    }

    pub fn set_id(&mut self, id: String)
        ensures
            final(self)@ == (MemberView { id: id@, ..old(self)@ }),
    {
        self.id = id;
    }

    pub fn set_address(&mut self, address: String)
        ensures
            final(self)@ == (MemberView { address: address@, ..old(self)@ }),
    {
        self.address = address;
    }

    pub fn set_incarnation(&mut self, incarnation: u64)
        ensures
            final(self)@ == (MemberView { incarnation: incarnation, ..old(self)@ }),
    {
        self.incarnation = incarnation;
    }

    pub fn set_persistent(&mut self, persistent: bool)
        ensures
            final(self)@ == (MemberView { persistent: persistent, ..old(self)@ }),
    {
        self.persistent = persistent;
    }
}

/// What a `MemberList` stands for: the members by identifier and the health by identifier.
pub struct MemberListView {
    pub members: Map<Seq<char>, MemberView>,
    pub health: Map<Seq<char>, Health>,
}

impl MemberListView {
    /// What holds of every member list: both maps are finite, each member is
    /// filed under its own identifier, and each member has a health label.
    pub open spec fn valid(self) -> bool {
        &&& self.members.dom().finite()
        &&& self.health.dom().finite()
        &&& forall|id: Seq<char>|
            self.members.dom().contains(id) ==> (#[trigger] self.members[id]).id == id
                && self.health.dom().contains(id)
    }

    /// Every identifier with a health label is that of a member.
    pub open spec fn balanced(self) -> bool {
        forall|id: Seq<char>| self.health.dom().contains(id) ==> self.members.dom().contains(id)
    }

    pub open spec fn empty() -> MemberListView {
        MemberListView { members: Map::empty(), health: Map::empty() }
    }

    /// The list after `member` was filed with `health`: the last writer wins in both maps.
    pub open spec fn insert(self, member: MemberView, health: Health) -> MemberListView {
        MemberListView {
            members: self.members.insert(member.id, member),
            health: self.health.insert(member.id, health),
        }
    }

    /// The list after the label under `id` was set to `health`.
    pub open spec fn insert_health(self, id: Seq<char>, health: Health) -> MemberListView {
        MemberListView { members: self.members, health: self.health.insert(id, health) }
    }

    /// The identifiers of the members that may help to probe `target` for `from`.
    pub open spec fn eligible(self, from: Seq<char>, target: Seq<char>) -> Set<Seq<char>> {
        self.members.dom().remove(from).remove(target)
    }
}

/// `s` names every member of `m` exactly once.
pub open spec fn is_listing(s: Seq<MemberView>, m: Map<Seq<char>, MemberView>) -> bool {
    &&& forall|i: int|
        0 <= i < s.len() ==> m.dom().contains((#[trigger] s[i]).id) && m[s[i].id] == s[i]
    &&& forall|i: int, j: int|
        0 <= i < j < s.len() ==> (#[trigger] s[i]).id != (#[trigger] s[j]).id
    &&& forall|id: Seq<char>|
        m.dom().contains(id) ==> exists|i: int| 0 <= i < s.len() && (#[trigger] s[i]).id == id
}

/// `targets` is a choice of helpers that `pingreq_targets` may make: members
/// of the list other than `from` and `target`, none of them twice, and as
/// many as there are, up to `PINGREQ_TARGETS`.
pub open spec fn is_target_choice(
    list: MemberListView,
    from: Seq<char>,
    target: Seq<char>,
    targets: Seq<MemberView>,
) -> bool {
    &&& forall|i: int|
        0 <= i < targets.len() ==> list.eligible(from, target).contains((#[trigger] targets[i]).id)
            && list.members[targets[i].id] == targets[i]
    &&& forall|i: int, j: int|
        0 <= i < j < targets.len() ==> (#[trigger] targets[i]).id != (#[trigger] targets[j]).id
    &&& targets.len() == if list.eligible(from, target).len() < PINGREQ_TARGETS {
        list.eligible(from, target).len()
    } else {
        PINGREQ_TARGETS as nat
    }
}

/// What a sequence of members stands for.
pub open spec fn views_of(s: Seq<Member>) -> Seq<MemberView> {
    s.map_values(|m: Member| m@)
}

/// What a sequence of borrowed members stands for.
pub open spec fn ref_views_of(s: Seq<&Member>) -> Seq<MemberView> {
    s.map_values(|m: &Member| m@)
}

/// The identifiers of a sequence of members, in its order.
pub open spec fn ids_of(s: Seq<MemberView>) -> Seq<Seq<char>> {
    s.map_values(|m: MemberView| m.id)
}

/// A listing names as many members as the map holds.
pub proof fn lemma_listing_len(s: Seq<MemberView>, m: Map<Seq<char>, MemberView>)
    requires
        is_listing(s, m),
    ensures
        m.dom().finite(),
        s.len() == m.dom().len(),
        ids_of(s).no_duplicates(),
        ids_of(s).to_set() == m.dom(),
{
    let ids = ids_of(s);
    assert forall|i: int, j: int| 0 <= i < ids.len() && 0 <= j < ids.len() && i != j implies ids[i]
        != ids[j] by {
        if i < j {
            assert(s[i].id != s[j].id);
        } else {
            assert(s[j].id != s[i].id);
        }
    }
    assert forall|id: Seq<char>| ids.to_set().contains(id) <==> m.dom().contains(id) by {
        if ids.to_set().contains(id) {
            let i = choose|i: int| 0 <= i < ids.len() && ids[i] == id;
            assert(s[i].id == id);
        }
        if m.dom().contains(id) {
            let i = choose|i: int| 0 <= i < s.len() && (#[trigger] s[i]).id == id;
            assert(ids[i] == id);
        }
    }
    assert(ids.to_set() =~= m.dom());
    ids.unique_seq_to_set();
    vstd::seq_lib::seq_to_set_is_finite(ids);
}

/// A reordering of a listing is a listing.
proof fn lemma_shuffled_listing<T>(
    before: Seq<T>,
    after: Seq<T>,
    f: spec_fn(T) -> MemberView,
    m: Map<Seq<char>, MemberView>,
)
    requires
        is_listing(before.map_values(f), m),
        after.to_multiset() == before.to_multiset(),
    ensures
        is_listing(after.map_values(f), m),
{
    let b = before.map_values(f);
    let a = after.map_values(f);
    before.to_multiset_ensures();
    after.to_multiset_ensures();
    assert forall|i: int, j: int| 0 <= i < before.len() && 0 <= j < before.len() && i
        != j implies before[i] != before[j] by {
        if i < j {
            assert(b[i].id != b[j].id);
        } else {
            assert(b[j].id != b[i].id);
        }
    }
    before.lemma_multiset_has_no_duplicates();
    after.lemma_multiset_has_no_duplicates_conv();
    assert forall|i: int| 0 <= i < a.len() implies m.dom().contains((#[trigger] a[i]).id)
        && m[a[i].id] == a[i] by {
        assert(after.contains(after[i]));
        assert(before.to_multiset().count(after[i]) > 0);
        assert(before.contains(after[i]));
        let j = choose|j: int| 0 <= j < before.len() && before[j] == after[i];
        assert(b[j] == a[i]);
    }
    assert forall|i: int, j: int| 0 <= i < j < a.len() implies (#[trigger] a[i]).id != (
    #[trigger] a[j]).id by {
        assert(after.contains(after[i]));
        assert(before.to_multiset().count(after[i]) > 0);
        assert(before.contains(after[i]));
        assert(after.contains(after[j]));
        assert(before.to_multiset().count(after[j]) > 0);
        assert(before.contains(after[j]));
        let x = choose|x: int| 0 <= x < before.len() && before[x] == after[i];
        let y = choose|y: int| 0 <= y < before.len() && before[y] == after[j];
        assert(b[x] == a[i]);
        assert(b[y] == a[j]);
        if a[i].id == a[j].id {
            if x < y {
                assert(b[x].id != b[y].id);
            } else if y < x {
                assert(b[y].id != b[x].id);
            } else {
                assert(after[i] == after[j]);
            }
        }
    }
    assert forall|id: Seq<char>| m.dom().contains(id) implies exists|i: int|
        0 <= i < a.len() && (#[trigger] a[i]).id == id by {
        let j = choose|j: int| 0 <= j < b.len() && (#[trigger] b[j]).id == id;
        assert(before.contains(before[j]));
        assert(after.to_multiset().count(before[j]) > 0);
        assert(after.contains(before[j]));
        let i = choose|i: int| 0 <= i < after.len() && after[i] == before[j];
        assert(a[i].id == id);
    }
}

/// The members that a process knows of, each with the health it assigns to it.
#[derive(Debug)]
pub struct MemberList {
    members: IdMap<Member>,
    health: IdMap<Health>,
}

impl View for MemberList {
    type V = MemberListView;

    closed spec fn view(&self) -> MemberListView {
        MemberListView {
            members: self.members@.map_values(|m: Member| m@),
            health: self.health@,
        }
    }
}

impl MemberList {
    /// The invariant of the representation. Every operation keeps it.
    pub closed spec fn wf(&self) -> bool {
        &&& self.members.wf()
        &&& self.health.wf()
        &&& forall|id: Seq<char>|
            self.members@.dom().contains(id) ==> (#[trigger] self.members@[id]).id@ == id
                && self.health@.dom().contains(id)
    }

    /// A well-formed list stands for a valid pair of maps.
    pub proof fn lemma_valid(&self)
        requires
            self.wf(),
        ensures
            self@.valid(),
    {
        self.members.lemma_key_order();
        self.health.lemma_key_order();
        assert(self@.members.dom() =~= self.members@.dom());
        assert forall|id: Seq<char>| self@.members.dom().contains(id) implies (
        #[trigger] self@.members[id]).id == id && self@.health.dom().contains(id) by {
            assert(self.members@[id].id@ == id);
        }
    }

    pub fn new() -> (list: MemberList)
        ensures
            list.wf(),
            list@ == MemberListView::empty(),
    {
        let list = MemberList { members: IdMap::new(), health: IdMap::new() };
        assert(list@.members =~= Map::<Seq<char>, MemberView>::empty());
        list
    }

    /// Files `member` under its identifier with `health`, in place of what was
    /// filed there, and hands back the member that was filed there before.
    pub fn insert(&mut self, member: Member, health: Health) -> (prior: Option<Member>)
        requires
            old(self).wf(),
        ensures
            final(self).wf(),
            final(self)@ == old(self)@.insert(member@, health),
            match prior {
                Some(p) => old(self)@.members.dom().contains(member@.id) && p@ == old(
                    self,
                )@.members[member@.id],
                None => !old(self)@.members.dom().contains(member@.id),
            },
    {
        let ghost before = self.members@;
        let key = member.id.clone();
        self.health.insert(member.id.clone(), health);
        let prior = self.members.insert(key, member);
        proof {
            assert(self.members@ == before.insert(member.id@, member));
            assert(self@.members =~= old(self)@.members.insert(member@.id, member@));
            assert forall|id: Seq<char>| self.members@.dom().contains(id) implies (
            #[trigger] self.members@[id]).id@ == id && self.health@.dom().contains(id) by {
                if id != member.id@ {
                    assert(before.dom().contains(id));
                    assert(before[id].id@ == id);
                }
            }
        }
        prior
    }

    /// The health filed under the identifier of `member`, if there is one.
    pub fn health_of(&self, member: &Member) -> (health: Option<&Health>)
        requires
            self.wf(),
        ensures
            match health {
                Some(h) => self@.health.dom().contains(member@.id) && *h
                    == self@.health[member@.id],
                None => !self@.health.dom().contains(member@.id),
            },
    {
        self.health.get(&member.id)
    }

    /// Sets the health under the identifier of `member`, whether or not a
    /// member is filed there, and hands back the health that was there before.
    pub fn insert_health(&mut self, member: &Member, health: Health) -> (prior: Option<Health>)
        requires
            old(self).wf(),
        ensures
            final(self).wf(),
            final(self)@ == old(self)@.insert_health(member@.id, health),
            prior == if old(self)@.health.dom().contains(member@.id) {
                Some(old(self)@.health[member@.id])
            } else {
                None
            },
    {
        let prior = self.health.insert(member.id.clone(), health);
        proof {
            assert forall|id: Seq<char>| self.members@.dom().contains(id) implies (
            #[trigger] self.members@[id]).id@ == id && self.health@.dom().contains(id) by {
                assert(old(self).members@[id].id@ == id);
            }
        }
        prior
    }

    /// The member filed under `id`, if there is one.
    pub fn get(&self, id: &String) -> (member: Option<&Member>)
        requires
            self.wf(),
        ensures
            match member {
                Some(m) => self@.members.dom().contains(id@) && m@ == self@.members[id@],
                None => !self@.members.dom().contains(id@),
            },
    {
        self.members.get(id)
    }

    /// The number of members.
    pub fn len(&self) -> (n: usize)
        requires
            self.wf(),
        ensures
            self@.members.dom().finite(),
            n == self@.members.dom().len(),
    {
        assert(self@.members.dom() =~= self.members@.dom());
        self.members.len()
    }

    /// Every member, once.
    pub fn members(&self) -> (list: Vec<&Member>)
        requires
            self.wf(),
        ensures
            is_listing(ref_views_of(list@), self@.members),
    {
        let list = self.members.values();
        proof {
            self.members.lemma_key_order();
            let keys = self.members.key_order();
            let s = ref_views_of(list@);
            assert forall|i: int| 0 <= i < s.len() implies (#[trigger] s[i]).id == keys[i]
                && self@.members.dom().contains(s[i].id) && self@.members[s[i].id] == s[i] by {
                assert(self.members@.dom().contains(keys[i]));
                assert(self.members@[keys[i]].id@ == keys[i]);
            }
            assert forall|id: Seq<char>| self@.members.dom().contains(id) implies exists|i: int|
                0 <= i < s.len() && (#[trigger] s[i]).id == id by {
                assert(keys.contains(id));
                let i = choose|i: int| 0 <= i < keys.len() && keys[i] == id;
                assert(s[i].id == id);
            }
        }
        list
    }

    /// A copy of every member, once, in an order drawn at random.
    pub fn check_list(&self) -> (list: Vec<Member>)
        requires
            self.wf(),
        ensures
            is_listing(views_of(list@), self@.members),
    {
        let all = self.members();
        let mut list: Vec<Member> = Vec::new();
        let mut i: usize = 0;
        while i < all.len()
            invariant
                i <= all@.len(),
                list@.len() == i,
                forall|j: int| 0 <= j < i ==> (#[trigger] list@[j])@ == all@[j]@,
            decreases all@.len() - i,
        {
            list.push(Member::clone(all[i]));
            i += 1;
        }
        proof {
            assert(views_of(list@) =~= ref_views_of(all@));
            lemma_shuffled_listing(list@, list@, |m: Member| m@, self@.members);
        }
        let ghost ordered = list@;
        shuffle(&mut list);
        proof {
            lemma_shuffled_listing(ordered, list@, |m: Member| m@, self@.members);
        }
        list
    }

    /// Up to `PINGREQ_TARGETS` members, drawn at random without repetition
    /// from those that are neither `sending_member` nor `target_member`; all
    /// of them where there are no more than that.
    pub fn pingreq_targets(&self, sending_member: &Member, target_member: &Member) -> (targets:
        Vec<&Member>)
        requires
            self.wf(),
        ensures
            self@.eligible(sending_member@.id, target_member@.id).finite(),
            is_target_choice(
                self@,
                sending_member@.id,
                target_member@.id,
                ref_views_of(targets@),
            ),
    {
        let ghost eligible = self@.eligible(sending_member@.id, target_member@.id);
        let mut all = self.members();
        let ghost ordered = all@;
        shuffle(&mut all);
        proof {
            lemma_shuffled_listing(ordered, all@, |m: &Member| m@, self@.members);
            lemma_listing_len(ref_views_of(all@), self@.members);
        }
        let mut targets: Vec<&Member> = Vec::new();
        let ghost mut picked: Seq<int> = Seq::empty();
        let mut i: usize = 0;
        while i < all.len() && targets.len() < PINGREQ_TARGETS
            invariant
                is_listing(ref_views_of(all@), self@.members),
                eligible == self@.eligible(sending_member@.id, target_member@.id),
                i <= all@.len(),
                targets@.len() <= PINGREQ_TARGETS,
                picked.len() == targets@.len(),
                forall|k: int|
                    0 <= k < picked.len() ==> 0 <= (#[trigger] picked[k]) < i && targets@[k]
                        == all@[picked[k]],
                forall|k: int|
                    0 <= k < targets@.len() ==> eligible.contains((#[trigger] targets@[k])@.id),
                forall|a: int, b: int|
                    0 <= a < b < targets@.len() ==> (#[trigger] targets@[a])@.id != (
                    #[trigger] targets@[b])@.id,
                forall|j: int|
                    0 <= j < i && eligible.contains((#[trigger] all@[j])@.id) ==> exists|k: int|
                        0 <= k < targets@.len() && (#[trigger] targets@[k])@.id == all@[j]@.id,
            decreases all@.len() - i,
        {
            let m = all[i];
            let ghost earlier = targets@;
            proof {
                assert(ref_views_of(all@)[i as int] == m@);
                assert(self@.members.dom().contains(ref_views_of(all@)[i as int].id));
            }
            if m.id != sending_member.id && m.id != target_member.id {
                targets.push(m);
                proof {
                    assert forall|a: int, b: int| 0 <= a < b < targets@.len() implies (
                    #[trigger] targets@[a])@.id != (#[trigger] targets@[b])@.id by {
                        if b == earlier.len() {
                            let x = picked[a];
                            assert(ref_views_of(all@)[x].id != ref_views_of(all@)[i as int].id);
                        } else {
                            assert(earlier[a]@.id != earlier[b]@.id);
                        }
                    }
                    picked = picked.push(i as int);
                    assert forall|j: int|
                        0 <= j < i + 1 && eligible.contains(
                            (#[trigger] all@[j])@.id,
                        ) implies exists|k: int|
                        0 <= k < targets@.len() && (#[trigger] targets@[k])@.id
                            == all@[j]@.id by {
                        if j < i {
                            let k = choose|k: int|
                                0 <= k < earlier.len() && (#[trigger] earlier[k])@.id
                                    == all@[j]@.id;
                            assert(targets@[k]@.id == all@[j]@.id);
                        } else {
                            assert(targets@[earlier.len() as int]@.id == all@[j]@.id);
                        }
                    }
                }
            }
            i += 1;
        }
        proof {
            let ids = ids_of(ref_views_of(targets@));
            assert forall|a: int, b: int| 0 <= a < ids.len() && 0 <= b < ids.len() && a
                != b implies ids[a] != ids[b] by {
                if a < b {
                    assert(targets@[a]@.id != targets@[b]@.id);
                } else {
                    assert(targets@[b]@.id != targets@[a]@.id);
                }
            }
            ids.unique_seq_to_set();
            vstd::seq_lib::seq_to_set_is_finite(ids);
            assert forall|id: Seq<char>| ids.to_set().contains(id) implies eligible.contains(
                id,
            ) by {
                let k = choose|k: int| 0 <= k < ids.len() && ids[k] == id;
                assert(eligible.contains(targets@[k]@.id));
            }
            if targets@.len() < PINGREQ_TARGETS {
                assert forall|id: Seq<char>| eligible.contains(id) implies ids.to_set().contains(
                    id,
                ) by {
                    let j = choose|j: int|
                        0 <= j < all@.len() && (#[trigger] ref_views_of(all@)[j]).id == id;
                    assert(all@[j]@.id == id);
                    let k = choose|k: int|
                        0 <= k < targets@.len() && (#[trigger] targets@[k])@.id == all@[j]@.id;
                    assert(ids[k] == id);
                }
                assert(ids.to_set() =~= eligible);
            } else {
                vstd::set_lib::lemma_len_subset(ids.to_set(), eligible);
            }
            assert forall|k: int| 0 <= k < targets@.len() implies self@.members[(
            #[trigger] targets@[k])@.id] == targets@[k]@ by {
                let x = picked[k];
                assert(ref_views_of(all@)[x] == targets@[k]@);
            }
        }
        targets
    }
}

/// Every member of a well-formed list has a health label.
pub proof fn law_member_has_health(list: &MemberList, id: Seq<char>)
    requires
        list.wf(),
        list@.members.dom().contains(id),
    ensures
        list@.health.dom().contains(id),
        list@.members[id].id == id,
{
    list.lemma_valid();
    assert(list@.members[id].id == id);
}

/// The empty list has no health label without a member, and filing a member
/// keeps a list so: after `insert`, the identifiers with a member and those
/// with a health label are the same.
pub proof fn law_insert_keeps_labels_matched(
    list: MemberListView,
    member: MemberView,
    health: Health,
)
    requires
        list.valid(),
        list.balanced(),
    ensures
        MemberListView::empty().valid(),
        MemberListView::empty().balanced(),
        list.insert(member, health).valid(),
        list.insert(member, health).balanced(),
        list.insert(member, health).members.dom() =~= list.insert(member, health).health.dom(),
{
    let after = list.insert(member, health);
    assert forall|id: Seq<char>| after.members.dom().contains(id) implies (
    #[trigger] after.members[id]).id == id && after.health.dom().contains(id) by {
        if id != member.id {
            assert(list.members[id].id == id);
        }
    }
    assert forall|id: Seq<char>| after.members.dom().contains(id) <==> after.health.dom().contains(
        id,
    ) by {
        if after.members.dom().contains(id) {
            assert(after.members[id].id == id);
        }
    }
}

/// Setting the health of a member that is in the list keeps the identifiers
/// with a member and those with a health label the same.
pub proof fn law_insert_health_keeps_labels_matched(
    list: MemberListView,
    id: Seq<char>,
    health: Health,
)
    requires
        list.valid(),
        list.balanced(),
        list.members.dom().contains(id),
    ensures
        list.insert_health(id, health).valid(),
        list.insert_health(id, health).balanced(),
        list.insert_health(id, health).members.dom() =~= list.insert_health(
            id,
            health,
        ).health.dom(),
{
    let after = list.insert_health(id, health);
    assert forall|k: Seq<char>| after.members.dom().contains(k) implies (
    #[trigger] after.members[k]).id == k && after.health.dom().contains(k) by {
        assert(list.members[k].id == k);
    }
    assert forall|k: Seq<char>| after.members.dom().contains(k) <==> after.health.dom().contains(
        k,
    ) by {
        if after.members.dom().contains(k) {
            assert(after.members[k].id == k);
        }
    }
}

/// No member is ever taken out of the list: whatever is filed, and whatever
/// health is set, every member that was in the list is in it afterwards.
pub proof fn law_members_stay(
    list: MemberListView,
    member: MemberView,
    health: Health,
    id: Seq<char>,
)
    ensures
        list.members.dom().subset_of(list.insert(member, health).members.dom()),
        list.health.dom().subset_of(list.insert(member, health).health.dom()),
        list.insert_health(id, health).members == list.members,
        list.health.dom().subset_of(list.insert_health(id, health).health.dom()),
{
}

/// How many members may help: all of them but the sender and the target,
/// where those are in the list. With both in the list, and not the same, that
/// is two less than the list holds.
pub proof fn law_eligible_count(list: MemberListView, from: Seq<char>, target: Seq<char>)
    requires
        list.valid(),
    ensures
        list.eligible(from, target).finite(),
        list.eligible(from, target).len() == list.members.dom().len() - (if list.members.dom().contains(
            from,
        ) {
            1int
        } else {
            0int
        }) - (if target != from && list.members.dom().contains(target) {
            1int
        } else {
            0int
        }),
        list.members.dom().contains(from) && list.members.dom().contains(target) && from
            != target ==> list.eligible(from, target).len() == list.members.dom().len() - 2,
        !list.eligible(from, target).contains(from),
        !list.eligible(from, target).contains(target),
{
}

} // verus!
