use vstd::prelude::*;

use crate::errors::RmcsError;
use crate::json::{bytes_copy, bytes_eq};

verus! {

// ---------------------------------------------------------------------------
// The identity and telemetry store, specified at its interface: agent rows
// keyed by uuid, network telemetry keyed by agent uuid, both upserted. The
// surrounding application mirrors each operation onto its durable tables;
// every rule about what a query returns is stated and checked here.
// ---------------------------------------------------------------------------

#[derive(Debug, PartialEq, Eq)]
pub struct RobotIdent {
    pub mac: Vec<u8>,
    pub name: Vec<u8>,
    pub uuid: Vec<u8>,
}

#[derive(Debug, PartialEq, Eq)]
pub struct NetworkRecord {
    pub robot_uuid: Vec<u8>,
    /// The JSON text of the last-observed interface array, verbatim.
    pub info: Vec<u8>,
    pub last_updated: i64,
}

pub struct Database {
    pub robots: Vec<RobotIdent>,
    pub network: Vec<NetworkRecord>,
}

/// The stored identity under a uuid: its (mac, name, uuid) field values.
pub open spec fn robots_lookup(s: Seq<RobotIdent>, uuid: Seq<u8>) -> Option<
    (Seq<u8>, Seq<u8>, Seq<u8>),
>
    decreases s,
{
    if s.len() == 0 {
        None
    } else if s[0].uuid@ == uuid {
        Some((s[0].mac@, s[0].name@, s[0].uuid@))
    } else {
        robots_lookup(s.drop_first(), uuid)
    }
}

/// The stored telemetry under a uuid: its (text, timestamp) values.
pub open spec fn network_lookup(s: Seq<NetworkRecord>, uuid: Seq<u8>) -> Option<(Seq<u8>, int)>
    decreases s,
{
    if s.len() == 0 {
        None
    } else if s[0].robot_uuid@ == uuid {
        Some((s[0].info@, s[0].last_updated as int))
    } else {
        network_lookup(s.drop_first(), uuid)
    }
}

/// Whether `needle` stands somewhere inside `hay`.
pub open spec fn contains_sub(hay: Seq<u8>, needle: Seq<u8>) -> bool {
    exists|i: int|
        0 <= i && i + needle.len() <= hay.len() && #[trigger] hay.subrange(i, i + needle.len())
            == needle
}

/// Whether a row answers a name-and-mac search: the username stands inside
/// the stored name, and the mac matches exactly.
pub open spec fn row_matches(r: RobotIdent, username: Seq<u8>, mac: Seq<u8>) -> bool {
    contains_sub(r.name@, username) && r.mac@ == mac
}

/// The first row that answers a search, by its field values.
pub open spec fn fuzz_lookup(s: Seq<RobotIdent>, username: Seq<u8>, mac: Seq<u8>) -> Option<
    (Seq<u8>, Seq<u8>, Seq<u8>),
>
    decreases s,
{
    if s.len() == 0 {
        None
    } else if row_matches(s[0], username, mac) {
        Some((s[0].mac@, s[0].name@, s[0].uuid@))
    } else {
        fuzz_lookup(s.drop_first(), username, mac)
    }
}

proof fn lemma_robots_lookup_absent(s: Seq<RobotIdent>, uuid: Seq<u8>)
    requires
        forall|i: int| 0 <= i < s.len() ==> s[i].uuid@ != uuid,
    ensures
        robots_lookup(s, uuid) is None,
    decreases s,
{
    if s.len() > 0 {
        lemma_robots_lookup_absent(s.drop_first(), uuid);
    }
}

proof fn lemma_robots_lookup_none_all(s: Seq<RobotIdent>, uuid: Seq<u8>)
    requires
        robots_lookup(s, uuid) is None,
    ensures
        forall|i: int| 0 <= i < s.len() ==> s[i].uuid@ != uuid,
    decreases s,
{
    if s.len() > 0 {
        lemma_robots_lookup_none_all(s.drop_first(), uuid);
        assert forall|i: int| 0 <= i < s.len() implies s[i].uuid@ != uuid by {
            if i > 0 {
                assert(s.drop_first()[i - 1] == s[i]);
            }
        }
    }
}

proof fn lemma_robots_lookup_at(s: Seq<RobotIdent>, uuid: Seq<u8>, i: int)
    requires
        0 <= i < s.len(),
        s[i].uuid@ == uuid,
        forall|j: int| 0 <= j < i ==> s[j].uuid@ != uuid,
    ensures
        robots_lookup(s, uuid) == Some((s[i].mac@, s[i].name@, s[i].uuid@)),
    decreases i,
{
    if i > 0 {
        lemma_robots_lookup_at(s.drop_first(), uuid, i - 1);
    }
}

proof fn lemma_robots_lookup_push(s: Seq<RobotIdent>, e: RobotIdent, k: Seq<u8>)
    ensures
        robots_lookup(s.push(e), k) == (if robots_lookup(s, k) is Some {
            robots_lookup(s, k)
        } else if k == e.uuid@ {
            Some((e.mac@, e.name@, e.uuid@))
        } else {
            None
        }),
    decreases s,
{
    if s.len() == 0 {
        assert(s.push(e).drop_first() =~= Seq::<RobotIdent>::empty());
        assert(robots_lookup(Seq::<RobotIdent>::empty(), k) is None);
        assert(s.push(e)[0] == e);
    } else {
        assert(s.push(e)[0] == s[0]);
        assert(s.push(e).drop_first() =~= s.drop_first().push(e));
        lemma_robots_lookup_push(s.drop_first(), e, k);
    }
}

proof fn lemma_robots_lookup_update(s: Seq<RobotIdent>, i: int, e: RobotIdent, k: Seq<u8>)
    requires
        0 <= i < s.len(),
        s[i].uuid@ == e.uuid@,
        forall|j: int| 0 <= j < s.len() && j != i ==> s[j].uuid@ != e.uuid@,
    ensures
        robots_lookup(s.update(i, e), k) == (if k == e.uuid@ {
            Some((e.mac@, e.name@, e.uuid@))
        } else {
            robots_lookup(s, k)
        }),
    decreases i,
{
    if i == 0 {
        assert(s.update(0, e)[0] == e);
        assert(s.update(0, e).drop_first() =~= s.drop_first());
    } else {
        assert(s.update(i, e)[0] == s[0]);
        assert(s.update(i, e).drop_first() =~= s.drop_first().update(i - 1, e));
        assert forall|j: int|
            0 <= j < s.drop_first().len() && j != i - 1 implies (#[trigger] s.drop_first()[
                j
            ]).uuid@ != e.uuid@ by {
            assert(s.drop_first()[j] == s[j + 1]);
        }
        lemma_robots_lookup_update(s.drop_first(), i - 1, e, k);
    }
}

proof fn lemma_network_lookup_absent(s: Seq<NetworkRecord>, uuid: Seq<u8>)
    requires
        forall|i: int| 0 <= i < s.len() ==> s[i].robot_uuid@ != uuid,
    ensures
        network_lookup(s, uuid) is None,
    decreases s,
{
    if s.len() > 0 {
        lemma_network_lookup_absent(s.drop_first(), uuid);
    }
}

proof fn lemma_network_lookup_none_all(s: Seq<NetworkRecord>, uuid: Seq<u8>)
    requires
        network_lookup(s, uuid) is None,
    ensures
        forall|i: int| 0 <= i < s.len() ==> s[i].robot_uuid@ != uuid,
    decreases s,
{
    if s.len() > 0 {
        lemma_network_lookup_none_all(s.drop_first(), uuid);
        assert forall|i: int| 0 <= i < s.len() implies s[i].robot_uuid@ != uuid by {
            if i > 0 {
                assert(s.drop_first()[i - 1] == s[i]);
            }
        }
    }
}

proof fn lemma_network_lookup_at(s: Seq<NetworkRecord>, uuid: Seq<u8>, i: int)
    requires
        0 <= i < s.len(),
        s[i].robot_uuid@ == uuid,
        forall|j: int| 0 <= j < i ==> s[j].robot_uuid@ != uuid,
    ensures
        network_lookup(s, uuid) == Some((s[i].info@, s[i].last_updated as int)),
    decreases i,
{
    if i > 0 {
        lemma_network_lookup_at(s.drop_first(), uuid, i - 1);
    }
}

proof fn lemma_network_lookup_push(s: Seq<NetworkRecord>, e: NetworkRecord, k: Seq<u8>)
    ensures
        network_lookup(s.push(e), k) == (if network_lookup(s, k) is Some {
            network_lookup(s, k)
        } else if k == e.robot_uuid@ {
            Some((e.info@, e.last_updated as int))
        } else {
            None
        }),
    decreases s,
{
    if s.len() == 0 {
        assert(s.push(e).drop_first() =~= Seq::<NetworkRecord>::empty());
        assert(network_lookup(Seq::<NetworkRecord>::empty(), k) is None);
        assert(s.push(e)[0] == e);
    } else {
        assert(s.push(e)[0] == s[0]);
        assert(s.push(e).drop_first() =~= s.drop_first().push(e));
        lemma_network_lookup_push(s.drop_first(), e, k);
    }
}

proof fn lemma_network_lookup_update(s: Seq<NetworkRecord>, i: int, e: NetworkRecord, k: Seq<u8>)
    requires
        0 <= i < s.len(),
        s[i].robot_uuid@ == e.robot_uuid@,
        forall|j: int| 0 <= j < s.len() && j != i ==> s[j].robot_uuid@ != e.robot_uuid@,
    ensures
        network_lookup(s.update(i, e), k) == (if k == e.robot_uuid@ {
            Some((e.info@, e.last_updated as int))
        } else {
            network_lookup(s, k)
        }),
    decreases i,
{
    if i == 0 {
        assert(s.update(0, e)[0] == e);
        assert(s.update(0, e).drop_first() =~= s.drop_first());
    } else {
        assert(s.update(i, e)[0] == s[0]);
        assert(s.update(i, e).drop_first() =~= s.drop_first().update(i - 1, e));
        assert forall|j: int|
            0 <= j < s.drop_first().len() && j != i - 1 implies (#[trigger] s.drop_first()[
                j
            ]).robot_uuid@ != e.robot_uuid@ by {
            assert(s.drop_first()[j] == s[j + 1]);
        }
        lemma_network_lookup_update(s.drop_first(), i - 1, e, k);
    }
}

/// Whether `needle` stands inside `hay`, decided at runtime.
#[verifier::loop_isolation(false)]
pub fn bytes_contain(hay: &Vec<u8>, needle: &Vec<u8>) -> (r: bool)
    ensures
        r == contains_sub(hay@, needle@),
{
    if needle.len() > hay.len() {
        proof {
            assert forall|i: int|
                !(0 <= i && i + needle@.len() <= hay@.len() && #[trigger] hay@.subrange(
                    i,
                    i + needle@.len(),
                ) == needle@) by {}
        }
        return false;
    }
    if needle.len() == 0 {
        proof {
            assert(hay@.subrange(0, 0 + needle@.len() as int) =~= needle@);
        }
        return true;
    }
    let mut i: usize = 0;
    while i <= hay.len() - needle.len()
        invariant
            i <= hay@.len() - needle@.len() + 1,
            forall|p: int|
                0 <= p < i ==> #[trigger] hay@.subrange(p, p + needle@.len()) != needle@,
        decreases hay@.len() - needle@.len() + 1 - i,
    {
        let mut k: usize = 0;
        let mut hit = true;
        while hit && k < needle.len()
            invariant
                i + needle@.len() <= hay@.len(),
                k <= needle@.len(),
                hit ==> forall|q: int| 0 <= q < k ==> hay@[i + q] == needle@[q],
                !hit ==> hay@.subrange(i as int, i + needle@.len()) != needle@,
            decreases needle@.len() - k, (if hit { 1int } else { 0int }),
        {
            if hay[i + k] != needle[k] {
                proof {
                    assert(hay@.subrange(i as int, i + needle@.len())[k as int] == hay@[i + k]);
                }
                hit = false;
            } else {
                k += 1;
            }
        }
        if hit {
            proof {
                assert(hay@.subrange(i as int, i + needle@.len()) =~= needle@);
            }
            return true;
        }
        i += 1;
    }
    proof {
        assert forall|p: int|
            !(0 <= p && p + needle@.len() <= hay@.len() && #[trigger] hay@.subrange(
                p,
                p + needle@.len(),
            ) == needle@) by {
            if 0 <= p && p + needle@.len() <= hay@.len() {
                assert(p < i);
            }
        }
    }
    false
}

/// What registering an identity does: exactly the one row under the uuid
/// carries the given fields afterwards, and nothing else moves.
pub open spec fn register_post(
    pre: Database,
    post: Database,
    mac: Seq<u8>,
    name: Seq<u8>,
    uuid: Seq<u8>,
) -> bool {
    &&& post.wf()
    &&& robots_lookup(post.robots@, uuid) == Some((mac, name, uuid))
    &&& forall|k: Seq<u8>|
        k != uuid ==> robots_lookup(post.robots@, k) == robots_lookup(pre.robots@, k)
    &&& post.network@ == pre.network@
}

impl Database {
    /// Keys unique in both tables.
    pub open spec fn wf(&self) -> bool {
        &&& forall|i: int, j: int|
            0 <= i < j < self.robots@.len() ==> self.robots@[i].uuid@ != self.robots@[j].uuid@
        &&& forall|i: int, j: int|
            0 <= i < j < self.network@.len() ==> self.network@[i].robot_uuid@
                != self.network@[j].robot_uuid@
    }

    pub fn new() -> (r: Database)
        ensures
            r.wf(),
            r.robots@.len() == 0,
            r.network@.len() == 0,
    {
        Database { robots: Vec::new(), network: Vec::new() }
    }

    fn find_robot(&self, uuid: &Vec<u8>) -> (r: Option<usize>)
        ensures
            match r {
                Some(i) => i < self.robots@.len() && self.robots@[i as int].uuid@ == uuid@ && (
                forall|j: int| 0 <= j < i ==> self.robots@[j].uuid@ != uuid@) && robots_lookup(
                    self.robots@,
                    uuid@,
                ) == Some(
                    (
                        self.robots@[i as int].mac@,
                        self.robots@[i as int].name@,
                        self.robots@[i as int].uuid@,
                    ),
                ),
                None => robots_lookup(self.robots@, uuid@) is None,
            },
    {
        let mut k: usize = 0;
        while k < self.robots.len()
            invariant
                k <= self.robots@.len(),
                forall|j: int| 0 <= j < k ==> self.robots@[j].uuid@ != uuid@,
            decreases self.robots@.len() - k,
        {
            if bytes_eq(&self.robots[k].uuid, uuid) {
                proof {
                    lemma_robots_lookup_at(self.robots@, uuid@, k as int);
                }
                return Some(k);
            }
            k += 1;
        }
        proof {
            lemma_robots_lookup_absent(self.robots@, uuid@);
        }
        None
    }

    /// Registers an identity: an upsert keyed on the uuid.
    pub fn register_robot(&mut self, mac: &Vec<u8>, name: &Vec<u8>, uuid: &Vec<u8>)
        requires
            old(self).wf(),
        ensures
            register_post(*old(self), *final(self), mac@, name@, uuid@),
    {
        let e = RobotIdent { mac: bytes_copy(mac), name: bytes_copy(name), uuid: bytes_copy(uuid) };
        match self.find_robot(uuid) {
            Some(i) => {
                proof {
                    assert forall|j: int|
                        0 <= j < self.robots@.len() && j != i implies (#[trigger] self.robots@[
                            j
                        ]).uuid@ != e.uuid@ by {
                        if j > i as int {
                            assert(self.robots@[i as int].uuid@ == uuid@);
                        }
                    }
                    lemma_robots_lookup_update(self.robots@, i as int, e, uuid@);
                    assert forall|k: Seq<u8>|
                        k != uuid@ implies robots_lookup(self.robots@.update(i as int, e), k)
                        == robots_lookup(self.robots@, k) by {
                        lemma_robots_lookup_update(self.robots@, i as int, e, k);
                    }
                }
                let ghost pre = self.robots@;
                self.robots.set(i, e);
                proof {
                    assert forall|a: int, b: int|
                        0 <= a < b < self.robots@.len() implies self.robots@[a].uuid@
                        != self.robots@[b].uuid@ by {
                        assert(pre[a].uuid@ != pre[b].uuid@);
                    }
                }
            },
            None => {
                proof {
                    lemma_robots_lookup_push(self.robots@, e, uuid@);
                    assert forall|k: Seq<u8>|
                        k != uuid@ implies robots_lookup(self.robots@.push(e), k) == robots_lookup(
                            self.robots@,
                            k,
                        ) by {
                        lemma_robots_lookup_push(self.robots@, e, k);
                    }
                    lemma_robots_lookup_none_all(self.robots@, uuid@);
                }
                let ghost pre = self.robots@;
                self.robots.push(e);
                proof {
                    assert forall|a: int, b: int|
                        0 <= a < b < self.robots@.len() implies self.robots@[a].uuid@
                        != self.robots@[b].uuid@ by {
                        if b < pre.len() {
                            assert(pre[a].uuid@ != pre[b].uuid@);
                        } else {
                            assert(self.robots@[b] == e);
                            assert(pre[a].uuid@ != uuid@);
                        }
                    }
                }
            },
        }
    }

    /// Renames the agent under a uuid, as `rename_post` says.
    pub fn update_robot_name(&mut self, uuid: &Vec<u8>, name: &Vec<u8>) -> (found: bool)
        requires
            old(self).wf(),
        ensures
            rename_post(*old(self), *final(self), uuid@, name@),
            found == (robots_lookup(old(self).robots@, uuid@) is Some),
    {
        match self.find_robot(uuid) {
            Some(i) => {
                let row = &self.robots[i];
                let e = RobotIdent {
                    mac: bytes_copy(&row.mac),
                    name: bytes_copy(name),
                    uuid: bytes_copy(&row.uuid),
                };
                proof {
                    assert forall|j: int|
                        0 <= j < self.robots@.len() && j != i implies (#[trigger] self.robots@[
                            j
                        ]).uuid@ != e.uuid@ by {
                        if j > i as int {
                            assert(self.robots@[i as int].uuid@ == uuid@);
                        }
                    }
                    lemma_robots_lookup_update(self.robots@, i as int, e, uuid@);
                    assert forall|k: Seq<u8>|
                        k != uuid@ implies robots_lookup(self.robots@.update(i as int, e), k)
                        == robots_lookup(self.robots@, k) by {
                        lemma_robots_lookup_update(self.robots@, i as int, e, k);
                    }
                }
                let ghost pre = self.robots@;
                self.robots.set(i, e);
                proof {
                    assert forall|a: int, b: int|
                        0 <= a < b < self.robots@.len() implies self.robots@[a].uuid@
                        != self.robots@[b].uuid@ by {
                        assert(pre[a].uuid@ != pre[b].uuid@);
                    }
                }
                true
            },
            None => false,
        }
    }

    /// The identity row under a uuid, by value.
    pub fn get_robot_by_id(&self, uuid: &Vec<u8>) -> (r: Option<RobotIdent>)
        ensures
            match r {
                Some(x) => robots_lookup(self.robots@, uuid@) == Some((x.mac@, x.name@, x.uuid@)),
                None => robots_lookup(self.robots@, uuid@) is None,
            },
    {
        match self.find_robot(uuid) {
            Some(i) => {
                let row = &self.robots[i];
                Some(
                    RobotIdent {
                        mac: bytes_copy(&row.mac),
                        name: bytes_copy(&row.name),
                        uuid: bytes_copy(&row.uuid),
                    },
                )
            },
            None => None,
        }
    }

    /// Every stored row, in store order, by value.
    pub fn get_robots(&self) -> (r: Vec<RobotIdent>)
        ensures
            r@.len() == self.robots@.len(),
            forall|i: int|
                0 <= i < r@.len() ==> (#[trigger] r@[i]).mac@ == self.robots@[i].mac@ && r@[i].name@
                    == self.robots@[i].name@ && r@[i].uuid@ == self.robots@[i].uuid@,
    {
        let mut r: Vec<RobotIdent> = Vec::new();
        let mut k: usize = 0;
        while k < self.robots.len()
            invariant
                k <= self.robots@.len(),
                r@.len() == k,
                forall|i: int|
                    0 <= i < k ==> (#[trigger] r@[i]).mac@ == self.robots@[i].mac@ && r@[i].name@
                        == self.robots@[i].name@ && r@[i].uuid@ == self.robots@[i].uuid@,
            decreases self.robots@.len() - k,
        {
            let row = &self.robots[k];
            r.push(
                RobotIdent {
                    mac: bytes_copy(&row.mac),
                    name: bytes_copy(&row.name),
                    uuid: bytes_copy(&row.uuid),
                },
            );
            k += 1;
        }
        r
    }

    /// Every stored name, in store order.
    pub fn get_robot_names(&self) -> (r: Vec<Vec<u8>>)
        ensures
            r@.len() == self.robots@.len(),
            forall|i: int| 0 <= i < r@.len() ==> (#[trigger] r@[i])@ == self.robots@[i].name@,
    {
        let mut r: Vec<Vec<u8>> = Vec::new();
        let mut k: usize = 0;
        while k < self.robots.len()
            invariant
                k <= self.robots@.len(),
                r@.len() == k,
                forall|i: int| 0 <= i < k ==> (#[trigger] r@[i])@ == self.robots@[i].name@,
            decreases self.robots@.len() - k,
        {
            r.push(bytes_copy(&self.robots[k].name));
            k += 1;
        }
        r
    }

    /// The first row whose name holds the username and whose mac matches,
    /// if any: the retrieval search.
    pub fn fuzz_search_by_name(&self, username: &Vec<u8>, mac: &Vec<u8>) -> (r: Option<RobotIdent>)
        ensures
            match r {
                Some(x) => fuzz_lookup(self.robots@, username@, mac@) == Some(
                    (x.mac@, x.name@, x.uuid@),
                ),
                None => fuzz_lookup(self.robots@, username@, mac@) is None,
            },
    {
        let mut k: usize = 0;
        while k < self.robots.len()
            invariant
                k <= self.robots@.len(),
                forall|j: int| 0 <= j < k ==> !row_matches(#[trigger] self.robots@[j], username@, mac@),
            decreases self.robots@.len() - k,
        {
            let row = &self.robots[k];
            if bytes_contain(&row.name, username) && bytes_eq(&row.mac, mac) {
                proof {
                    lemma_fuzz_lookup_at(self.robots@, username@, mac@, k as int);
                }
                return Some(
                    RobotIdent {
                        mac: bytes_copy(&row.mac),
                        name: bytes_copy(&row.name),
                        uuid: bytes_copy(&row.uuid),
                    },
                );
            }
            k += 1;
        }
        proof {
            lemma_fuzz_lookup_absent(self.robots@, username@, mac@);
        }
        None
    }

    fn find_network(&self, uuid: &Vec<u8>) -> (r: Option<usize>)
        ensures
            match r {
                Some(i) => i < self.network@.len() && self.network@[i as int].robot_uuid@ == uuid@
                    && (forall|j: int| 0 <= j < i ==> self.network@[j].robot_uuid@ != uuid@)
                    && network_lookup(self.network@, uuid@) == Some(
                    (self.network@[i as int].info@, self.network@[i as int].last_updated as int),
                ),
                None => network_lookup(self.network@, uuid@) is None,
            },
    {
        let mut k: usize = 0;
        while k < self.network.len()
            invariant
                k <= self.network@.len(),
                forall|j: int| 0 <= j < k ==> self.network@[j].robot_uuid@ != uuid@,
            decreases self.network@.len() - k,
        {
            if bytes_eq(&self.network[k].robot_uuid, uuid) {
                proof {
                    lemma_network_lookup_at(self.network@, uuid@, k as int);
                }
                return Some(k);
            }
            k += 1;
        }
        proof {
            lemma_network_lookup_absent(self.network@, uuid@);
        }
        None
    }

    /// Stores the last-observed interface array: an upsert keyed on the
    /// agent uuid, stamped with the given time.
    pub fn write_network_info(&mut self, uuid: &Vec<u8>, info: Vec<u8>, now: i64)
        requires
            old(self).wf(),
        ensures
            final(self).wf(),
            network_lookup(final(self).network@, uuid@) == Some((info@, now as int)),
            forall|k: Seq<u8>|
                k != uuid@ ==> network_lookup(final(self).network@, k) == network_lookup(
                    old(self).network@,
                    k,
                ),
            final(self).robots@ == old(self).robots@,
    {
        let e = NetworkRecord { robot_uuid: bytes_copy(uuid), info, last_updated: now };
        match self.find_network(uuid) {
            Some(i) => {
                proof {
                    assert forall|j: int|
                        0 <= j < self.network@.len() && j != i implies (#[trigger] self.network@[
                            j
                        ]).robot_uuid@ != e.robot_uuid@ by {
                        if j > i as int {
                            assert(self.network@[i as int].robot_uuid@ == uuid@);
                        }
                    }
                    lemma_network_lookup_update(self.network@, i as int, e, uuid@);
                    assert forall|k: Seq<u8>|
                        k != uuid@ implies network_lookup(self.network@.update(i as int, e), k)
                        == network_lookup(self.network@, k) by {
                        lemma_network_lookup_update(self.network@, i as int, e, k);
                    }
                }
                let ghost pre = self.network@;
                self.network.set(i, e);
                proof {
                    assert forall|a: int, b: int|
                        0 <= a < b < self.network@.len() implies self.network@[a].robot_uuid@
                        != self.network@[b].robot_uuid@ by {
                        assert(pre[a].robot_uuid@ != pre[b].robot_uuid@);
                    }
                }
            },
            None => {
                proof {
                    lemma_network_lookup_none_all(self.network@, uuid@);
                    lemma_network_lookup_push(self.network@, e, uuid@);
                    assert forall|k: Seq<u8>|
                        k != uuid@ implies network_lookup(self.network@.push(e), k)
                        == network_lookup(self.network@, k) by {
                        lemma_network_lookup_push(self.network@, e, k);
                    }
                }
                let ghost pre = self.network@;
                self.network.push(e);
                proof {
                    assert forall|a: int, b: int|
                        0 <= a < b < self.network@.len() implies self.network@[a].robot_uuid@
                        != self.network@[b].robot_uuid@ by {
                        if b < pre.len() {
                            assert(pre[a].robot_uuid@ != pre[b].robot_uuid@);
                        } else {
                            assert(self.network@[b] == e);
                            assert(pre[a].robot_uuid@ != uuid@);
                        }
                    }
                }
            },
        }
    }

    /// The stored telemetry under a uuid: the verbatim JSON text and its
    /// write time.
    pub fn get_network_info(&self, uuid: &Vec<u8>) -> (r: Option<(Vec<u8>, i64)>)
        ensures
            match r {
                Some((info, t)) => network_lookup(self.network@, uuid@) == Some((info@, t as int)),
                None => network_lookup(self.network@, uuid@) is None,
            },
    {
        match self.find_network(uuid) {
            Some(i) => {
                let row = &self.network[i];
                Some((bytes_copy(&row.info), row.last_updated))
            },
            None => None,
        }
    }
}

proof fn lemma_fuzz_lookup_absent(s: Seq<RobotIdent>, username: Seq<u8>, mac: Seq<u8>)
    requires
        forall|i: int| 0 <= i < s.len() ==> !row_matches(#[trigger] s[i], username, mac),
    ensures
        fuzz_lookup(s, username, mac) is None,
    decreases s,
{
    if s.len() > 0 {
        lemma_fuzz_lookup_absent(s.drop_first(), username, mac);
    }
}

proof fn lemma_fuzz_lookup_at(s: Seq<RobotIdent>, username: Seq<u8>, mac: Seq<u8>, i: int)
    requires
        0 <= i < s.len(),
        row_matches(s[i], username, mac),
        forall|j: int| 0 <= j < i ==> !row_matches(#[trigger] s[j], username, mac),
    ensures
        fuzz_lookup(s, username, mac) == Some((s[i].mac@, s[i].name@, s[i].uuid@)),
    decreases i,
{
    if i > 0 {
        lemma_fuzz_lookup_at(s.drop_first(), username, mac, i - 1);
    }
}

/// What renaming an agent does: the one row under the uuid keeps its mac
/// and uuid and carries the new name afterwards; a uuid with no row changes
/// nothing; nothing else moves.
pub open spec fn rename_post(pre: Database, post: Database, uuid: Seq<u8>, name: Seq<u8>) -> bool {
    &&& post.wf()
    &&& post.network@ == pre.network@
    &&& match robots_lookup(pre.robots@, uuid) {
        Some(row) => robots_lookup(post.robots@, uuid) == Some((row.0, name, row.2)) && (forall|
            k: Seq<u8>,
        |
            k != uuid ==> robots_lookup(post.robots@, k) == robots_lookup(pre.robots@, k)),
        None => post.robots@ == pre.robots@,
    }
}

/// Law: registering the same identity twice leaves the store exactly where
/// the first registration left it — the upsert is idempotent.
pub proof fn lemma_register_idempotent(
    pre: Database,
    mid: Database,
    post: Database,
    mac: Seq<u8>,
    name: Seq<u8>,
    uuid: Seq<u8>,
)
    requires
        register_post(pre, mid, mac, name, uuid),
        register_post(mid, post, mac, name, uuid),
    ensures
        forall|k: Seq<u8>| robots_lookup(post.robots@, k) == robots_lookup(mid.robots@, k),
        post.network@ == mid.network@,
{
}

} // verus!
