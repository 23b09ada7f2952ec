use vstd::prelude::*;

use crate::json::{bytes_copy, bytes_eq};

verus! {

// ---------------------------------------------------------------------------
// The process-wide directory of live agent links: which agent ids have a
// connection right now. Entries appear on link-up and leave on link-down;
// the online list is exactly the set of keys.
// ---------------------------------------------------------------------------

pub struct Directory {
    pub robot_ids: Vec<Vec<u8>>,
}

/// Whether an id stands in a list of ids.
pub open spec fn ids_contain(s: Seq<Vec<u8>>, id: Seq<u8>) -> bool {
    exists|i: int| 0 <= i < s.len() && (#[trigger] s[i])@ == id
}

impl Directory {
    /// Keys unique: at most one entry per agent id.
    pub open spec fn wf(&self) -> bool {
        forall|i: int, j: int|
            0 <= i < j < self.robot_ids@.len() ==> self.robot_ids@[i]@ != self.robot_ids@[j]@
    }

    /// A live connection for the agent exists.
    pub open spec fn spec_online(&self, id: Seq<u8>) -> bool {
        ids_contain(self.robot_ids@, id)
    }

    pub fn new() -> (d: Directory)
        ensures
            d.wf(),
            forall|id: Seq<u8>| !d.spec_online(id),
    {
        Directory { robot_ids: Vec::new() }
    }

    fn find(&self, id: &Vec<u8>) -> (r: Option<usize>)
        ensures
            match r {
                Some(i) => i < self.robot_ids@.len() && self.robot_ids@[i as int]@ == id@,
                None => !self.spec_online(id@),
            },
    {
        let mut k: usize = 0;
        while k < self.robot_ids.len()
            invariant
                k <= self.robot_ids@.len(),
                forall|j: int| 0 <= j < k ==> (#[trigger] self.robot_ids@[j])@ != id@,
            decreases self.robot_ids@.len() - k,
        {
            if bytes_eq(&self.robot_ids[k], id) {
                return Some(k);
            }
            k += 1;
        }
        None
    }

    pub fn contains(&self, id: &Vec<u8>) -> (r: bool)
        ensures
            r == self.spec_online(id@),
    {
        match self.find(id) {
            Some(_) => true,
            None => false,
        }
    }

    /// The link came up: the agent is online afterwards, nobody else moves.
    pub fn insert(&mut self, id: Vec<u8>)
        requires
            old(self).wf(),
        ensures
            final(self).wf(),
            final(self).spec_online(id@),
            forall|k: Seq<u8>|
                k != id@ ==> final(self).spec_online(k) == old(self).spec_online(k),
    {
        match self.find(&id) {
            Some(_) => {
                proof {
                    assert forall|k: Seq<u8>|
                        k != id@ implies self.spec_online(k) == self.spec_online(k) by {}
                }
            },
            None => {
                let ghost pre = self.robot_ids@;
                self.robot_ids.push(id);
                proof {
                    assert(self.robot_ids@[pre.len() as int]@ == id@);
                    assert forall|a: int, b: int|
                        0 <= a < b < self.robot_ids@.len() implies self.robot_ids@[a]@
                        != self.robot_ids@[b]@ by {
                        if b < pre.len() {
                            assert(pre[a]@ != pre[b]@);
                        } else {
                            assert((#[trigger] pre[a])@ != id@);
                        }
                    }
                    assert forall|k: Seq<u8>|
                        k != id@ implies ids_contain(self.robot_ids@, k) == ids_contain(pre, k) by {
                        if ids_contain(pre, k) {
                            let w = choose|i: int| 0 <= i < pre.len() && (#[trigger] pre[i])@ == k;
                            assert(self.robot_ids@[w]@ == k);
                        }
                        if ids_contain(self.robot_ids@, k) {
                            let w = choose|i: int|
                                0 <= i < self.robot_ids@.len() && (#[trigger] self.robot_ids@[i])@
                                    == k;
                            assert(w < pre.len());
                            assert(pre[w]@ == k);
                        }
                    }
                }
            },
        }
    }

    /// The link went down: the agent is offline afterwards, nobody else moves.
    pub fn remove(&mut self, id: &Vec<u8>)
        requires
            old(self).wf(),
        ensures
            final(self).wf(),
            !final(self).spec_online(id@),
            forall|k: Seq<u8>|
                k != id@ ==> final(self).spec_online(k) == old(self).spec_online(k),
    {
        match self.find(id) {
            Some(i) => {
                let ghost pre = self.robot_ids@;
                let _ = self.robot_ids.remove(i);
                proof {
                    assert forall|a: int, b: int|
                        0 <= a < b < self.robot_ids@.len() implies self.robot_ids@[a]@
                        != self.robot_ids@[b]@ by {
                        let a0 = if a < i as int {
                            a
                        } else {
                            a + 1
                        };
                        let b0 = if b < i as int {
                            b
                        } else {
                            b + 1
                        };
                        assert(self.robot_ids@[a] == pre[a0]);
                        assert(self.robot_ids@[b] == pre[b0]);
                        assert(pre[a0]@ != pre[b0]@);
                    }
                    assert forall|k: Seq<u8>| ids_contain(self.robot_ids@, k) implies ids_contain(
                        pre,
                        k,
                    ) && k == k by {
                        if ids_contain(self.robot_ids@, k) {
                            let w = choose|q: int|
                                0 <= q < self.robot_ids@.len() && (#[trigger] self.robot_ids@[q])@
                                    == k;
                            let w0 = if w < i as int {
                                w
                            } else {
                                w + 1
                            };
                            assert(pre[w0]@ == k);
                        }
                    }
                    assert(!ids_contain(self.robot_ids@, id@)) by {
                        if ids_contain(self.robot_ids@, id@) {
                            let w = choose|q: int|
                                0 <= q < self.robot_ids@.len() && (#[trigger] self.robot_ids@[q])@
                                    == id@;
                            let w0 = if w < i as int {
                                w
                            } else {
                                w + 1
                            };
                            assert(pre[w0]@ == id@);
                            assert(pre[i as int]@ == id@);
                            assert(w0 != i as int);
                        }
                    }
                    assert forall|k: Seq<u8>|
                        k != id@ && ids_contain(pre, k) implies ids_contain(self.robot_ids@, k) by {
                        let w = choose|q: int| 0 <= q < pre.len() && (#[trigger] pre[q])@ == k;
                        assert(w != i as int);
                        let w1 = if w < i as int {
                            w
                        } else {
                            w - 1
                        };
                        assert(self.robot_ids@[w1] == pre[w]);
                    }
                }
            },
            None => {},
        }
    }

    /// The online list: exactly the agents with a live connection — an id
    /// stands in the answer precisely when its connection stands here, and
    /// each id stands in it once.
    pub fn online_robots(&self) -> (r: Vec<Vec<u8>>)
        requires
            self.wf(),
        ensures
            r@.len() == self.robot_ids@.len(),
            forall|i: int| 0 <= i < r@.len() ==> (#[trigger] r@[i])@ == self.robot_ids@[i]@,
            forall|id: Seq<u8>| ids_contain(r@, id) == self.spec_online(id),
            forall|i: int, j: int| 0 <= i < j < r@.len() ==> r@[i]@ != r@[j]@,
    {
        let mut r: Vec<Vec<u8>> = Vec::new();
        let mut k: usize = 0;
        while k < self.robot_ids.len()
            invariant
                k <= self.robot_ids@.len(),
                r@.len() == k,
                forall|i: int| 0 <= i < k ==> (#[trigger] r@[i])@ == self.robot_ids@[i]@,
            decreases self.robot_ids@.len() - k,
        {
            r.push(bytes_copy(&self.robot_ids[k]));
            k += 1;
        }
        proof {
            assert forall|id: Seq<u8>| ids_contain(r@, id) == self.spec_online(id) by {
                if ids_contain(r@, id) {
                    let w = choose|i: int| 0 <= i < r@.len() && (#[trigger] r@[i])@ == id;
                    assert(self.robot_ids@[w]@ == id);
                }
                if self.spec_online(id) {
                    let w = choose|i: int|
                        0 <= i < self.robot_ids@.len() && (#[trigger] self.robot_ids@[i])@ == id;
                    assert(r@[w]@ == id);
                }
            }
        }
        r
    }
}

} // verus!
