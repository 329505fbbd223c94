//! Doubly-linked lists of slot indices threaded through a shared link table.
use vstd::prelude::*;

use super::atomic_link::{AtomicLink, AtomicLinkOps};

verus! {

/// A list of slots. The links live in a table that all lists of the pool
/// share: entry `i` of the table is the link of slot `i`.
pub struct SlotList {
    head: Option<usize>,
    tail: Option<usize>,
    len: usize,
    ops: AtomicLinkOps,
    items: Ghost<Seq<usize>>,
}

/// The link of the slot at position `k` of `s` points at its neighbours in `s`.
pub open spec fn node_ok(links: Seq<AtomicLink>, s: Seq<usize>, k: int) -> bool {
    let i = s[k];
    &&& (i as int) < links.len()
    &&& links[i as int].locked
    &&& links[i as int].prev == (if k == 0 {
        None::<usize>
    } else {
        Some(s[k - 1])
    })
    &&& links[i as int].next == (if k == s.len() - 1 {
        None::<usize>
    } else {
        Some(s[k + 1])
    })
}

/// The links outside `s` (and other than `extra`) are the same in both tables.
pub open spec fn links_kept(
    before: Seq<AtomicLink>,
    after: Seq<AtomicLink>,
    s: Seq<usize>,
    extra: int,
) -> bool {
    &&& after.len() == before.len()
    &&& forall|j: int|
        0 <= j < before.len() && j != extra && !s.contains(j as usize) ==> #[trigger] after[j]
            == before[j]
}

impl SlotList {
    /// The slots of the list, from front to back.
    pub closed spec fn items(&self) -> Seq<usize> {
        self.items@
    }

    pub closed spec fn wf(&self, links: Seq<AtomicLink>) -> bool {
        let s = self.items@;
        &&& s.no_duplicates()
        &&& self.len == s.len()
        &&& forall|k: int| 0 <= k < s.len() ==> #[trigger] node_ok(links, s, k)
        &&& self.head == (if s.len() == 0 {
            None::<usize>
        } else {
            Some(s[0])
        })
        &&& self.tail == (if s.len() == 0 {
            None::<usize>
        } else {
            Some(s[s.len() - 1])
        })
    }

    pub fn new() -> (r: SlotList)
        ensures
            r.items() == Seq::<usize>::empty(),
            forall|links: Seq<AtomicLink>| r.wf(links),
    {
        SlotList { head: None, tail: None, len: 0, ops: AtomicLinkOps, items: Ghost(Seq::empty()) }
    }

    pub fn len(&self) -> (r: usize)
        requires
            exists|links: Seq<AtomicLink>| self.wf(links),
        ensures
            r == self.items().len(),
    {
        self.len
    }

    /// A member of a well-formed list has a locked link.
    pub proof fn lemma_member_locked(&self, links: Seq<AtomicLink>, i: usize)
        requires
            self.wf(links),
            self.items().contains(i),
        ensures
            (i as int) < links.len(),
            links[i as int].locked,
    {
        let k = choose|k: int| 0 <= k < self.items().len() && self.items()[k] == i;
        assert(node_ok(links, self.items(), k));
    }

    /// A well-formed list holds each slot at most once.
    pub proof fn lemma_unique(&self, links: Seq<AtomicLink>)
        requires
            self.wf(links),
        ensures
            self.items().no_duplicates(),
    {
    }

    /// A list stays well formed when the links of its members are unchanged.
    pub proof fn lemma_frame(&self, before: Seq<AtomicLink>, after: Seq<AtomicLink>)
        requires
            self.wf(before),
            after.len() >= before.len(),
            forall|j: int|
                0 <= j < before.len() && self.items().contains(j as usize) ==> #[trigger] after[j]
                    == before[j],
        ensures
            self.wf(after),
    {
        let s = self.items();
        assert forall|k: int| 0 <= k < s.len() implies #[trigger] node_ok(after, s, k) by {
            assert(node_ok(before, s, k));
            assert(s.contains(s[k]));
        }
    }

    /// Links slot `i` at the back of the list.
    pub fn push_back(&mut self, links: &mut Vec<AtomicLink>, i: usize)
        requires
            old(self).wf(old(links)@),
            i < old(links).len(),
            !old(links)@[i as int].locked,
            old(self).items().len() < old(links).len(),
        ensures
            final(self).items() == old(self).items().push(i),
            final(self).wf(final(links)@),
            links_kept(old(links)@, final(links)@, old(self).items(), i as int),
    {
        let ghost s = self.items@;
        let ghost l0 = links@;
        proof {
            if s.contains(i) {
                self.lemma_member_locked(l0, i);
            }
        }
        let tail = self.tail;
        match tail {
            Some(t) => {
                proof {
                    assert(node_ok(l0, s, s.len() - 1));
                }
                self.ops.set_next(&mut links[t], Some(i));
            },
            None => {
                self.head = Some(i);
            },
        }
        self.ops.acquire_link(&mut links[i]);
        self.ops.set_prev(&mut links[i], tail);
        self.ops.set_next(&mut links[i], None);
        self.tail = Some(i);
        self.len = self.len + 1;
        self.items = Ghost(s.push(i));
        proof {
            let s2 = s.push(i);
            let l2 = links@;
            assert forall|k: int| 0 <= k < s2.len() implies #[trigger] node_ok(l2, s2, k) by {
                if k < s.len() {
                    assert(node_ok(l0, s, k));
                    if k < s.len() - 1 {
                        assert(s.contains(s[k + 1]));
                    }
                }
            }
            assert forall|a: int, b: int|
                0 <= a < s2.len() && 0 <= b < s2.len() && a != b implies s2[a] != s2[b] by {
                if a < s.len() && b == s.len() {
                    assert(s.contains(s[a]));
                }
                if b < s.len() && a == s.len() {
                    assert(s.contains(s[b]));
                }
            }
            assert forall|j: int|
                0 <= j < l0.len() && j != i && !s.contains(j as usize) implies #[trigger] l2[j]
                == l0[j] by {
                if s.len() > 0 {
                    assert(s.contains(s[s.len() - 1]));
                }
            }
        }
    }

    /// Unlinks the front slot, if there is one, and returns it.
    pub fn pop_front(&mut self, links: &mut Vec<AtomicLink>) -> (r: Option<usize>)
        requires
            old(self).wf(old(links)@),
        ensures
            old(self).items().len() == 0 ==> r is None && final(self).items() == old(self).items()
                && final(links)@ == old(links)@,
            old(self).items().len() > 0 ==> r == Some(old(self).items()[0]) && final(self).items()
                == old(self).items().drop_first() && final(links)@[old(self).items()[0] as int].is_unlinked(),
            final(self).wf(final(links)@),
            links_kept(old(links)@, final(links)@, old(self).items(), -1),
    {
        let ghost s = self.items@;
        let ghost l0 = links@;
        match self.head {
            None => None,
            Some(h) => {
                proof {
                    assert(node_ok(l0, s, 0));
                }
                let next = self.ops.next(&links[h]);
                match next {
                    Some(x) => {
                        proof {
                            assert(node_ok(l0, s, 1));
                        }
                        self.ops.set_prev(&mut links[x], None);
                    },
                    None => {
                        self.tail = None;
                    },
                }
                self.head = next;
                self.len = self.len - 1;
                self.ops.release_link(&mut links[h]);
                self.items = Ghost(s.drop_first());
                proof {
                    let s2 = s.drop_first();
                    let l2 = links@;
                    assert forall|k: int| 0 <= k < s2.len() implies #[trigger] node_ok(l2, s2, k) by {
                        assert(node_ok(l0, s, k + 1));
                        assert(s[k + 1] != s[0]);
                        if k > 0 {
                            assert(s[k + 1] != s[1]);
                        }
                    }
                    assert forall|j: int|
                        0 <= j < l0.len() && !s.contains(j as usize) implies #[trigger] l2[j]
                        == l0[j] by {
                        assert(s.contains(s[0]));
                        if s.len() > 1 {
                            assert(s.contains(s[1]));
                        }
                    }
                }
                Some(h)
            },
        }
    }

    /// Unlinks slot `i`, which must be a member, from wherever it stands.
    pub fn remove(&mut self, links: &mut Vec<AtomicLink>, i: usize)
        requires
            old(self).wf(old(links)@),
            old(self).items().contains(i),
        ensures
            final(self).items() == old(self).items().remove(old(self).items().index_of(i)),
            !final(self).items().contains(i),
            final(links)@[i as int].is_unlinked(),
            final(self).wf(final(links)@),
            links_kept(old(links)@, final(links)@, old(self).items(), -1),
    {
        let ghost s = self.items@;
        let ghost l0 = links@;
        let ghost k = s.index_of(i);
        proof {
            assert(node_ok(l0, s, k));
        }
        let prev = self.ops.prev(&links[i]);
        let next = self.ops.next(&links[i]);
        match prev {
            Some(p) => {
                proof {
                    assert(node_ok(l0, s, k - 1));
                }
                self.ops.set_next(&mut links[p], next);
            },
            None => {
                self.head = next;
            },
        }
        match next {
            Some(x) => {
                proof {
                    assert(node_ok(l0, s, k + 1));
                }
                self.ops.set_prev(&mut links[x], prev);
            },
            None => {
                self.tail = prev;
            },
        }
        self.ops.release_link(&mut links[i]);
        self.len = self.len - 1;
        self.items = Ghost(s.remove(k));
        proof {
            let s2 = s.remove(k);
            let l2 = links@;
            s.remove_ensures(k);
            assert forall|m: int| 0 <= m < s2.len() implies #[trigger] node_ok(l2, s2, m) by {
                if m < k {
                    assert(node_ok(l0, s, m));
                    assert(s[m] != s[k]);
                    if m < k - 1 {
                        assert(s[m] != s[k - 1]);
                    }
                    if k + 1 < s.len() {
                        assert(s[m] != s[k + 1]);
                    }
                    if m > 0 {
                        assert(s2[m - 1] == s[m - 1]);
                    }
                    if m < s2.len() - 1 {
                        assert(s2[m + 1] == s[m + 1] || m + 1 == k);
                    }
                } else {
                    assert(node_ok(l0, s, m + 1));
                    assert(s[m + 1] != s[k]);
                    if m > k {
                        assert(s[m + 1] != s[k + 1]);
                    }
                    if k > 0 {
                        assert(s[m + 1] != s[k - 1]);
                    }
                    if m > 0 {
                        assert(s2[m - 1] == s[m] || m == k);
                    }
                }
            }
            assert forall|a: int, b: int|
                0 <= a < s2.len() && 0 <= b < s2.len() && a != b implies s2[a] != s2[b] by {
                let a0 = if a < k {
                    a
                } else {
                    a + 1
                };
                let b0 = if b < k {
                    b
                } else {
                    b + 1
                };
                assert(s2[a] == s[a0]);
                assert(s2[b] == s[b0]);
            }
            assert forall|j: int|
                0 <= j < l0.len() && !s.contains(j as usize) implies #[trigger] l2[j] == l0[j] by {
                assert(s.contains(s[k]));
                if k > 0 {
                    assert(s.contains(s[k - 1]));
                }
                if k + 1 < s.len() {
                    assert(s.contains(s[k + 1]));
                }
            }
            if s2.contains(i) {
                let m = choose|m: int| 0 <= m < s2.len() && s2[m] == i;
                let m0 = if m < k {
                    m
                } else {
                    m + 1
                };
                assert(s2[m] == s[m0]);
            }
        }
    }
}

} // verus!
