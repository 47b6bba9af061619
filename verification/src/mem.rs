//! Per-task mapped-region state: the set of mapped virtual pages, each with
//! its permission bits, at page granularity. No page is ever mapped twice;
//! mapping and unmapping a range is all-or-nothing.

use vstd::prelude::*;
use crate::addr::VirtPageNum;

verus! {

/// One mapped page: its virtual page number and its permission bits.
#[derive(Clone, Copy, PartialEq, Eq, Structural, Debug)]
pub struct PageMapping {
    pub vpn: usize,
    pub port: usize,
}

/// True iff some entry of `s` maps virtual page `v`.
pub(crate) open spec fn seq_maps_vpn(s: Seq<PageMapping>, v: int) -> bool {
    exists|i: int| 0 <= i < s.len() && s[i].vpn == v
}

/// Permission bits that `s` records for virtual page `v` (meaningful only
/// when some entry of `s` maps `v`).
pub(crate) open spec fn seq_port_at(s: Seq<PageMapping>, v: int) -> int {
    s[choose|i: int| 0 <= i < s.len() && s[i].vpn == v].port as int
}

/// No virtual page is recorded by two entries.
pub(crate) open spec fn vpns_unique(s: Seq<PageMapping>) -> bool {
    forall|i: int, j: int| 0 <= i < j < s.len() ==> s[i].vpn != s[j].vpn
}

/// The mapped pages of one task's address space.
pub struct AddressSpace {
    pages: Vec<PageMapping>,
}

impl View for AddressSpace {
    type V = Map<int, int>;

    /// The address space as a map from virtual page number to permission bits.
    closed spec fn view(&self) -> Map<int, int> {
        Map::new(
            |v: int| seq_maps_vpn(self.pages@, v),
            |v: int| seq_port_at(self.pages@, v),
        )
    }
}

/// With no duplicate pages, the entry at index `i` is the one `choose` picks
/// for its page, so the recorded port is that entry's port.
proof fn lemma_port_at_entry(s: Seq<PageMapping>, i: int)
    requires
        vpns_unique(s),
        0 <= i < s.len(),
    ensures
        seq_maps_vpn(s, s[i].vpn as int),
        seq_port_at(s, s[i].vpn as int) == s[i].port as int,
{
    let v = s[i].vpn as int;
    assert(seq_maps_vpn(s, v)) by {
        assert(0 <= i < s.len() && s[i].vpn == v);
    }
    let j = choose|j: int| 0 <= j < s.len() && s[j].vpn == v;
    if j < i {
        assert(s[j].vpn != s[i].vpn);
    } else if i < j {
        assert(s[i].vpn != s[j].vpn);
    }
    assert(j == i);
}

impl AddressSpace {
    /// Well-formed: no page appears in two entries.
    pub closed spec fn wf(&self) -> bool {
        vpns_unique(self.pages@)
    }

    /// An address space with nothing mapped.
    pub fn new() -> (r: AddressSpace)
        ensures
            r.wf(),
            r@ == Map::<int, int>::empty(),
    {
        let r = AddressSpace { pages: Vec::new() };
        proof {
            assert(r@ =~= Map::<int, int>::empty());
        }
        r
    }

    /// True iff page `vpn` is currently mapped.
    pub fn is_mapped(&self, vpn: VirtPageNum) -> (r: bool)
        ensures
            r == self@.contains_key(vpn.0 as int),
    {
        let n = self.pages.len();
        let mut i: usize = 0;
        while i < n
            invariant
                i <= n,
                n == self.pages@.len(),
                forall|j: int| 0 <= j < i ==> self.pages@[j].vpn != vpn.0,
            decreases n - i,
        {
            if self.pages[i].vpn == vpn.0 {
                proof {
                    assert(seq_maps_vpn(self.pages@, vpn.0 as int)) by {
                        assert(self.pages@[i as int].vpn == vpn.0);
                    }
                }
                return true;
            }
            i += 1;
        }
        false
    }

    /// The permission bits page `vpn` is mapped with, or nothing if it is
    /// not mapped.
    pub fn port_at(&self, vpn: VirtPageNum) -> (r: Option<usize>)
        requires
            self.wf(),
        ensures
            (r is Some) == self@.contains_key(vpn.0 as int),
            r is Some ==> self@[vpn.0 as int] == r->Some_0 as int,
    {
        let n = self.pages.len();
        let mut i: usize = 0;
        while i < n
            invariant
                i <= n,
                n == self.pages@.len(),
                self.wf(),
                forall|j: int| 0 <= j < i ==> self.pages@[j].vpn != vpn.0,
            decreases n - i,
        {
            if self.pages[i].vpn == vpn.0 {
                proof {
                    lemma_port_at_entry(self.pages@, i as int);
                }
                return Some(self.pages[i].port);
            }
            i += 1;
        }
        None
    }

    /// Record page `vpn` as mapped with permissions `port`.
    fn insert_page(&mut self, vpn: usize, port: usize)
        requires
            old(self).wf(),
            !old(self)@.contains_key(vpn as int),
        ensures
            final(self).wf(),
            final(self)@ == old(self)@.insert(vpn as int, port as int),
    {
        let ghost s0 = self.pages@;
        let entry = PageMapping { vpn, port };
        self.pages.push(entry);
        proof {
            let s1 = self.pages@;
            assert(s1 == s0.push(entry));
            assert forall|i: int, j: int| 0 <= i < j < s1.len() implies s1[i].vpn != s1[j].vpn by {
                if j < s0.len() {
                    assert(s0[i].vpn != s0[j].vpn);
                } else {
                    assert(s1[j] == entry);
                    if s0[i].vpn == vpn {
                        assert(seq_maps_vpn(s0, vpn as int)) by {
                            assert(s0[i].vpn == vpn);
                        }
                    }
                }
            }
            lemma_port_at_entry(s1, s0.len() as int);
            assert forall|v: int| v != vpn implies (seq_maps_vpn(s1, v) <==> seq_maps_vpn(
                s0,
                v,
            )) by {
                if seq_maps_vpn(s1, v) {
                    let i = choose|i: int| 0 <= i < s1.len() && s1[i].vpn == v;
                    assert(i < s0.len());
                    assert(s0[i].vpn == v);
                }
                if seq_maps_vpn(s0, v) {
                    let i = choose|i: int| 0 <= i < s0.len() && s0[i].vpn == v;
                    assert(s1[i].vpn == v);
                }
            }
            assert forall|v: int| v != vpn && seq_maps_vpn(s0, v) implies seq_port_at(s1, v)
                == seq_port_at(s0, v) by {
                let i = choose|i: int| 0 <= i < s0.len() && s0[i].vpn == v;
                lemma_port_at_entry(s0, i);
                assert(s1[i].vpn == v);
                lemma_port_at_entry(s1, i);
            }
            let m1 = self@;
            let mi = old(self)@.insert(vpn as int, port as int);
            assert forall|v: int| m1.contains_key(v) <==> mi.contains_key(v) by {
                assert(v != vpn ==> (seq_maps_vpn(s1, v) <==> seq_maps_vpn(s0, v)));
            }
            assert forall|v: int| m1.contains_key(v) implies m1[v] == mi[v] by {
                if v != vpn {
                    assert(seq_maps_vpn(s0, v));
                    assert(seq_port_at(s1, v) == seq_port_at(s0, v));
                }
            }
            assert(m1 =~= mi);
        }
    }

    /// Remove the entry for page `vpn`.
    fn remove_page(&mut self, vpn: usize)
        requires
            old(self).wf(),
            old(self)@.contains_key(vpn as int),
        ensures
            final(self).wf(),
            final(self)@ == old(self)@.remove(vpn as int),
    {
        let n = self.pages.len();
        let mut i: usize = 0;
        while i < n
            invariant
                i <= n,
                n == self.pages@.len(),
                self.pages@ == old(self).pages@,
                vpns_unique(old(self).pages@),
                seq_maps_vpn(old(self).pages@, vpn as int),
                forall|j: int| 0 <= j < i ==> old(self).pages@[j].vpn != vpn,
            decreases n - i,
        {
            if self.pages[i].vpn == vpn {
                let ghost k = i as int;
                let ghost s0 = self.pages@;
                self.pages.remove(i);
                proof {
                    let s1 = self.pages@;
                    assert(s1 == s0.remove(k));
                    s0.remove_ensures(k);
                    assert forall|a: int, b: int| 0 <= a < b < s1.len() implies s1[a].vpn
                        != s1[b].vpn by {
                        let a0: int = if a < k {
                            a
                        } else {
                            a + 1
                        };
                        let b0: int = if b < k {
                            b
                        } else {
                            b + 1
                        };
                        assert(s1[a] == s0[a0] && s1[b] == s0[b0]);
                        assert(s0[a0].vpn != s0[b0].vpn);
                    }
                    assert forall|v: int| v != vpn implies (seq_maps_vpn(s1, v) <==> seq_maps_vpn(
                        s0,
                        v,
                    )) by {
                        if seq_maps_vpn(s1, v) {
                            let a = choose|a: int| 0 <= a < s1.len() && s1[a].vpn == v;
                            let a0: int = if a < k {
                                a
                            } else {
                                a + 1
                            };
                            assert(s0[a0].vpn == v);
                        }
                        if seq_maps_vpn(s0, v) {
                            let a0 = choose|a0: int| 0 <= a0 < s0.len() && s0[a0].vpn == v;
                            assert(a0 != k);
                            let a: int = if a0 < k {
                                a0
                            } else {
                                a0 - 1
                            };
                            assert(s1[a].vpn == v);
                        }
                    }
                    assert(!seq_maps_vpn(s1, vpn as int)) by {
                        if seq_maps_vpn(s1, vpn as int) {
                            let a = choose|a: int| 0 <= a < s1.len() && s1[a].vpn == vpn;
                            let a0: int = if a < k {
                                a
                            } else {
                                a + 1
                            };
                            assert(s0[a0].vpn == vpn);
                            assert(a0 != k);
                            if a0 < k {
                                assert(s0[a0].vpn != s0[k].vpn);
                            } else {
                                assert(s0[k].vpn != s0[a0].vpn);
                            }
                        }
                    }
                    assert forall|v: int| v != vpn && seq_maps_vpn(s0, v) implies seq_port_at(
                        s1,
                        v,
                    ) == seq_port_at(s0, v) by {
                        let a0 = choose|a0: int| 0 <= a0 < s0.len() && s0[a0].vpn == v;
                        lemma_port_at_entry(s0, a0);
                        let a: int = if a0 < k {
                            a0
                        } else {
                            a0 - 1
                        };
                        assert(s1[a] == s0[a0]);
                        lemma_port_at_entry(s1, a);
                    }
                    assert(!self@.contains_key(vpn as int));
                    let m1 = self@;
                    let mr = old(self)@.remove(vpn as int);
                    assert forall|v: int| m1.contains_key(v) <==> mr.contains_key(v) by {
                        assert(v != vpn ==> (seq_maps_vpn(s1, v) <==> seq_maps_vpn(s0, v)));
                    }
                    assert forall|v: int| m1.contains_key(v) implies m1[v] == mr[v] by {
                        if v != vpn {
                            assert(seq_maps_vpn(s0, v));
                            assert(seq_port_at(s1, v) == seq_port_at(s0, v));
                        }
                    }
                    assert(m1 =~= mr);
                }
                return ;
            }
            i += 1;
        }
        proof {
            let s0 = old(self).pages@;
            let a0 = choose|a0: int| 0 <= a0 < s0.len() && s0[a0].vpn == vpn;
            assert(false);
        }
    }

    /// Map every page in `[start_vpn, end_vpn)` with permissions `port`.
    /// Fails, changing nothing, iff some page of the range is already mapped.
    pub fn mmap(&mut self, start_vpn: VirtPageNum, end_vpn: VirtPageNum, port: usize) -> (r: isize)
        requires
            old(self).wf(),
        ensures
            final(self).wf(),
            (exists|p: int| start_vpn.0 <= p < end_vpn.0 && old(self)@.contains_key(p))
                ==> (r == -1 && *final(self) == *old(self)),
            !(exists|p: int| start_vpn.0 <= p < end_vpn.0 && old(self)@.contains_key(p)) ==> {
                &&& r == 0
                &&& forall|p: int|
                    #![trigger final(self)@.contains_key(p)]
                    start_vpn.0 <= p < end_vpn.0 ==> final(self)@.contains_key(p)
                        && final(self)@[p] == port as int
                &&& forall|p: int| !(start_vpn.0 <= p < end_vpn.0)
                    ==> (final(self)@.contains_key(p) <==> old(self)@.contains_key(p))
                &&& forall|p: int| !(start_vpn.0 <= p < end_vpn.0) && old(self)@.contains_key(p)
                    ==> final(self)@[p] == old(self)@[p]
            },
    {
        let s = start_vpn.0;
        let e = end_vpn.0;
        let mut p = s;
        while p < e
            invariant
                s == start_vpn.0,
                e == end_vpn.0,
                s <= p,
                *self == *old(self),
                self.wf(),
                forall|q: int| s <= q < p ==> !self@.contains_key(q),
            decreases e - p,
        {
            if self.is_mapped(VirtPageNum(p)) {
                proof {
                    assert(s <= p < e && old(self)@.contains_key(p as int));
                }
                return -1;
            }
            p += 1;
        }
        let mut p = s;
        while p < e
            invariant
                s == start_vpn.0,
                e == end_vpn.0,
                s <= p <= e || p == s,
                self.wf(),
                forall|q: int| s <= q < e ==> !old(self)@.contains_key(q),
                forall|q: int|
                    #![trigger self@.contains_key(q)]
                    s <= q < p ==> self@.contains_key(q) && self@[q] == port as int,
                forall|q: int| p <= q < e ==> !self@.contains_key(q),
                forall|q: int|
                    !(s <= q < e) ==> (self@.contains_key(q) <==> old(self)@.contains_key(q)),
                forall|q: int|
                    !(s <= q < e) && old(self)@.contains_key(q) ==> self@[q] == old(self)@[q],
            decreases e - p,
        {
            let ghost pre = *self;
            self.insert_page(p, port);
            proof {
                assert forall|q: int| s <= q <= p implies self@.contains_key(q) && self@[q]
                    == port as int by {
                    if q != p {
                        assert(pre@.contains_key(q));
                        assert(pre@[q] == port as int);
                        assert(self@.contains_key(q) && self@[q] == port as int);
                    }
                }
            }
            p += 1;
        }
        proof {
            assert forall|q: int| s <= q < e implies self@.contains_key(q) && self@[q]
                == port as int by {
                assert(self@.contains_key(q));
            }
        }
        0
    }

    /// Unmap every page in `[start_vpn, end_vpn)`. Fails, changing nothing,
    /// iff some page of the range is not currently mapped.
    pub fn munmap(&mut self, start_vpn: VirtPageNum, end_vpn: VirtPageNum) -> (r: isize)
        requires
            old(self).wf(),
        ensures
            final(self).wf(),
            (exists|p: int| start_vpn.0 <= p < end_vpn.0 && !old(self)@.contains_key(p))
                ==> (r == -1 && *final(self) == *old(self)),
            !(exists|p: int| start_vpn.0 <= p < end_vpn.0 && !old(self)@.contains_key(p)) ==> {
                &&& r == 0
                &&& forall|p: int| start_vpn.0 <= p < end_vpn.0 ==> !final(self)@.contains_key(p)
                &&& forall|p: int| !(start_vpn.0 <= p < end_vpn.0)
                    ==> (final(self)@.contains_key(p) <==> old(self)@.contains_key(p))
                &&& forall|p: int| !(start_vpn.0 <= p < end_vpn.0) && old(self)@.contains_key(p)
                    ==> final(self)@[p] == old(self)@[p]
            },
    {
        let s = start_vpn.0;
        let e = end_vpn.0;
        let mut p = s;
        while p < e
            invariant
                s == start_vpn.0,
                e == end_vpn.0,
                s <= p,
                *self == *old(self),
                self.wf(),
                forall|q: int| s <= q < p ==> self@.contains_key(q),
            decreases e - p,
        {
            if !self.is_mapped(VirtPageNum(p)) {
                proof {
                    assert(s <= p < e && !old(self)@.contains_key(p as int));
                }
                return -1;
            }
            p += 1;
        }
        let mut p = s;
        while p < e
            invariant
                s == start_vpn.0,
                e == end_vpn.0,
                s <= p <= e || p == s,
                self.wf(),
                forall|q: int| s <= q < e ==> old(self)@.contains_key(q),
                forall|q: int| s <= q < p ==> !self@.contains_key(q),
                forall|q: int| p <= q < e ==> self@.contains_key(q),
                forall|q: int|
                    !(s <= q < e) ==> (self@.contains_key(q) <==> old(self)@.contains_key(q)),
                forall|q: int|
                    !(s <= q < e) && old(self)@.contains_key(q) ==> self@[q] == old(self)@[q],
            decreases e - p,
        {
            let ghost pre = *self;
            self.remove_page(p);
            proof {
                assert forall|q: int| s <= q <= p implies !self@.contains_key(q) by {
                    if q != p {
                        assert(!pre@.contains_key(q));
                        assert(!self@.contains_key(q));
                    }
                }
            }
            p += 1;
        }
        0
    }
}

} // verus!
