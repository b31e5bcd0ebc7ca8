use vstd::prelude::*;

use crate::addr::SockAddr;

verus! {

/// The addresses of `s` of one family (IPv6 where `v6`), in their order.
pub open spec fn family_of(s: Seq<SockAddr>, v6: bool) -> Seq<SockAddr>
    decreases s.len(),
{
    if s.len() == 0 {
        Seq::empty()
    } else if s.last().spec_is_v6() == v6 {
        family_of(s.drop_last(), v6).push(s.last())
    } else {
        family_of(s.drop_last(), v6)
    }
}

/// The order in which candidates are probed: the IPv6 ones first, then the
/// IPv4 ones, each group in the order given.
pub open spec fn probe_order(s: Seq<SockAddr>) -> Seq<SockAddr> {
    family_of(s, true) + family_of(s, false)
}

proof fn lemma_family_of(s: Seq<SockAddr>, v6: bool)
    ensures
        forall|i: int| 0 <= i < family_of(s, v6).len() ==> (#[trigger] family_of(s, v6)[i]).spec_is_v6() == v6,
    decreases s.len(),
{
    if s.len() > 0 {
        lemma_family_of(s.drop_last(), v6);
        let p = family_of(s.drop_last(), v6);
        if s.last().spec_is_v6() == v6 {
            assert forall|i: int| 0 <= i < family_of(s, v6).len() implies (#[trigger] family_of(
                s,
                v6,
            )[i]).spec_is_v6() == v6 by {
                if i < p.len() {
                    assert(family_of(s, v6)[i] == p[i]);
                }
            }
        }
    }
}

/// A choice among candidate addresses in progress: the probe order, where
/// the IPv6 group ends in it, and the next candidate to probe.
#[derive(Clone, Debug)]
pub struct AddressChooser {
    pub order: Vec<SockAddr>,
    pub n_v6: usize,
    pub next: usize,
}

impl AddressChooser {
    pub open spec fn wf(&self) -> bool {
        &&& self.n_v6 <= self.order.len()
        &&& self.next <= self.order.len()
        &&& forall|i: int| 0 <= i < self.order.len() ==> (#[trigger] self.order@[i]).spec_is_v6() == (i < self.n_v6)
    }

    /// Starts a choice among `addrs`.
    pub fn new(addrs: &Vec<SockAddr>) -> (r: AddressChooser)
        ensures
            r.wf(),
            r.order@ == probe_order(addrs@),
            r.n_v6 == family_of(addrs@, true).len(),
            r.next == 0,
    {
        let mut v6: Vec<SockAddr> = Vec::new();
        let mut v4: Vec<SockAddr> = Vec::new();
        let mut i: usize = 0;
        while i < addrs.len()
            invariant
                i <= addrs.len(),
                v6@ == family_of(addrs@.subrange(0, i as int), true),
                v4@ == family_of(addrs@.subrange(0, i as int), false),
            decreases addrs.len() - i,
        {
            assert(addrs@.subrange(0, i + 1).drop_last() == addrs@.subrange(0, i as int));
            let a = addrs[i];
            if a.is_v6() {
                v6.push(a);
            } else {
                v4.push(a);
            }
            i = i + 1;
        }
        assert(addrs@.subrange(0, i as int) == addrs@);
        proof {
            lemma_family_of(addrs@, true);
            lemma_family_of(addrs@, false);
        }
        let n_v6 = v6.len();
        let mut order = v6;
        let mut rest = v4;
        order.append(&mut rest);
        let r = AddressChooser { order, n_v6, next: 0 };
        assert(forall|k: int| 0 <= k < r.order.len() ==> (#[trigger] r.order@[k]) == if k < n_v6 {
            family_of(addrs@, true)[k]
        } else {
            family_of(addrs@, false)[k - n_v6]
        });
        r
    }

    /// The candidate to probe next, if any is left.
    pub fn next_probe(&self) -> (r: Option<SockAddr>)
        ensures
            self.next < self.order.len() ==> r == Some(self.order@[self.next as int]),
            self.next >= self.order.len() ==> r is None,
    {
        if self.next < self.order.len() {
            Some(self.order[self.next])
        } else {
            None
        }
    }

    /// The candidate just probed could not be connected to.
    pub fn probe_failed(&mut self)
        requires
            old(self).wf(),
            old(self).next < old(self).order.len(),
        ensures
            final(self).wf(),
            final(self).order == old(self).order,
            final(self).n_v6 == old(self).n_v6,
            final(self).next == old(self).next + 1,
    {
        self.next = self.next + 1;
    }

    /// No socket of the next candidate's family could be had: the rest of its
    /// group is passed over.
    pub fn family_unavailable(&mut self)
        requires
            old(self).wf(),
            old(self).next < old(self).order.len(),
        ensures
            final(self).wf(),
            final(self).order == old(self).order,
            final(self).n_v6 == old(self).n_v6,
            final(self).next == if old(self).next < old(self).n_v6 {
                old(self).n_v6
            } else {
                old(self).order.len()
            },
    {
        if self.next < self.n_v6 {
            self.next = self.n_v6;
        } else {
            self.next = self.order.len();
        }
    }
}

} // verus!
