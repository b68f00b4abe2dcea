use vstd::prelude::*;
use vstd::rwlock::RwLockPredicate;
use crate::registry::GuardedRegistry;
use crate::types::{AuthReq, PendingAuthRequest};

verus! {

/// Pending-request registry: a mapping from request identifier to pending
/// authorisation request that preserves insertion order, because that order
/// is what listing returns to clients.
pub struct PendingReqs {
    entries: Vec<(String, PendingAuthRequest)>,
}

impl PendingReqs {
    /// The stored entries, oldest first.
    pub closed spec fn entries_seq(self) -> Seq<(String, PendingAuthRequest)> {
        self.entries@
    }

    /// Every request identifier maps to exactly one live request.
    pub open spec fn wf(self) -> bool {
        forall|i: int, j: int|
            0 <= i < j < self.entries_seq().len() ==> (#[trigger] self.entries_seq()[i]).0@ != (
            #[trigger] self.entries_seq()[j]).0@
    }

    /// A request with this identifier is pending.
    pub open spec fn contains_key(self, k: Seq<char>) -> bool {
        exists|i: int|
            0 <= i < self.entries_seq().len() && (#[trigger] self.entries_seq()[i]).0@ == k
    }

    /// The client-facing descriptors, in insertion order.
    pub open spec fn descriptors(self) -> Seq<AuthReq> {
        self.entries_seq().map_values(|e: (String, PendingAuthRequest)| e.1.auth_req)
    }

    /// An empty registry.
    pub fn new() -> (r: Self)
        ensures
            r.entries_seq() == Seq::<(String, PendingAuthRequest)>::empty(),
            r.wf(),
    {
        PendingReqs { entries: Vec::new() }
    }

    /// Number of pending requests.
    pub fn len(&self) -> (n: usize)
        ensures
            n == self.entries_seq().len(),
    {
        self.entries.len()
    }

    /// Record a request under an identifier, as the external originator
    /// does: a fresh identifier is appended, keeping insertion order; an
    /// identifier already present has its request replaced in place.
    pub fn insert(&mut self, id: String, req: PendingAuthRequest)
        requires
            old(self).wf(),
        ensures
            final(self).wf(),
            !old(self).contains_key(id@) ==> final(self).entries_seq() == old(
                self,
            ).entries_seq().push((id, req)),
            old(self).contains_key(id@) ==> exists|i: int|
                0 <= i < old(self).entries_seq().len() && (#[trigger] old(self).entries_seq()[i]).0@
                    == id@ && final(self).entries_seq() == old(self).entries_seq().update(
                    i,
                    (id, req),
                ),
    {
        let n = self.entries.len();
        let mut i: usize = 0;
        while i < n
            invariant
                n == self.entries_seq().len(),
                0 <= i <= n,
                self == old(self),
                old(self).wf(),
                forall|j: int| 0 <= j < i ==> (#[trigger] self.entries_seq()[j]).0@ != id@,
            decreases n - i,
        {
            if self.entries[i].0 == id {
                let _ = self.entries.remove(i);
                self.entries.insert(i, (id, req));
                proof {
                    let olds = old(self).entries_seq();
                    let news = self.entries_seq();
                    assert(news =~= olds.update(i as int, news[i as int]));
                    assert(news[i as int].0@ == id@);
                    assert(olds[i as int].0@ == id@);
                    assert(old(self).contains_key(id@));
                    assert forall|p: int, q: int|
                        0 <= p < q < news.len() implies (#[trigger] news[p]).0@ != (
                    #[trigger] news[q]).0@ by {
                        assert(olds[p] == if p == i as int {
                            olds[i as int]
                        } else {
                            news[p]
                        });
                        assert(olds[q] == if q == i as int {
                            olds[i as int]
                        } else {
                            news[q]
                        });
                        assert((old(self).entries_seq()[p]).0@ != (old(
                            self,
                        ).entries_seq()[q]).0@);
                    }
                    assert(self.wf());
                }
                return ;
            }
            i = i + 1;
        }
        self.entries.push((id, req));
        proof {
            assert(!old(self).contains_key(final(self).entries_seq().last().0@));
            assert(final(self).wf());
        }
    }

    /// Snapshot listing: a copy of every stored request's client-facing
    /// descriptor, in insertion order.  The registry itself is not changed.
    pub fn list(&self) -> (r: Vec<AuthReq>)
        ensures
            r@ == self.descriptors(),
    {
        let mut out: Vec<AuthReq> = Vec::new();
        let n = self.entries.len();
        let mut i: usize = 0;
        while i < n
            invariant
                n == self.entries_seq().len(),
                0 <= i <= n,
                out@ =~= self.descriptors().take(i as int),
            decreases n - i,
        {
            out.push(self.entries[i].1.auth_req.clone_req());
            proof {
                assert(out@ =~= self.descriptors().take(i + 1));
            }
            i = i + 1;
        }
        proof {
            assert(out@ =~= self.descriptors());
        }
        out
    }
}

/// Lock predicate of the pending-request registry: its invariant holds.
pub struct PendingPred;

impl RwLockPredicate<PendingReqs> for PendingPred {
    open spec fn inv(self, v: PendingReqs) -> bool {
        v.wf()
    }
}

/// Shared handle to the pending-request registry, handed to every
/// concurrently executing handler invocation.
pub struct SharedAuthReqs {
    pub(crate) registry: GuardedRegistry<PendingReqs, PendingPred>,
}

impl SharedAuthReqs {
    #[verifier::type_invariant]
    pub(crate) open spec fn handle_wf(&self) -> bool {
        forall|v: PendingReqs| self.registry.inv(v) == v.wf()
    }

    /// Share an initial registry.
    pub fn new(initial: PendingReqs) -> (s: Self)
        requires
            initial.wf(),
    {
        SharedAuthReqs { registry: GuardedRegistry::new(initial, Ghost(PendingPred)) }
    }
}

} // verus!
