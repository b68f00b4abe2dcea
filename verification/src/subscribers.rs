use vstd::prelude::*;
use vstd::rwlock::RwLockPredicate;
use crate::registry::GuardedRegistry;
use crate::types::NotificationSubscription;

verus! {

/// One stored subscriber entry: endpoint address and subscription record.
pub type SubEntry = (String, NotificationSubscription);

/// No endpoint address occurs twice.
pub open spec fn unique_keys(s: Seq<SubEntry>) -> bool {
    forall|i: int, j: int|
        0 <= i < j < s.len() ==> (#[trigger] s[i]).0@ != (#[trigger] s[j]).0@
}

/// The subscription stored under an address: the first entry whose key
/// matches, if any.
pub open spec fn spec_lookup(s: Seq<SubEntry>, k: Seq<char>) -> Option<NotificationSubscription>
    decreases s.len(),
{
    if s.len() == 0 {
        None
    } else if s[0].0@ == k {
        Some(s[0].1)
    } else {
        spec_lookup(s.drop_first(), k)
    }
}

/// The entries left after removing the first entry stored under an address,
/// keeping the order of the rest.
pub open spec fn spec_remove(s: Seq<SubEntry>, k: Seq<char>) -> Seq<SubEntry>
    decreases s.len(),
{
    if s.len() == 0 {
        s
    } else if s[0].0@ == k {
        s.drop_first()
    } else {
        seq![s[0]] + spec_remove(s.drop_first(), k)
    }
}

/// Notification-subscriber registry: a mapping from endpoint address to
/// subscription record, each address subscribed at most once.
pub struct Subscribers {
    entries: Vec<SubEntry>,
}

impl Subscribers {
    /// The stored entries, oldest first.
    pub closed spec fn entries_seq(self) -> Seq<SubEntry> {
        self.entries@
    }

    /// Each address is subscribed at most once.
    pub open spec fn wf(self) -> bool {
        unique_keys(self.entries_seq())
    }

    /// An entry is stored under this address.
    pub open spec fn contains_key(self, k: Seq<char>) -> bool {
        spec_lookup(self.entries_seq(), k) is Some
    }

    /// An empty registry.
    pub fn new() -> (r: Self)
        ensures
            r.entries_seq() == Seq::<SubEntry>::empty(),
            r.wf(),
    {
        Subscribers { entries: Vec::new() }
    }

    /// Number of subscribed endpoints.
    pub fn len(&self) -> (n: usize)
        ensures
            n == self.entries_seq().len(),
    {
        self.entries.len()
    }

    /// Subscribe an endpoint, as the external collaborator does: a fresh
    /// address is appended; an address already subscribed has its record
    /// replaced in place.
    pub fn insert(&mut self, addr: String, sub: NotificationSubscription)
        requires
            old(self).wf(),
        ensures
            final(self).wf(),
            !old(self).contains_key(addr@) ==> final(self).entries_seq() == old(
                self,
            ).entries_seq().push((addr, sub)),
            old(self).contains_key(addr@) ==> exists|i: int|
                0 <= i < old(self).entries_seq().len() && (#[trigger] old(self).entries_seq()[i]).0@
                    == addr@ && final(self).entries_seq() == old(self).entries_seq().update(
                    i,
                    (addr, sub),
                ),
    {
        let n = self.entries.len();
        let mut i: usize = 0;
        while i < n
            invariant
                n == self.entries_seq().len(),
                0 <= i <= n,
                self == old(self),
                old(self).wf(),
                forall|j: int| 0 <= j < i ==> (#[trigger] self.entries_seq()[j]).0@ != addr@,
            decreases n - i,
        {
            if self.entries[i].0 == addr {
                let _ = self.entries.remove(i);
                self.entries.insert(i, (addr, sub));
                proof {
                    let olds = old(self).entries_seq();
                    let news = self.entries_seq();
                    assert(news =~= olds.update(i as int, news[i as int]));
                    assert(olds[i as int].0@ == addr@);
                    lemma_lookup_at(olds, addr@, i as int);
                    assert forall|p: int, q: int|
                        0 <= p < q < news.len() implies (#[trigger] news[p]).0@ != (
                    #[trigger] news[q]).0@ by {
                        assert(olds[p] == if p == i as int {
                            olds[i as int]
                        } else {
                            news[p]
                        });
                        assert(olds[q] == if q == i as int {
                            olds[i as int]
                        } else {
                            news[q]
                        });
                        assert((old(self).entries_seq()[p]).0@ != (old(
                            self,
                        ).entries_seq()[q]).0@);
                    }
                    assert(self.wf());
                }
                return ;
            }
            i = i + 1;
        }
        self.entries.push((addr, sub));
        proof {
            lemma_lookup_absent(old(self).entries_seq(), addr@);
            assert(self.wf());
        }
    }

    /// Remove the entry whose address equals the given one exactly (no
    /// normalization, no wildcard matching), returning the removed record if
    /// one was stored.
    pub fn remove(&mut self, addr: &String) -> (r: Option<NotificationSubscription>)
        requires
            old(self).wf(),
        ensures
            final(self).wf(),
            r == spec_lookup(old(self).entries_seq(), addr@),
            final(self).entries_seq() == spec_remove(old(self).entries_seq(), addr@),
    {
        let n = self.entries.len();
        let mut i: usize = 0;
        while i < n
            invariant
                n == self.entries_seq().len(),
                0 <= i <= n,
                self == old(self),
                old(self).wf(),
                forall|j: int| 0 <= j < i ==> (#[trigger] self.entries_seq()[j]).0@ != addr@,
            decreases n - i,
        {
            if self.entries[i].0 == *addr {
                let removed = self.entries.remove(i);
                proof {
                    lemma_lookup_at(old(self).entries_seq(), addr@, i as int);
                    lemma_remove_at(old(self).entries_seq(), addr@, i as int);
                    let olds = old(self).entries_seq();
                    let news = self.entries_seq();
                    assert(news =~= olds.remove(i as int));
                    assert forall|p: int, q: int|
                        0 <= p < q < news.len() implies (#[trigger] news[p]).0@ != (
                    #[trigger] news[q]).0@ by {
                        let p0: int = if p < i as int {
                            p
                        } else {
                            p + 1
                        };
                        let q0: int = if q < i as int {
                            q
                        } else {
                            q + 1
                        };
                        assert(news[p] == old(self).entries_seq()[p0]);
                        assert(news[q] == old(self).entries_seq()[q0]);
                        assert((old(self).entries_seq()[p0]).0@ != (old(
                            self,
                        ).entries_seq()[q0]).0@);
                    }
                    assert(self.wf());
                }
                return Some(removed.1);
            }
            i = i + 1;
        }
        proof {
            lemma_lookup_absent(old(self).entries_seq(), addr@);
            lemma_remove_absent(old(self).entries_seq(), addr@);
        }
        None
    }
}

/// When the first matching entry stands at index `i`, lookup returns it.
pub proof fn lemma_lookup_at(s: Seq<SubEntry>, k: Seq<char>, i: int)
    requires
        0 <= i < s.len(),
        s[i].0@ == k,
        forall|j: int| 0 <= j < i ==> (#[trigger] s[j]).0@ != k,
    ensures
        spec_lookup(s, k) == Some(s[i].1),
    decreases i,
{
    if i > 0 {
        lemma_lookup_at(s.drop_first(), k, i - 1);
    }
}

/// When the first matching entry stands at index `i`, removal deletes
/// exactly that entry.
pub proof fn lemma_remove_at(s: Seq<SubEntry>, k: Seq<char>, i: int)
    requires
        0 <= i < s.len(),
        s[i].0@ == k,
        forall|j: int| 0 <= j < i ==> (#[trigger] s[j]).0@ != k,
    ensures
        spec_remove(s, k) =~= s.remove(i),
    decreases i,
{
    if i == 0 {
        assert(s.remove(0) =~= s.drop_first());
    } else {
        lemma_remove_at(s.drop_first(), k, i - 1);
        assert(s.remove(i) =~= seq![s[0]] + s.drop_first().remove(i - 1));
    }
}

/// When no entry matches, lookup finds nothing.
pub proof fn lemma_lookup_absent(s: Seq<SubEntry>, k: Seq<char>)
    requires
        forall|j: int| 0 <= j < s.len() ==> (#[trigger] s[j]).0@ != k,
    ensures
        spec_lookup(s, k) is None,
    decreases s.len(),
{
    if s.len() > 0 {
        lemma_lookup_absent(s.drop_first(), k);
    }
}

/// When lookup finds nothing, removal changes nothing.
pub proof fn lemma_remove_not_found(s: Seq<SubEntry>, k: Seq<char>)
    requires
        spec_lookup(s, k) is None,
    ensures
        spec_remove(s, k) =~= s,
    decreases s.len(),
{
    if s.len() > 0 {
        lemma_remove_not_found(s.drop_first(), k);
        assert(spec_remove(s, k) =~= seq![s[0]] + s.drop_first());
        assert(seq![s[0]] + s.drop_first() =~= s);
    }
}

/// When no entry matches, removal changes nothing.
pub proof fn lemma_remove_absent(s: Seq<SubEntry>, k: Seq<char>)
    requires
        forall|j: int| 0 <= j < s.len() ==> (#[trigger] s[j]).0@ != k,
    ensures
        spec_remove(s, k) =~= s,
    decreases s.len(),
{
    if s.len() > 0 {
        lemma_remove_absent(s.drop_first(), k);
        assert(spec_remove(s, k) =~= seq![s[0]] + s.drop_first());
        assert(seq![s[0]] + s.drop_first() =~= s);
    }
}

/// Removal keeps the remaining addresses unique.
pub proof fn lemma_remove_preserves_unique(s: Seq<SubEntry>, k: Seq<char>)
    requires
        unique_keys(s),
    ensures
        unique_keys(spec_remove(s, k)),
    decreases s.len(),
{
    if s.len() > 0 {
        assert forall|p: int, q: int|
            0 <= p < q < s.drop_first().len() implies (#[trigger] s.drop_first()[p]).0@ != (
        #[trigger] s.drop_first()[q]).0@ by {
            assert(s.drop_first()[p] == s[p + 1]);
            assert(s.drop_first()[q] == s[q + 1]);
        }
        if s[0].0@ == k {
        } else {
            lemma_remove_preserves_unique(s.drop_first(), k);
            let t = seq![s[0]] + spec_remove(s.drop_first(), k);
            assert forall|p: int, q: int|
                0 <= p < q < t.len() implies (#[trigger] t[p]).0@ != (#[trigger] t[q]).0@ by {
                lemma_remove_keeps_entries(s.drop_first(), k);
                if p > 0 {
                    let p0 = choose|p0: int|
                        0 <= p0 < s.drop_first().len() && s.drop_first()[p0] == #[trigger] t[p];
                    assert(s.drop_first()[p0] == s[p0 + 1]);
                }
                let q0 = choose|q0: int|
                    0 <= q0 < s.drop_first().len() && s.drop_first()[q0] == #[trigger] t[q];
                assert(s.drop_first()[q0] == s[q0 + 1]);
            }
        }
    }
}

/// Every entry that removal keeps was already stored.
pub proof fn lemma_remove_keeps_entries(s: Seq<SubEntry>, k: Seq<char>)
    ensures
        forall|i: int|
            0 <= i < spec_remove(s, k).len() ==> exists|i0: int|
                0 <= i0 < s.len() && s[i0] == #[trigger] spec_remove(s, k)[i],
    decreases s.len(),
{
    if s.len() > 0 {
        lemma_remove_keeps_entries(s.drop_first(), k);
        if s[0].0@ == k {
            assert forall|i: int| 0 <= i < spec_remove(s, k).len() implies exists|i0: int|
                0 <= i0 < s.len() && s[i0] == #[trigger] spec_remove(s, k)[i] by {
                assert(spec_remove(s, k)[i] == s[i + 1]);
            }
        } else {
            let t = seq![s[0]] + spec_remove(s.drop_first(), k);
            assert forall|i: int| 0 <= i < t.len() implies exists|i0: int|
                0 <= i0 < s.len() && s[i0] == #[trigger] t[i] by {
                if i == 0 {
                    assert(t[0] == s[0]);
                } else {
                    let j0 = choose|j0: int|
                        0 <= j0 < s.drop_first().len() && s.drop_first()[j0] == spec_remove(
                            s.drop_first(),
                            k,
                        )[i - 1];
                    assert(s[j0 + 1] == t[i]);
                }
            }
        }
    }
}

/// Removing one address never disturbs what is stored under another.
pub proof fn lemma_remove_other(s: Seq<SubEntry>, k: Seq<char>, k2: Seq<char>)
    requires
        k2 != k,
    ensures
        spec_lookup(spec_remove(s, k), k2) == spec_lookup(s, k2),
    decreases s.len(),
{
    if s.len() > 0 {
        if s[0].0@ == k {
        } else {
            lemma_remove_other(s.drop_first(), k, k2);
            let t = seq![s[0]] + spec_remove(s.drop_first(), k);
            assert(t[0] == s[0]);
            assert(t.drop_first() =~= spec_remove(s.drop_first(), k));
        }
    }
}

/// Removing a present address shrinks the registry by exactly one entry.
pub proof fn lemma_remove_len(s: Seq<SubEntry>, k: Seq<char>)
    requires
        spec_lookup(s, k) is Some,
    ensures
        spec_remove(s, k).len() == s.len() - 1,
    decreases s.len(),
{
    if s.len() > 0 && s[0].0@ != k {
        lemma_remove_len(s.drop_first(), k);
    }
}

/// Unsubscribing is idempotent in observable effect: once an address has
/// been removed from a well-formed registry, looking it up finds nothing and
/// removing it again changes nothing.
pub proof fn lemma_unsubscribe_idempotent(s: Seq<SubEntry>, k: Seq<char>)
    requires
        unique_keys(s),
    ensures
        spec_lookup(spec_remove(s, k), k) is None,
        spec_remove(spec_remove(s, k), k) =~= spec_remove(s, k),
    decreases s.len(),
{
    if s.len() > 0 {
        assert forall|p: int, q: int|
            0 <= p < q < s.drop_first().len() implies (#[trigger] s.drop_first()[p]).0@ != (
        #[trigger] s.drop_first()[q]).0@ by {
            assert(s.drop_first()[p] == s[p + 1]);
            assert(s.drop_first()[q] == s[q + 1]);
        }
        if s[0].0@ == k {
            assert forall|j: int|
                0 <= j < s.drop_first().len() implies (#[trigger] s.drop_first()[j]).0@ != k by {
                assert(s.drop_first()[j] == s[j + 1]);
            }
            lemma_lookup_absent(s.drop_first(), k);
            lemma_remove_not_found(s.drop_first(), k);
        } else {
            lemma_unsubscribe_idempotent(s.drop_first(), k);
            let t = seq![s[0]] + spec_remove(s.drop_first(), k);
            assert(t[0] == s[0]);
            assert(t.drop_first() =~= spec_remove(s.drop_first(), k));
        }
    }
}

/// Folding removals over a list of addresses, first to last.
pub open spec fn spec_remove_all(s: Seq<SubEntry>, addrs: Seq<Seq<char>>) -> Seq<SubEntry>
    decreases addrs.len(),
{
    if addrs.len() == 0 {
        s
    } else {
        spec_remove_all(spec_remove(s, addrs[0]), addrs.drop_first())
    }
}

/// Serialized unsubscribe calls for distinct addresses, each subscribed in a
/// well-formed registry: each call still finds its address when its turn
/// comes, the registry ends with exactly those entries removed, and what is
/// stored under every other address is untouched — no lost updates.
pub proof fn lemma_unsubscribe_batch(s: Seq<SubEntry>, addrs: Seq<Seq<char>>)
    requires
        unique_keys(s),
        forall|p: int, q: int| 0 <= p < q < addrs.len() ==> addrs[p] != addrs[q],
        forall|j: int| 0 <= j < addrs.len() ==> spec_lookup(s, #[trigger] addrs[j]) is Some,
    ensures
        unique_keys(spec_remove_all(s, addrs)),
        forall|j: int|
            0 <= j < addrs.len() ==> spec_lookup(
                spec_remove_all(s, addrs.take(j)),
                #[trigger] addrs[j],
            ) is Some,
        forall|k: Seq<char>|
            #[trigger] spec_lookup(spec_remove_all(s, addrs), k) == (if addrs.contains(k) {
                Option::<NotificationSubscription>::None
            } else {
                spec_lookup(s, k)
            }),
        spec_remove_all(s, addrs).len() + addrs.len() == s.len(),
    decreases addrs.len(),
{
    if addrs.len() == 0 {
        assert forall|k: Seq<char>|
            #[trigger] spec_lookup(spec_remove_all(s, addrs), k) == (if addrs.contains(k) {
                Option::<NotificationSubscription>::None
            } else {
                spec_lookup(s, k)
            }) by {
            if addrs.contains(k) {
                let j = choose|j: int| 0 <= j < addrs.len() && addrs[j] == k;
                assert(false);
            }
        }
    } else {
        let a0 = addrs[0];
        let s1 = spec_remove(s, a0);
        let rest = addrs.drop_first();
        lemma_remove_preserves_unique(s, a0);
        lemma_unsubscribe_idempotent(s, a0);
        lemma_remove_len(s, a0);
        assert forall|j: int| 0 <= j < rest.len() implies spec_lookup(
            s1,
            #[trigger] rest[j],
        ) is Some by {
            assert(rest[j] == addrs[j + 1]);
            assert(rest[j] != a0);
            lemma_remove_other(s, a0, rest[j]);
        }
        assert forall|p: int, q: int| 0 <= p < q < rest.len() implies rest[p] != rest[q] by {
            assert(rest[p] == addrs[p + 1]);
            assert(rest[q] == addrs[q + 1]);
        }
        lemma_unsubscribe_batch(s1, rest);
        assert(spec_remove_all(s, addrs) == spec_remove_all(s1, rest));
        // Every address keeps its characterization.
        assert forall|k: Seq<char>|
            #[trigger] spec_lookup(spec_remove_all(s, addrs), k) == (if addrs.contains(k) {
                Option::<NotificationSubscription>::None
            } else {
                spec_lookup(s, k)
            }) by {
            if k == a0 {
                assert(addrs.contains(k));
                assert(!rest.contains(k)) by {
                    if rest.contains(k) {
                        let j = choose|j: int| 0 <= j < rest.len() && rest[j] == k;
                        assert(rest[j] == addrs[j + 1]);
                    }
                }
                assert(spec_lookup(spec_remove_all(s1, rest), k) == spec_lookup(s1, k));
            } else {
                lemma_remove_other(s, a0, k);
                assert(addrs.contains(k) == rest.contains(k)) by {
                    if addrs.contains(k) {
                        let j = choose|j: int| 0 <= j < addrs.len() && addrs[j] == k;
                        assert(rest[j - 1] == addrs[j]);
                        assert(rest.contains(k));
                    }
                    if rest.contains(k) {
                        let j = choose|j: int| 0 <= j < rest.len() && rest[j] == k;
                        assert(addrs[j + 1] == rest[j]);
                        assert(addrs.contains(k));
                    }
                }
            }
        }
        // Each call still finds its address when its turn comes.
        assert forall|j: int| 0 <= j < addrs.len() implies spec_lookup(
            spec_remove_all(s, addrs.take(j)),
            #[trigger] addrs[j],
        ) is Some by {
            if j == 0 {
                assert(addrs.take(0).len() == 0);
                assert(spec_remove_all(s, addrs.take(0)) == s);
            } else {
                assert(addrs.take(j)[0] == a0);
                assert(addrs.take(j).drop_first() =~= rest.take(j - 1));
                assert(spec_remove_all(s, addrs.take(j)) == spec_remove_all(s1, rest.take(j - 1)));
                assert(rest[j - 1] == addrs[j]);
            }
        }
    }
}

/// Lock predicate of the notification-subscriber registry: its invariant
/// holds.
pub struct SubscribersPred;

impl RwLockPredicate<Subscribers> for SubscribersPred {
    open spec fn inv(self, v: Subscribers) -> bool {
        v.wf()
    }
}

/// Shared handle to the notification-subscriber registry, handed to every
/// concurrently executing handler invocation.
pub struct SharedSubscribers {
    pub(crate) registry: GuardedRegistry<Subscribers, SubscribersPred>,
}

impl SharedSubscribers {
    #[verifier::type_invariant]
    pub(crate) open spec fn handle_wf(&self) -> bool {
        forall|v: Subscribers| self.registry.inv(v) == v.wf()
    }

    /// Share an initial registry.
    pub fn new(initial: Subscribers) -> (s: Self)
        requires
            initial.wf(),
    {
        SharedSubscribers { registry: GuardedRegistry::new(initial, Ghost(SubscribersPred)) }
    }
}

} // verus!
