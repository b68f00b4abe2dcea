use vstd::prelude::*;
use vstd::rwlock::{RwLock, RwLockPredicate};

verus! {

/// Generic mutual-exclusion container around a registry value.
///
/// The registry is shared between concurrently executing handler
/// invocations; all access goes through [`Self::with_exclusive`], which runs
/// a caller-supplied transformation with the lock held.  The lock guarantees
/// that no two transformations run concurrently on the same instance, that it
/// is released on every exit path, and that no partial mutation is ever
/// observable from outside a transformation.  A transformation must not
/// re-enter the same registry (it would deadlock) and must not block.
pub struct GuardedRegistry<V, Pred: RwLockPredicate<V>> {
    lock: RwLock<V, Pred>,
}

impl<V, Pred: RwLockPredicate<V>> GuardedRegistry<V, Pred> {
    /// Values the registry is allowed to hold.
    pub closed spec fn inv(&self, v: V) -> bool {
        self.lock.inv(v)
    }

    /// Wrap an initial value.
    pub fn new(val: V, Ghost(pred): Ghost<Pred>) -> (s: Self)
        requires
            pred.inv(val),
        ensures
            forall|v: V| s.inv(v) == pred.inv(v),
    {
        GuardedRegistry { lock: RwLock::new(val, Ghost(pred)) }
    }

    /// Scoped exclusive access: run the caller-supplied transformation on the
    /// current contents with the lock held, store the contents the
    /// transformation hands back, release the lock, and return the
    /// transformation's result or failure.  The contents seen by the
    /// transformation are a consistent snapshot satisfying the registry
    /// invariant.
    pub fn with_exclusive<R, F: FnOnce(V) -> (V, Result<R, String>)>(&self, f: F) -> (out: Result<
        R,
        String,
    >)
        requires
            forall|v: V| self.inv(v) ==> #[trigger] call_requires(f, (v,)),
            forall|v: V, o: (V, Result<R, String>)|
                self.inv(v) && #[trigger] call_ensures(f, (v,), o) ==> self.inv(o.0),
        ensures
            exists|v: V, o: (V, Result<R, String>)|
                self.inv(v) && #[trigger] call_ensures(f, (v,), o) && out == o.1,
    {
        let (v, handle) = self.lock.acquire_write();
        let (v2, r) = f(v);
        handle.release_write(v2);
        r
    }
}

} // verus!
