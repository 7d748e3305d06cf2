use vstd::prelude::*;

verus! {

/// An asynchronous operation that can tell, without suspending, whether its
/// result is already available from cache, and hand that result out.
pub trait GdcfFuture: Sized {
    type Item;
    type Extension;

    /// The result the operation can produce at once, if any.
    spec fn cached(&self) -> Option<Self::Item>;

    /// Auxiliary cached data, independent of whether the result is cached.
    spec fn extension(&self) -> Option<Self::Extension>;

    fn cached_extension(&self) -> (r: Option<&Self::Extension>)
        ensures
            r matches Some(x) ==> self.extension() == Some(*x),
            r is None ==> self.extension() is None,
    ;

    /// Pure probe: true exactly when a result is available immediately.
    fn has_result_cached(&self) -> (r: bool)
        ensures
            r == self.cached() is Some,
    ;

    /// Consumes the operation, yielding the cached result if there is one.
    fn into_cached(self) -> (r: Option<Self::Item>)
        ensures
            r == self.cached(),
    ;
}

/// Where a single operation stands.
pub enum OpState<T> {
    /// No result yet.
    Pending,
    /// A result is available without doing the operation's work.
    CacheSatisfied(T),
    /// The work completed and produced a result.
    Resolved(T),
}

/// A single fetch operation with an optional cached extension.
pub struct Operation<T, X> {
    pub state: OpState<T>,
    pub ext: Option<X>,
}

/// Re-runs an operation and replaces its result; cache-satisfied when the inner one is.
pub struct Refresh<F> {
    pub inner: F,
}

/// Produces values over time from an inner operation; the current value is the inner one's.
pub struct Repeat<F> {
    pub inner: F,
}

/// A base operation with a dependent secondary one: satisfied only when both are.
pub struct Augment<A, B> {
    pub base: A,
    pub extra: B,
}

impl<T, X> Operation<T, X> {
    pub fn pending(ext: Option<X>) -> (r: Self)
        ensures
            r.state is Pending,
            r.ext == ext,
    {
        Operation { state: OpState::Pending, ext }
    }

    pub fn from_cache(value: T, ext: Option<X>) -> (r: Self)
        ensures
            r.state == OpState::CacheSatisfied(value),
            r.ext == ext,
    {
        Operation { state: OpState::CacheSatisfied(value), ext }
    }

    /// Records the completion of the operation's work with `value`.
    pub fn resolve(&mut self, value: T)
        ensures
            final(self).state == OpState::Resolved(value),
            final(self).ext == old(self).ext,
    {
        self.state = OpState::Resolved(value);
    }
}

impl<T, X> GdcfFuture for Operation<T, X> {
    type Item = T;
    type Extension = X;

    open spec fn cached(&self) -> Option<T> {
        match self.state {
            OpState::Pending => None,
            OpState::CacheSatisfied(v) => Some(v),
            OpState::Resolved(v) => Some(v),
        }
    }

    open spec fn extension(&self) -> Option<X> {
        self.ext
    }

    fn cached_extension(&self) -> (r: Option<&X>) {
        match &self.ext {
            Some(x) => Some(x),
            None => None,
        }
    }

    fn has_result_cached(&self) -> (r: bool) {
        match &self.state {
            OpState::Pending => false,
            _ => true,
        }
    }

    fn into_cached(self) -> (r: Option<T>) {
        match self.state {
            OpState::Pending => None,
            OpState::CacheSatisfied(v) => Some(v),
            OpState::Resolved(v) => Some(v),
        }
    }
}

impl<F: GdcfFuture> GdcfFuture for Refresh<F> {
    type Item = F::Item;
    type Extension = F::Extension;

    open spec fn cached(&self) -> Option<F::Item> {
        self.inner.cached()
    }

    open spec fn extension(&self) -> Option<F::Extension> {
        self.inner.extension()
    }

    fn cached_extension(&self) -> (r: Option<&F::Extension>) {
        self.inner.cached_extension()
    }

    fn has_result_cached(&self) -> (r: bool) {
        self.inner.has_result_cached()
    }

    fn into_cached(self) -> (r: Option<F::Item>) {
        self.inner.into_cached()
    }
}

impl<F: GdcfFuture> GdcfFuture for Repeat<F> {
    type Item = F::Item;
    type Extension = F::Extension;

    open spec fn cached(&self) -> Option<F::Item> {
        self.inner.cached()
    }

    open spec fn extension(&self) -> Option<F::Extension> {
        self.inner.extension()
    }

    fn cached_extension(&self) -> (r: Option<&F::Extension>) {
        self.inner.cached_extension()
    }

    fn has_result_cached(&self) -> (r: bool) {
        self.inner.has_result_cached()
    }

    fn into_cached(self) -> (r: Option<F::Item>) {
        self.inner.into_cached()
    }
}

impl<A: GdcfFuture, B: GdcfFuture> GdcfFuture for Augment<A, B> {
    type Item = (A::Item, B::Item);
    type Extension = A::Extension;

    open spec fn cached(&self) -> Option<(A::Item, B::Item)> {
        match (self.base.cached(), self.extra.cached()) {
            (Some(a), Some(b)) => Some((a, b)),
            _ => None,
        }
    }

    open spec fn extension(&self) -> Option<A::Extension> {
        self.base.extension()
    }

    fn cached_extension(&self) -> (r: Option<&A::Extension>) {
        self.base.cached_extension()
    }

    fn has_result_cached(&self) -> (r: bool) {
        if !self.base.has_result_cached() {
            false
        } else {
            self.extra.has_result_cached()
        }
    }

    fn into_cached(self) -> (r: Option<(A::Item, B::Item)>) {
        if !self.base.has_result_cached() || !self.extra.has_result_cached() {
            return None;
        }
        let a = self.base.into_cached();
        let b = self.extra.into_cached();
        match (a, b) {
            (Some(x), Some(y)) => Some((x, y)),
            _ => None,
        }
    }
}

/// A composite's probe is true exactly when both operations it depends on probe true.
pub proof fn lemma_augment_satisfied_iff_both<A: GdcfFuture, B: GdcfFuture>(op: &Augment<A, B>)
    ensures
        op.cached() is Some <==> (op.base.cached() is Some && op.extra.cached() is Some),
{
}

/// Through a chain of three operations, the outermost probe is true exactly when
/// every link probes true; an unsatisfied middle link makes it false.
pub proof fn lemma_chain_satisfied_iff_all<A: GdcfFuture, B: GdcfFuture, C: GdcfFuture>(
    op: &Augment<A, Augment<B, C>>,
)
    ensures
        op.cached() is Some <==> (op.base.cached() is Some && op.extra.base.cached() is Some
            && op.extra.extra.cached() is Some),
{
}

/// A refresh or a repeat is satisfied exactly when the operation it wraps is.
pub proof fn lemma_wrappers_delegate<F: GdcfFuture>(r: &Refresh<F>, p: &Repeat<F>)
    ensures
        r.cached() == r.inner.cached(),
        p.cached() == p.inner.cached(),
{
}

} // verus!
