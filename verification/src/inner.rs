use vstd::prelude::*;

verus! {

/// One published payload: the stored value together with the number of
/// shares (borrows) currently held on it. `data` is never mutated in
/// place; `None` marks a payload whose value has been destroyed.
pub(crate) struct RcuInner<T> {
    pub(crate) refs: usize,
    pub(crate) data: Option<T>,
}

impl<T> RcuInner<T> {
    /// Whether the payload still holds its value.
    pub(crate) open spec fn live(self) -> bool {
        self.data is Some
    }

    /// A fresh payload carries one share: the share of whoever is about
    /// to make it reachable.
    pub(crate) fn new(data: T) -> (inner: Self)
        ensures
            inner.refs == 1,
            inner.data == Some(data),
    {
        RcuInner { refs: 1, data: Some(data) }
    }

    /// Takes one more share on an already reachable payload.
    pub(crate) fn add_ref(&mut self)
        requires
            old(self).refs < usize::MAX,
        ensures
            final(self).refs == old(self).refs + 1,
            final(self).data == old(self).data,
    {
        self.refs = self.refs + 1;
    }

    /// Gives one share back and reports how many remain. The caller that
    /// sees zero remaining is the one that must destroy the payload.
    pub(crate) fn release(&mut self) -> (remaining: usize)
        requires
            old(self).refs >= 1,
        ensures
            final(self).refs == old(self).refs - 1,
            remaining == final(self).refs,
            final(self).data == old(self).data,
    {
        self.refs = self.refs - 1;
        self.refs
    }
}

} // verus!
