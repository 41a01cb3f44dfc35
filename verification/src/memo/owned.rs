//! The memo of a selector that derives a value from the data.

use crate::context::ReadContext;
use crate::memo::memo::Memo;
use crate::memo::memo::Refresh;
use crate::store::Store;
use vstd::prelude::*;
use vstd::std_specs::cmp::PartialEqSpec;

verus! {

/// Remembers the value that its selector derives; the value is its own
/// fingerprint, compared with `!=`.
///
/// The memo's own `refresh` takes any `T` with `==` and hands the value out
/// by reference. As a [`Memo`], for a watcher, it hands the value out by
/// copy, so `T` has to be `Copy` there.
pub struct OwnedMemo<S, T> {
    selector: S,
    store_id: usize,
    last_value: T,
}

impl<S, T: PartialEq> OwnedMemo<S, T> {
    /// The selector.
    pub closed spec fn selector(&self) -> S {
        self.selector
    }

    /// The identity of the store that the memo was built against.
    pub closed spec fn identity(&self) -> usize {
        self.store_id
    }

    /// The recorded value.
    pub closed spec fn last_value(&self) -> T {
        self.last_value
    }

    /// A memo of `selector` over `store`, which records the value that the
    /// selector derives now.
    pub fn new<R>(store: &Store<R>, selector: S) -> (memo: Self) where
        S: for <'a>Fn(&'a R, ReadContext) -> T,

        requires
            call_requires(selector, (&store.root(), store.read_context())),
        ensures
            memo.selector() == selector,
            memo.identity() == store.identity(),
            call_ensures(selector, (&store.root(), store.read_context()), memo.last_value()),
    {
        let (root, cx) = store.read_scope();
        let last_value = selector(root, cx);
        OwnedMemo { selector, store_id: store.id(), last_value }
    }

    /// The recorded value.
    pub fn value(&self) -> (value: &T)
        ensures
            *value == self.last_value(),
    {
        &self.last_value
    }

    /// Derives the value from `root`, records it and reports whether it
    /// differs from the one recorded before. The value is handed out by
    /// reference to the memo's record. The read scope is taken on trust to
    /// be one of the memo's store.
    pub fn refresh_unchecked<'a, R>(&'a mut self, root: &R, cx: ReadContext) -> (outcome: Refresh<
        &'a T,
    >) where S: for <'x>Fn(&'x R, ReadContext) -> T
        requires
            call_requires(old(self).selector(), (root, cx)),
        ensures
            call_ensures(old(self).selector(), (root, cx), *outcome.value),
            final(self).last_value() == *outcome.value,
            T::obeys_eq_spec() ==> outcome.is_changed == !outcome.value.eq_spec(
                &old(self).last_value(),
            ),
            final(self).selector() == old(self).selector(),
            final(self).identity() == old(self).identity(),
    {
        let value = (self.selector)(root, cx);
        let is_changed = value != self.last_value;
        self.last_value = value;
        Refresh { is_changed, value: &self.last_value }
    }

    /// Derives the value from `root`, records it and reports whether it
    /// differs from the one recorded before. The value is handed out by
    /// reference to the memo's record. The read scope has to be one of the
    /// store that the memo was built against.
    pub fn refresh<'a, R>(&'a mut self, root: &R, cx: ReadContext) -> (outcome: Refresh<
        &'a T,
    >) where S: for <'x>Fn(&'x R, ReadContext) -> T

        requires
            old(self).identity() == cx.id(),
            call_requires(old(self).selector(), (root, cx)),
        ensures
            call_ensures(old(self).selector(), (root, cx), *outcome.value),
            final(self).last_value() == *outcome.value,
            T::obeys_eq_spec() ==> outcome.is_changed == !outcome.value.eq_spec(
                &old(self).last_value(),
            ),
            final(self).selector() == old(self).selector(),
            final(self).identity() == old(self).identity(),
    {
        self.refresh_unchecked(root, cx)
    }
}

impl<S, T: PartialEq + Copy> OwnedMemo<S, T> {
    /// What the memo's part in [`Memo`] says, in the memo's own terms.
    pub proof fn lemma_as_memo<'a, R: 'a>(
        self,
        earlier: Self,
        root: &'a R,
        cx: ReadContext,
        outcome: Refresh<T>,
    ) where S: Fn(&'a R, ReadContext) -> T
        ensures
            self.store() == self.identity(),
            self.ready(root, cx) == call_requires(self.selector(), (root, cx)),
            self.refreshed(&earlier, root, cx, outcome) == ({
                &&& call_ensures(earlier.selector(), (root, cx), outcome.value)
                &&& self.last_value() == outcome.value
                &&& T::obeys_eq_spec() ==> outcome.is_changed == !outcome.value.eq_spec(
                    &earlier.last_value(),
                )
                &&& self.selector() == earlier.selector()
                &&& self.identity() == earlier.identity()
            }),
    {
    }

    /// Change-detection soundness: where `==` on `T` is what its
    /// specification says, a memo reports a change when the value derived is
    /// not equal to the one recorded.
    pub proof fn lemma_changed_is_reported<'a, R: 'a>(
        self,
        earlier: Self,
        root: &'a R,
        cx: ReadContext,
        outcome: Refresh<T>,
    ) where S: Fn(&'a R, ReadContext) -> T
        requires
            self.refreshed(&earlier, root, cx, outcome),
            T::obeys_eq_spec(),
            !outcome.value.eq_spec(&earlier.last_value()),
        ensures
            outcome.is_changed,
    {
    }

    /// Change-detection minimality: where `==` on `T` is what its
    /// specification says, a memo reports no change when the value derived
    /// is equal to the one recorded.
    pub proof fn lemma_unchanged_is_quiet<'a, R: 'a>(
        self,
        earlier: Self,
        root: &'a R,
        cx: ReadContext,
        outcome: Refresh<T>,
    ) where S: Fn(&'a R, ReadContext) -> T
        requires
            self.refreshed(&earlier, root, cx, outcome),
            T::obeys_eq_spec(),
            outcome.value.eq_spec(&earlier.last_value()),
        ensures
            !outcome.is_changed,
    {
    }
}

impl<'a, R: 'a, S, T: PartialEq + Copy> Memo<'a, R> for OwnedMemo<S, T> where
    S: Fn(&'a R, ReadContext) -> T,
 {
    type Value = T;

    open spec fn store(&self) -> usize {
        self.identity()
    }

    open spec fn ready(&self, root: &R, cx: ReadContext) -> bool {
        call_requires(self.selector(), (root, cx))
    }

    open spec fn refreshed(
        &self,
        earlier: &Self,
        root: &R,
        cx: ReadContext,
        outcome: Refresh<T>,
    ) -> bool {
        &&& call_ensures(earlier.selector(), (root, cx), outcome.value)
        &&& self.last_value() == outcome.value
        &&& T::obeys_eq_spec() ==> outcome.is_changed == !outcome.value.eq_spec(
            &earlier.last_value(),
        )
        &&& self.selector() == earlier.selector()
        &&& self.identity() == earlier.identity()
    }

    fn store_id(&self) -> (id: usize) {
        self.store_id
    }

    fn refresh_unchecked(&mut self, root: &'a R, cx: ReadContext) -> (outcome: Refresh<T>) {
        let value = (self.selector)(root, cx);
        let is_changed = value != self.last_value;
        self.last_value = value;
        Refresh { value, is_changed }
    }
}

} // verus!
