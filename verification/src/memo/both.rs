//! Two memos as one, so that a watcher can hold memos of different kinds.

use crate::context::ReadContext;
use crate::memo::memo::Memo;
use crate::memo::memo::Refresh;
use vstd::prelude::*;

verus! {

/// Two memos of one store, refreshed together. The pair selects the pair of
/// what its memos select and reports a change when either of them does.
/// Pairs nest, for any number of memos of any kinds.
pub struct Both<A, B> {
    first: A,
    second: B,
}

impl<A, B> Both<A, B> {
    /// The first memo.
    pub closed spec fn first(&self) -> A {
        self.first
    }

    /// The second memo.
    pub closed spec fn second(&self) -> B {
        self.second
    }

    /// The pair of `first` and `second`, which have to be built against one
    /// store.
    pub fn new<'a, R>(first: A, second: B) -> (pair: Self) where A: Memo<'a, R>, B: Memo<'a, R>
        requires
            first.store() == second.store(),
        ensures
            pair.first() == first,
            pair.second() == second,
    {
        Both { first, second }
    }

    /// The two memos, taken apart again.
    pub fn into_parts(self) -> (parts: (A, B))
        ensures
            parts.0 == self.first(),
            parts.1 == self.second(),
    {
        (self.first, self.second)
    }

    /// What the pair's part in [`Memo`] says, in terms of its two memos.
    pub proof fn lemma_as_memo<'a, R>(
        self,
        earlier: Self,
        root: &'a R,
        cx: ReadContext,
        outcome: Refresh<(A::Value, B::Value)>,
    ) where A: Memo<'a, R>, B: Memo<'a, R>
        ensures
            self.store() == self.first().store(),
            self.ready(root, cx) == (self.first().ready(root, cx) && self.second().ready(
                root,
                cx,
            )),
            self.refreshed(&earlier, root, cx, outcome) == (exists|one: bool, other: bool|
                {
                    &&& #[trigger] self.first().refreshed(
                        &earlier.first(),
                        root,
                        cx,
                        Refresh { value: outcome.value.0, is_changed: one },
                    )
                    &&& #[trigger] self.second().refreshed(
                        &earlier.second(),
                        root,
                        cx,
                        Refresh { value: outcome.value.1, is_changed: other },
                    )
                    &&& outcome.is_changed == (one || other)
                    &&& self.first().store() == earlier.first().store()
                    &&& self.second().store() == earlier.second().store()
                }),
    {
    }
}

impl<'a, R, A: Memo<'a, R>, B: Memo<'a, R>> Memo<'a, R> for Both<A, B> {
    type Value = (A::Value, B::Value);

    open spec fn store(&self) -> usize {
        self.first().store()
    }

    open spec fn ready(&self, root: &R, cx: ReadContext) -> bool {
        self.first().ready(root, cx) && self.second().ready(root, cx)
    }

    open spec fn refreshed(
        &self,
        earlier: &Self,
        root: &R,
        cx: ReadContext,
        outcome: Refresh<(A::Value, B::Value)>,
    ) -> bool {
        exists|one: bool, other: bool|
            {
                &&& #[trigger] self.first().refreshed(
                    &earlier.first(),
                    root,
                    cx,
                    Refresh { value: outcome.value.0, is_changed: one },
                )
                &&& #[trigger] self.second().refreshed(
                    &earlier.second(),
                    root,
                    cx,
                    Refresh { value: outcome.value.1, is_changed: other },
                )
                &&& outcome.is_changed == (one || other)
                &&& self.first().store() == earlier.first().store()
                &&& self.second().store() == earlier.second().store()
            }
    }

    fn store_id(&self) -> (id: usize) {
        self.first.store_id()
    }

    fn refresh_unchecked(&mut self, root: &'a R, cx: ReadContext) -> (outcome: Refresh<
        (A::Value, B::Value),
    >) {
        let one = self.first.refresh_unchecked(root, cx);
        let other = self.second.refresh_unchecked(root, cx);
        let Refresh { value: left, is_changed: one_changed } = one;
        let Refresh { value: right, is_changed: other_changed } = other;
        let outcome = Refresh { value: (left, right), is_changed: one_changed || other_changed };
        proof {
            assert(self.first().refreshed(
                &old(self).first(),
                root,
                cx,
                Refresh { value: outcome.value.0, is_changed: one_changed },
            ));
            assert(self.second().refreshed(
                &old(self).second(),
                root,
                cx,
                Refresh { value: outcome.value.1, is_changed: other_changed },
            ));
        }
        outcome
    }
}

} // verus!
