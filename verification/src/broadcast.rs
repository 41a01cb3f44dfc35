//! A multicast registry: payloads are registered, visited most recent first,
//! and unregistered, each registration and removal in constant time.
//!
//! The registry is an arena of slots with stable indices. The occupied slots
//! form a doubly linked list threaded through the arena by index; the vacant
//! ones are kept on a stack and reused.

use vstd::prelude::*;

verus! {

/// The handle of one registration on a [`Broadcaster`].
///
/// A handle names a slot of the arena together with the serial number that
/// the registration was given, so that a handle which outlived its
/// registration never matches a later occupant of the same slot.
pub struct Listener {
    slot: usize,
    serial: u64,
}

impl Listener {
    /// The serial number of the registration: how many registrations its
    /// registry had accepted before this one. No two registrations of one
    /// registry share it.
    pub closed spec fn serial(&self) -> nat {
        self.serial as nat
    }
}

struct Node<P> {
    payload: Option<P>,
    serial: u64,
    previous: Option<usize>,
    next: Option<usize>,
}

/// A set of registered payloads with constant-time registration and removal.
pub struct Broadcaster<P> {
    nodes: Vec<Node<P>>,
    head: Option<usize>,
    vacant: Vec<usize>,
    issued: u64,
    order: Ghost<Seq<usize>>,
}

impl<P> Broadcaster<P> {
    spec fn linked_at(&self, i: int) -> bool {
        let s = self.order@[i];
        &&& s < self.nodes@.len()
        &&& self.nodes@[s as int].payload is Some
        &&& self.nodes@[s as int].serial < self.issued
        &&& self.nodes@[s as int].previous == (if i > 0 {
            Some(self.order@[i - 1])
        } else {
            None
        })
        &&& self.nodes@[s as int].next == (if i + 1 < self.order@.len() {
            Some(self.order@[i + 1])
        } else {
            None
        })
    }

    /// The registry's structural invariant: the occupied slots are exactly
    /// the ones on the linked list, each once, and the links agree with the
    /// list's order in both directions.
    pub closed spec fn wf(&self) -> bool {
        &&& self.order@.no_duplicates()
        &&& self.vacant@.no_duplicates()
        &&& forall|i: int| 0 <= i < self.order@.len() ==> #[trigger] self.linked_at(i)
        &&& forall|i: int|
            0 <= i < self.vacant@.len() ==> (#[trigger] self.vacant@[i]) < self.nodes@.len()
                && self.nodes@[self.vacant@[i] as int].payload is None
        &&& forall|s: int|
            0 <= s < self.nodes@.len() && (#[trigger] self.nodes@[s]).payload is Some
                ==> self.order@.contains(s as usize)
        &&& self.head == (if self.order@.len() > 0 {
            Some(self.order@[0])
        } else {
            None
        })
    }

    /// The handles of the live registrations, most recently registered first.
    pub closed spec fn listeners(&self) -> Seq<Listener> {
        Seq::new(
            self.order@.len(),
            |i: int|
                Listener {
                    slot: self.order@[i],
                    serial: self.nodes@[self.order@[i] as int].serial,
                },
        )
    }

    /// The payloads of the live registrations, in the order of [`Self::listeners`].
    pub closed spec fn payloads(&self) -> Seq<P> {
        Seq::new(self.order@.len(), |i: int| self.nodes@[self.order@[i] as int].payload->0)
    }

    /// How many registrations this registry has ever accepted.
    pub closed spec fn issued(&self) -> nat {
        self.issued as nat
    }

    /// Whether another registration can be given a serial number.
    pub open spec fn has_room(&self) -> bool {
        self.issued() < u64::MAX
    }

    /// No handle is registered twice, there is one payload per handle, and
    /// every registered handle has a serial number that was given out.
    pub proof fn lemma_listeners_distinct(&self)
        requires
            self.wf(),
        ensures
            self.listeners().no_duplicates(),
            self.listeners().len() == self.payloads().len(),
            forall|i: int|
                0 <= i < self.listeners().len() ==> (#[trigger] self.listeners()[i]).serial()
                    < self.issued(),
    {
        assert forall|i: int, j: int|
            0 <= i < self.listeners().len() && 0 <= j < self.listeners().len() && i
                != j implies self.listeners()[i] != self.listeners()[j] by {
            assert(self.order@[i] != self.order@[j]);
        }
        assert forall|i: int| 0 <= i < self.listeners().len() implies (
        #[trigger] self.listeners()[i]).serial() < self.issued() by {
            assert(self.linked_at(i));
        }
    }

    /// A handle stays fresh: one that was given out earlier and is not
    /// registered is not registered after a later registration either, so a
    /// removal stays done whatever is registered afterwards.
    pub proof fn lemma_registration_spares_absent(
        &self,
        after: &Self,
        added: Listener,
        stale: Listener,
    )
        requires
            after.listeners() == self.listeners().insert(0, added),
            added.serial() == self.issued(),
            stale.serial() < self.issued(),
            !self.listeners().contains(stale),
        ensures
            !after.listeners().contains(stale),
    {
        if after.listeners().contains(stale) {
            let i = choose|i: int|
                0 <= i < after.listeners().len() && after.listeners()[i] == stale;
            if i > 0 {
                assert(self.listeners()[i - 1] == stale);
            }
        }
    }

    /// Fan-out completeness, under removal: when the registration `gone`
    /// leaves the registry, every other registration stays, with its
    /// payload, so the next broadcast still reaches it.
    pub proof fn lemma_removal_spares_others(&self, after: &Self, gone: Listener, other: Listener)
        requires
            self.wf(),
            self.listeners().contains(gone),
            self.listeners().contains(other),
            other != gone,
            after.listeners() == self.listeners().remove(self.listeners().index_of(gone)),
            after.payloads() == self.payloads().remove(self.listeners().index_of(gone)),
        ensures
            after.listeners().contains(other),
            after.payloads()[after.listeners().index_of(other)]
                == self.payloads()[self.listeners().index_of(other)],
    {
        self.lemma_listeners_distinct();
        let g = self.listeners().index_of(gone);
        let o = self.listeners().index_of(other);
        let o1 = if o < g {
            o
        } else {
            o - 1
        };
        assert(after.listeners()[o1] == other);
        let found = after.listeners().index_of(other);
        assert(after.listeners()[found] == other);
        let found0 = if found < g {
            found
        } else {
            found + 1
        };
        assert(self.listeners()[found0] == other);
        assert(found0 == o);
    }

    /// An empty registry.
    pub fn new() -> (b: Self)
        ensures
            b.wf(),
            b.listeners() == Seq::<Listener>::empty(),
            b.payloads() == Seq::<P>::empty(),
            b.issued() == 0,
    {
        let b = Broadcaster {
            nodes: Vec::new(),
            head: None,
            vacant: Vec::new(),
            issued: 0,
            order: Ghost(Seq::empty()),
        };
        assert(b.listeners() =~= Seq::<Listener>::empty());
        assert(b.payloads() =~= Seq::<P>::empty());
        b
    }

    /// Reports whether another registration can be accepted.
    pub fn can_register(&self) -> (b: bool)
        ensures
            b == self.has_room(),
    {
        self.issued < u64::MAX
    }

    /// Registers `payload` in front of all earlier registrations and returns
    /// its handle.
    pub fn listener(&mut self, payload: P) -> (listener: Listener)
        requires
            old(self).wf(),
            old(self).has_room(),
        ensures
            final(self).wf(),
            final(self).listeners() == old(self).listeners().insert(0, listener),
            final(self).payloads() == old(self).payloads().insert(0, payload),
            !old(self).listeners().contains(listener),
            listener.serial() == old(self).issued(),
            final(self).issued() == old(self).issued() + 1,
    {
        let serial = self.issued;
        let old_head = self.head;
        let node = Node { payload: Some(payload), serial, previous: None, next: old_head };
        let slot: usize;
        match self.vacant.pop() {
            Some(v) => {
                assert(old(self).vacant@[old(self).vacant@.len() - 1] == v);
                self.nodes.set(v, node);
                slot = v;
            },
            None => {
                slot = self.nodes.len();
                self.nodes.push(node);
            },
        }
        assert(!old(self).order@.contains(slot)) by {
            if old(self).order@.contains(slot) {
                let i = choose|i: int|
                    0 <= i < old(self).order@.len() && old(self).order@[i] == slot;
                assert(old(self).linked_at(i));
            }
        }
        match old_head {
            Some(h) => {
                assert(old(self).linked_at(0));
                self.nodes[h].previous = Some(slot);
            },
            None => {},
        }
        self.head = Some(slot);
        self.issued = serial + 1;
        self.order = Ghost(old(self).order@.insert(0, slot));
        let listener = Listener { slot, serial };
        proof {
            assert forall|i: int| 0 <= i < self.order@.len() implies #[trigger] self.linked_at(
                i,
            ) by {
                if i > 0 {
                    assert(old(self).linked_at(i - 1));
                    assert(self.order@[i] == old(self).order@[i - 1]);
                }
            }
            assert forall|i: int| 0 <= i < self.vacant@.len() implies (#[trigger] self.vacant@[i])
                < self.nodes@.len() && self.nodes@[self.vacant@[i] as int].payload is None by {
                assert(self.vacant@[i] == old(self).vacant@[i]);
                assert(old(self).vacant@[i] != slot);
            }
            assert forall|s: int|
                0 <= s < self.nodes@.len() && (#[trigger] self.nodes@[s]).payload
                    is Some implies self.order@.contains(s as usize) by {
                if s == slot {
                    assert(self.order@[0] == slot);
                } else {
                    assert(old(self).nodes@[s].payload is Some);
                    let i = choose|i: int|
                        0 <= i < old(self).order@.len() && old(self).order@[i] == s as usize;
                    assert(self.order@[i + 1] == s as usize);
                }
            }
            assert(self.listeners() =~= old(self).listeners().insert(0, listener)) by {
                assert forall|i: int| 0 <= i < self.listeners().len() implies self.listeners()[i]
                    == old(self).listeners().insert(0, listener)[i] by {
                    if i > 0 {
                        assert(old(self).linked_at(i - 1));
                    }
                }
            }
            assert(self.payloads() =~= old(self).payloads().insert(0, payload)) by {
                assert forall|i: int| 0 <= i < self.payloads().len() implies self.payloads()[i]
                    == old(self).payloads().insert(0, payload)[i] by {
                    if i > 0 {
                        assert(old(self).linked_at(i - 1));
                    }
                }
            }
            if old(self).listeners().contains(listener) {
                let i = choose|i: int|
                    0 <= i < old(self).listeners().len() && old(self).listeners()[i] == listener;
                assert(old(self).linked_at(i));
            }
        }
        listener
    }

    /// The payload registered under `listener`, if it is still registered.
    pub fn get(&self, listener: &Listener) -> (payload: Option<&P>)
        requires
            self.wf(),
        ensures
            self.listeners().contains(*listener) ==> payload == Some(
                &self.payloads()[self.listeners().index_of(*listener)],
            ),
            !self.listeners().contains(*listener) ==> payload is None,
    {
        if listener.slot < self.nodes.len() && self.nodes[listener.slot].serial == listener.serial
            && self.nodes[listener.slot].payload.is_some() {
            proof {
                self.lemma_position(*listener);
            }
            self.nodes[listener.slot].payload.as_ref()
        } else {
            proof {
                self.lemma_absent(*listener);
            }
            None
        }
    }

    /// A handle whose slot is occupied under the handle's serial number is
    /// registered, at the position of its slot in the list.
    proof fn lemma_position(&self, listener: Listener) -> (i: int)
        requires
            self.wf(),
            listener.slot < self.nodes@.len(),
            self.nodes@[listener.slot as int].payload is Some,
            self.nodes@[listener.slot as int].serial == listener.serial,
        ensures
            0 <= i < self.order@.len(),
            self.order@[i] == listener.slot,
            self.listeners().contains(listener),
            self.listeners().index_of(listener) == i,
    {
        assert(self.order@.contains(listener.slot));
        let i = choose|i: int| 0 <= i < self.order@.len() && self.order@[i] == listener.slot;
        assert(self.listeners()[i] == listener);
        self.lemma_listeners_distinct();
        let j = self.listeners().index_of(listener);
        assert(self.listeners()[j] == listener);
        i
    }

    /// A handle whose slot is missing, vacant or held under another serial
    /// number is not registered.
    proof fn lemma_absent(&self, listener: Listener)
        requires
            self.wf(),
            !(listener.slot < self.nodes@.len() && self.nodes@[listener.slot as int].payload
                is Some && self.nodes@[listener.slot as int].serial == listener.serial),
        ensures
            !self.listeners().contains(listener),
    {
        if self.listeners().contains(listener) {
            let i = choose|i: int|
                0 <= i < self.listeners().len() && self.listeners()[i] == listener;
            assert(self.linked_at(i));
        }
    }

    /// Stores `payload` under `listener` and hands the payload it replaces
    /// back. A handle that is not registered here gets its payload back and
    /// leaves the registry as it is.
    pub fn replace(&mut self, listener: &Listener, payload: P) -> (previous: Result<P, P>)
        requires
            old(self).wf(),
        ensures
            final(self).wf(),
            final(self).listeners() == old(self).listeners(),
            final(self).issued() == old(self).issued(),
            old(self).listeners().contains(*listener) ==> {
                let i = old(self).listeners().index_of(*listener);
                &&& previous == Ok::<P, P>(old(self).payloads()[i])
                &&& final(self).payloads() == old(self).payloads().update(i, payload)
            },
            !old(self).listeners().contains(*listener) ==> {
                &&& previous == Err::<P, P>(payload)
                &&& final(self).payloads() == old(self).payloads()
            },
    {
        let slot = listener.slot;
        if !(slot < self.nodes.len() && self.nodes[slot].serial == listener.serial
            && self.nodes[slot].payload.is_some()) {
            proof {
                self.lemma_absent(*listener);
            }
            return Err(payload);
        }
        let ghost i = self.lemma_position(*listener);
        let previous = self.nodes[slot].payload.take();
        self.nodes[slot].payload = Some(payload);
        proof {
            assert(old(self).linked_at(i));
            assert forall|a: int| 0 <= a < self.order@.len() implies #[trigger] self.linked_at(
                a,
            ) by {
                assert(old(self).linked_at(a));
            }
            assert forall|a: int| 0 <= a < self.vacant@.len() implies (#[trigger] self.vacant@[a])
                < self.nodes@.len() && self.nodes@[self.vacant@[a] as int].payload is None by {
                assert(old(self).nodes@[old(self).vacant@[a] as int].payload is None);
            }
            assert(self.listeners() =~= old(self).listeners()) by {
                assert forall|a: int| 0 <= a < self.listeners().len() implies self.listeners()[a]
                    == old(self).listeners()[a] by {
                    assert(old(self).linked_at(a));
                }
            }
            assert(self.payloads() =~= old(self).payloads().update(i, payload)) by {
                assert forall|a: int| 0 <= a < self.payloads().len() implies self.payloads()[a]
                    == old(self).payloads().update(i, payload)[a] by {
                    assert(old(self).linked_at(a));
                    if a != i {
                        assert(self.order@[a] != self.order@[i]);
                    }
                }
            }
        }
        Ok(previous.unwrap())
    }

    /// Applies `f` once to the payload of every live registration, most
    /// recently registered first, and gathers what `f` hands out beside the
    /// new payload, one output for each registration and in their order.
    /// The set of registrations is unchanged.
    pub fn visit<O, F: Fn(P) -> (P, O)>(&mut self, f: &F) -> (outputs: Vec<O>)
        requires
            old(self).wf(),
            forall|i: int|
                0 <= i < old(self).payloads().len() ==> call_requires(
                    f,
                    (#[trigger] old(self).payloads()[i],),
                ),
        ensures
            final(self).wf(),
            final(self).listeners() == old(self).listeners(),
            final(self).issued() == old(self).issued(),
            final(self).payloads().len() == old(self).payloads().len(),
            outputs@.len() == old(self).payloads().len(),
            forall|i: int|
                0 <= i < old(self).payloads().len() ==> call_ensures(
                    f,
                    (old(self).payloads()[i],),
                    (#[trigger] final(self).payloads()[i], outputs@[i]),
                ),
    {
        let mut outputs: Vec<O> = Vec::new();
        let mut cursor = self.head;
        let ghost mut k: int = 0;
        while cursor.is_some()
            invariant
                old(self).wf(),
                forall|i: int|
                    0 <= i < old(self).payloads().len() ==> call_requires(
                        f,
                        (#[trigger] old(self).payloads()[i],),
                    ),
                0 <= k <= self.order@.len(),
                outputs@.len() == k,
                self.order@ == old(self).order@,
                self.vacant@ == old(self).vacant@,
                self.head == old(self).head,
                self.issued == old(self).issued,
                self.nodes@.len() == old(self).nodes@.len(),
                cursor == (if k < self.order@.len() {
                    Some(self.order@[k])
                } else {
                    None
                }),
                forall|s: int|
                    0 <= s < self.nodes@.len() ==> {
                        &&& (#[trigger] self.nodes@[s]).serial == old(self).nodes@[s].serial
                        &&& self.nodes@[s].previous == old(self).nodes@[s].previous
                        &&& self.nodes@[s].next == old(self).nodes@[s].next
                        &&& (self.nodes@[s].payload is Some) == (old(self).nodes@[s].payload
                            is Some)
                    },
                forall|i: int|
                    0 <= i < k ==> call_ensures(
                        f,
                        (old(self).nodes@[old(self).order@[i] as int].payload->0,),
                        ((#[trigger] self.nodes@[self.order@[i] as int]).payload->0, outputs@[i]),
                    ),
                forall|i: int|
                    k <= i < self.order@.len() ==> (#[trigger] self.nodes@[self.order@[i] as int])
                        == old(self).nodes@[self.order@[i] as int],
            decreases self.order@.len() - k,
        {
            let s = cursor.unwrap();
            assert(old(self).linked_at(k));
            assert(self.nodes@[s as int].payload->0 == old(self).payloads()[k]);
            let before = self.nodes[s].payload.take().unwrap();
            let (after, output) = f(before);
            self.nodes[s].payload = Some(after);
            outputs.push(output);
            cursor = self.nodes[s].next;
            proof {
                assert forall|i: int| 0 <= i < k + 1 implies call_ensures(
                    f,
                    (old(self).nodes@[old(self).order@[i] as int].payload->0,),
                    ((#[trigger] self.nodes@[self.order@[i] as int]).payload->0, outputs@[i]),
                ) by {
                    assert(old(self).linked_at(i));
                    if i < k {
                        assert(self.order@[i] != self.order@[k]);
                    }
                }
                assert forall|i: int| k + 1 <= i < self.order@.len() implies (
                #[trigger] self.nodes@[self.order@[i] as int]) == old(
                    self,
                ).nodes@[self.order@[i] as int] by {
                    assert(old(self).linked_at(i));
                    assert(self.order@[i] != self.order@[k]);
                }
                k = k + 1;
            }
        }
        proof {
            assert forall|i: int| 0 <= i < self.order@.len() implies #[trigger] self.linked_at(
                i,
            ) by {
                assert(old(self).linked_at(i));
            }
            assert(self.listeners() =~= old(self).listeners()) by {
                assert forall|i: int| 0 <= i < self.listeners().len() implies self.listeners()[i]
                    == old(self).listeners()[i] by {
                    assert(old(self).linked_at(i));
                }
            }
            assert forall|i: int| 0 <= i < old(self).payloads().len() implies call_ensures(
                f,
                (old(self).payloads()[i],),
                (#[trigger] self.payloads()[i], outputs@[i]),
            ) by {
                assert(old(self).linked_at(i));
                assert(call_ensures(
                    f,
                    (old(self).nodes@[old(self).order@[i] as int].payload->0,),
                    (self.nodes@[self.order@[i] as int].payload->0, outputs@[i]),
                ));
            }
        }
        outputs
    }

    /// Applies `f` once to the payload of every live registration, most
    /// recently registered first. The set of registrations is unchanged.
    pub fn broadcast<F: Fn(P) -> P>(&mut self, f: &F)
        requires
            old(self).wf(),
            forall|i: int|
                0 <= i < old(self).payloads().len() ==> call_requires(
                    f,
                    (#[trigger] old(self).payloads()[i],),
                ),
        ensures
            final(self).wf(),
            final(self).listeners() == old(self).listeners(),
            final(self).issued() == old(self).issued(),
            final(self).payloads().len() == old(self).payloads().len(),
            forall|i: int|
                0 <= i < old(self).payloads().len() ==> call_ensures(
                    f,
                    (old(self).payloads()[i],),
                    #[trigger] final(self).payloads()[i],
                ),
    {
        let each = |p: P| -> (r: (P, ()))
            requires
                call_requires(f, (p,)),
            ensures
                call_ensures(f, (p,), r.0),
            { (f(p), ()) };
        let outputs = self.visit(&each);
        proof {
            assert forall|i: int| 0 <= i < old(self).payloads().len() implies call_ensures(
                f,
                (old(self).payloads()[i],),
                #[trigger] self.payloads()[i],
            ) by {
                assert(call_ensures(
                    each,
                    (old(self).payloads()[i],),
                    (self.payloads()[i], outputs@[i]),
                ));
            }
        }
    }


    /// Removes the registration that `listener` names and hands its payload
    /// back. A handle that is not registered here leaves the registry as it
    /// is, so removing twice is the same as removing once.
    pub fn unlink(&mut self, listener: &Listener) -> (payload: Option<P>)
        requires
            old(self).wf(),
        ensures
            final(self).wf(),
            final(self).issued() == old(self).issued(),
            !final(self).listeners().contains(*listener),
            old(self).listeners().contains(*listener) ==> {
                let i = old(self).listeners().index_of(*listener);
                &&& payload == Some(old(self).payloads()[i])
                &&& final(self).listeners() == old(self).listeners().remove(i)
                &&& final(self).payloads() == old(self).payloads().remove(i)
            },
            !old(self).listeners().contains(*listener) ==> {
                &&& payload is None
                &&& final(self).listeners() == old(self).listeners()
                &&& final(self).payloads() == old(self).payloads()
            },
    {
        let slot = listener.slot;
        if !(slot < self.nodes.len() && self.nodes[slot].serial == listener.serial
            && self.nodes[slot].payload.is_some()) {
            proof {
                self.lemma_absent(*listener);
            }
            return None;
        }
        let ghost i = self.lemma_position(*listener);
        assert(self.linked_at(i));
        let previous = self.nodes[slot].previous;
        let next = self.nodes[slot].next;
        match next {
            Some(n) => {
                assert(self.linked_at(i + 1));
                self.nodes[n].previous = previous;
            },
            None => {},
        }
        match previous {
            Some(p) => {
                assert(old(self).linked_at(i - 1));
                self.nodes[p].next = next;
            },
            None => {
                self.head = next;
            },
        }
        let payload = self.nodes[slot].payload.take();
        self.nodes[slot].previous = None;
        self.nodes[slot].next = None;
        self.vacant.push(slot);
        self.order = Ghost(old(self).order@.remove(i));
        proof {
            let before = old(self).order@;
            assert(payload == Some(old(self).payloads()[i]));
            before.remove_ensures(i);
            assert(self.order@.no_duplicates()) by {
                assert forall|a: int, b: int|
                    0 <= a < self.order@.len() && 0 <= b < self.order@.len() && a
                        != b implies self.order@[a] != self.order@[b] by {
                    let a0 = if a < i { a } else { a + 1 };
                    let b0 = if b < i { b } else { b + 1 };
                    assert(before[a0] != before[b0]);
                }
            }
            assert forall|a: int| 0 <= a < self.order@.len() implies self.order@[a] != slot by {
                let a0 = if a < i { a } else { a + 1 };
                assert(before[a0] != before[i]);
            }
            assert forall|a: int| 0 <= a < self.order@.len() implies #[trigger] self.linked_at(
                a,
            ) by {
                let a0 = if a < i { a } else { a + 1 };
                assert(old(self).linked_at(a0));
                assert(before[a0] != before[i]);
                if a0 > 0 {
                    assert(old(self).linked_at(a0 - 1));
                }
                if a0 + 1 < before.len() {
                    assert(old(self).linked_at(a0 + 1));
                }
            }
            assert(self.vacant@.no_duplicates()) by {
                assert forall|a: int, b: int|
                    0 <= a < self.vacant@.len() && 0 <= b < self.vacant@.len() && a
                        != b implies self.vacant@[a] != self.vacant@[b] by {
                    if a < old(self).vacant@.len() {
                        assert(old(self).nodes@[old(self).vacant@[a] as int].payload is None);
                    }
                    if b < old(self).vacant@.len() {
                        assert(old(self).nodes@[old(self).vacant@[b] as int].payload is None);
                    }
                }
            }
            assert forall|a: int| 0 <= a < self.vacant@.len() implies (#[trigger] self.vacant@[a])
                < self.nodes@.len() && self.nodes@[self.vacant@[a] as int].payload is None by {
                if a < old(self).vacant@.len() {
                    let v = old(self).vacant@[a];
                    assert(old(self).nodes@[v as int].payload is None);
                    if old(self).order@.contains(v) {
                        let b = choose|b: int| 0 <= b < before.len() && before[b] == v;
                        assert(old(self).linked_at(b));
                    }
                }
            }
            assert forall|s: int|
                0 <= s < self.nodes@.len() && (#[trigger] self.nodes@[s]).payload
                    is Some implies self.order@.contains(s as usize) by {
                assert(s != slot);
                assert(old(self).nodes@[s].payload is Some);
                let b = choose|b: int| 0 <= b < before.len() && before[b] == s as usize;
                let b1 = if b < i { b } else { b - 1 };
                assert(self.order@[b1] == s as usize);
            }
            if self.order@.len() > 0 {
                if i == 0 {
                    assert(self.order@[0] == before[1]);
                } else {
                    assert(self.order@[0] == before[0]);
                    assert(old(self).linked_at(0));
                }
            }
            assert(self.listeners() =~= old(self).listeners().remove(i)) by {
                assert forall|a: int| 0 <= a < self.listeners().len() implies self.listeners()[a]
                    == old(self).listeners().remove(i)[a] by {
                    let a0 = if a < i { a } else { a + 1 };
                    assert(before[a0] != before[i]);
                    assert(old(self).linked_at(a0));
                }
            }
            assert(self.payloads() =~= old(self).payloads().remove(i)) by {
                assert forall|a: int| 0 <= a < self.payloads().len() implies self.payloads()[a]
                    == old(self).payloads().remove(i)[a] by {
                    let a0 = if a < i { a } else { a + 1 };
                    assert(before[a0] != before[i]);
                    assert(old(self).linked_at(a0));
                }
            }
        }
        payload
    }
}

} // verus!
