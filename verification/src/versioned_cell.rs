//! A mutable slot that carries a version stamp and tracks how it is borrowed.
//!
//! A cell belongs to the store in whose update scope it was made, and every
//! access that takes a scope's context has to take one of that store.
//! Inside a read scope a cell is read directly ([`VersionedCell::deref`]).
//! Inside an update scope it is borrowed, shared or exclusively, and the
//! cell's borrow flag counts the handles that are out: positive for that many
//! shared handles, negative for one exclusive handle, zero when free. A
//! handle names the cell it was taken from and is accepted by that cell
//! alone. An exclusive borrow stamps the cell with a fresh version at once.

use crate::context::ReadContext;
use crate::context::UpdateContext;
use vstd::prelude::*;

verus! {

/// A shared borrow was asked for while the cell was borrowed exclusively, or
/// while as many shared handles were out as the flag can count.
#[derive(Debug)]
pub struct BorrowError {}

impl BorrowError {
    /// The error's text.
    pub fn message(&self) -> (text: &'static str)
        ensures
            text@ == "already mutably borrowed"@,
    {
        "already mutably borrowed"
    }
}

/// An exclusive borrow was asked for while the cell was borrowed.
#[derive(Debug)]
pub struct BorrowMutError {}

impl BorrowMutError {
    /// The error's text.
    pub fn message(&self) -> (text: &'static str)
        ensures
            text@ == "already borrowed"@,
    {
        "already borrowed"
    }
}

/// Whether a borrow flag records an exclusive borrow.
pub open spec fn writing(flag: int) -> bool {
    flag < 0
}

/// Whether a borrow flag records shared borrows.
pub open spec fn reading(flag: int) -> bool {
    flag > 0
}

/// Reports whether the flag `x` records an exclusive borrow.
pub fn is_writing(x: isize) -> (b: bool)
    ensures
        b == writing(x as int),
{
    x < 0
}

/// Reports whether the flag `x` records shared borrows.
pub fn is_reading(x: isize) -> (b: bool)
    ensures
        b == reading(x as int),
{
    x > 0
}

/// The handle of one shared borrow of a cell.
pub struct Ref {
    version: u64,
    store: usize,
    birth: u64,
}

impl Ref {
    /// The version that the cell had when it was borrowed.
    pub closed spec fn seen(&self) -> u64 {
        self.version
    }

    /// The identity of the cell that was borrowed
    /// ([`VersionedCell::identity`]).
    pub closed spec fn cell(&self) -> (usize, u64) {
        (self.store, self.birth)
    }

    /// The version that the cell had when it was borrowed.
    pub fn version(&self) -> (v: u64)
        ensures
            v == self.seen(),
    {
        self.version
    }
}

/// The handle of the exclusive borrow of a cell.
pub struct RefMut {
    version: u64,
    store: usize,
    birth: u64,
}

impl RefMut {
    /// The version with which the borrow stamped the cell.
    pub closed spec fn stamp(&self) -> u64 {
        self.version
    }

    /// The identity of the cell that was borrowed
    /// ([`VersionedCell::identity`]).
    pub closed spec fn cell(&self) -> (usize, u64) {
        (self.store, self.birth)
    }

    /// The version with which the borrow stamped the cell.
    pub fn version(&self) -> (v: u64)
        ensures
            v == self.stamp(),
    {
        self.version
    }
}

/// A value with a version stamp and a borrow flag, bound to one store.
pub struct VersionedCell<T> {
    store_id: usize,
    birth: u64,
    version: u64,
    borrow: isize,
    value: T,
}

impl<T> VersionedCell<T> {
    /// The value held.
    pub closed spec fn value(&self) -> T {
        self.value
    }

    /// The cell's version stamp.
    pub closed spec fn stamp(&self) -> u64 {
        self.version
    }

    /// The borrow flag: the number of shared handles that are out, or a
    /// negative number while the exclusive handle is out.
    pub closed spec fn borrow_state(&self) -> int {
        self.borrow as int
    }

    /// The identity of the store that the cell belongs to.
    pub closed spec fn store(&self) -> usize {
        self.store_id
    }

    /// The version with which the cell was made. It stays with the cell
    /// and, as no stamp is issued twice, no other cell of the store has it.
    pub closed spec fn birth(&self) -> u64 {
        self.birth
    }

    /// What tells the cell from every other: its store and the version with
    /// which it was made.
    pub open spec fn identity(&self) -> (usize, u64) {
        (self.store(), self.birth())
    }

    /// The cell with identity `identity` holding `value` at version
    /// `version`, with borrow flag `flag`.
    pub closed spec fn of(value: T, version: u64, flag: isize, identity: (usize, u64)) -> Self {
        VersionedCell { store_id: identity.0, birth: identity.1, version, borrow: flag, value }
    }

    /// The number of shared handles that are out.
    pub open spec fn shared_borrows(&self) -> nat {
        if reading(self.borrow_state()) {
            self.borrow_state() as nat
        } else {
            0
        }
    }

    /// The number of exclusive handles that are out.
    pub open spec fn exclusive_borrows(&self) -> nat {
        if writing(self.borrow_state()) {
            1
        } else {
            0
        }
    }

    /// Whether one more shared handle can be given out.
    pub open spec fn can_borrow(&self) -> bool {
        0 <= self.borrow_state() < isize::MAX
    }

    /// Whether the exclusive handle can be given out.
    pub open spec fn can_borrow_mut(&self) -> bool {
        self.borrow_state() == 0
    }

    /// Whether the cell was stamped by `cx` or by the scopes before it: its
    /// version is one that `cx` has already issued.
    pub open spec fn stamped_before(&self, cx: &UpdateContext) -> bool {
        self.stamp() < cx.pending_version()
    }

    /// This cell after it was stamped with the next version of `cx`: the
    /// value and the borrow flag stay.
    pub open spec fn touched(&self, cx: &UpdateContext) -> Self {
        Self::of(
            self.value(),
            cx.pending_version(),
            self.borrow_state() as isize,
            self.identity(),
        )
    }

    /// A cell is determined by its value, version, borrow flag and
    /// identity.
    pub proof fn lemma_of(self)
        ensures
            self == Self::of(
                self.value(),
                self.stamp(),
                self.borrow_state() as isize,
                self.identity(),
            ),
    {
    }

    /// What [`Self::of`] builds.
    pub proof fn lemma_of_fields(value: T, version: u64, flag: isize, identity: (usize, u64))
        ensures
            Self::of(value, version, flag, identity).value() == value,
            Self::of(value, version, flag, identity).stamp() == version,
            Self::of(value, version, flag, identity).borrow_state() == flag,
            Self::of(value, version, flag, identity).identity() == identity,
    {
    }

    /// A new cell of the scope's store holding `value`, stamped with the
    /// scope's next version and not borrowed.
    pub fn new(context: &mut UpdateContext, value: T) -> (cell: Self)
        requires
            old(context).has_stamps(),
        ensures
            cell == Self::of(
                value,
                old(context).pending_version(),
                0,
                (old(context).id(), old(context).pending_version()),
            ),
            cell.identity() == (old(context).id(), old(context).pending_version()),
            cell.value() == value,
            cell.stamp() == old(context).pending_version(),
            cell.borrow_state() == 0,
            *final(context) == old(context).advanced(),
            cell.stamped_before(final(context)),
    {
        let store_id = context.store_id();
        let version = context.next_version();
        VersionedCell { store_id, birth: version, version, borrow: 0, value }
    }

    /// The cell's version stamp.
    pub fn version(&self) -> (v: u64)
        ensures
            v == self.stamp(),
    {
        self.version
    }

    /// The identity of the store that the cell belongs to.
    pub fn store_id(&self) -> (id: usize)
        ensures
            id == self.store(),
    {
        self.store_id
    }

    /// Reports whether `handle` is the handle of a shared borrow of this
    /// cell.
    pub fn lent(&self, handle: &Ref) -> (b: bool)
        ensures
            b == (handle.cell() == self.identity()),
    {
        handle.store == self.store_id && handle.birth == self.birth
    }

    /// Reports whether `handle` is the handle of the exclusive borrow of
    /// this cell.
    pub fn lent_mut(&self, handle: &RefMut) -> (b: bool)
        ensures
            b == (handle.cell() == self.identity()),
    {
        handle.store == self.store_id && handle.birth == self.birth
    }

    /// The borrow flag.
    pub fn flag(&self) -> (x: isize)
        ensures
            x == self.borrow_state(),
    {
        self.borrow
    }

    /// Stamps the cell with the scope's next version and leaves the value and
    /// the borrow flag as they are.
    pub fn touch(&mut self, context: &mut UpdateContext)
        requires
            old(context).id() == old(self).store(),
            old(context).has_stamps(),
        ensures
            *final(self) == old(self).touched(old(context)),
            final(self).identity() == old(self).identity(),
            final(self).stamp() == old(context).pending_version(),
            final(self).value() == old(self).value(),
            final(self).borrow_state() == old(self).borrow_state(),
            *final(context) == old(context).advanced(),
            final(self).stamped_before(final(context)),
            old(self).stamped_before(old(context)) ==> final(self).stamp() > old(self).stamp(),
    {
        let version = context.next_version();
        self.version = version;
    }

    /// The value, read inside a read scope. No borrow is recorded: the read
    /// scope shows that no writer is active.
    pub fn deref(&self, context: ReadContext) -> (value: &T)
        requires
            context.id() == self.store(),
        ensures
            *value == self.value(),
    {
        &self.value
    }

    /// Takes a shared borrow, or reports a conflict and leaves the cell as it
    /// is.
    pub fn try_borrow(&mut self, context: &UpdateContext) -> (handle: Result<Ref, BorrowError>)
        requires
            context.id() == old(self).store(),
        ensures
            handle is Ok <==> old(self).can_borrow(),
            final(self).identity() == old(self).identity(),
            final(self).value() == old(self).value(),
            final(self).stamp() == old(self).stamp(),
            handle matches Ok(h) ==> {
                &&& final(self).borrow_state() == old(self).borrow_state() + 1
                &&& h.seen() == old(self).stamp()
                &&& h.cell() == old(self).identity()
            },
            handle is Err ==> *final(self) == *old(self),
    {
        let b = self.borrow.wrapping_add(1);
        if !is_reading(b) {
            Err(BorrowError {  })
        } else {
            Ok(self.borrow(context))
        }
    }

    /// Takes a shared borrow of a cell that is not borrowed exclusively.
    pub fn borrow(&mut self, context: &UpdateContext) -> (handle: Ref)
        requires
            context.id() == old(self).store(),
            old(self).can_borrow(),
        ensures
            final(self).identity() == old(self).identity(),
            handle.cell() == old(self).identity(),
            final(self).value() == old(self).value(),
            final(self).stamp() == old(self).stamp(),
            final(self).borrow_state() == old(self).borrow_state() + 1,
            handle.seen() == old(self).stamp(),
    {
        self.borrow = self.borrow + 1;
        Ref { version: self.version, store: self.store_id, birth: self.birth }
    }

    /// Takes the exclusive borrow and stamps the cell with the scope's next
    /// version, or reports a conflict and leaves the cell and the scope as
    /// they are.
    pub fn try_borrow_mut(&mut self, context: &mut UpdateContext) -> (handle: Result<
        RefMut,
        BorrowMutError,
    >)
        requires
            old(context).id() == old(self).store(),
            old(self).can_borrow_mut() ==> old(context).has_stamps(),
        ensures
            handle is Ok <==> old(self).can_borrow_mut(),
            final(self).identity() == old(self).identity(),
            final(self).value() == old(self).value(),
            handle matches Ok(h) ==> {
                &&& final(self).borrow_state() == -1
                &&& final(self).stamp() == old(context).pending_version()
                &&& h.stamp() == old(context).pending_version()
                &&& h.cell() == old(self).identity()
                &&& *final(context) == old(context).advanced()
                &&& final(self).stamped_before(final(context))
                &&& old(self).stamped_before(old(context)) ==> final(self).stamp() > old(
                    self,
                ).stamp()
            },
            handle is Err ==> *final(self) == *old(self) && *final(context) == *old(context),
    {
        if self.borrow == 0 {
            Ok(self.borrow_mut(context))
        } else {
            Err(BorrowMutError {  })
        }
    }

    /// Takes the exclusive borrow of a cell that is not borrowed.
    pub fn borrow_mut(&mut self, context: &mut UpdateContext) -> (handle: RefMut)
        requires
            old(context).id() == old(self).store(),
            old(self).can_borrow_mut(),
            old(context).has_stamps(),
        ensures
            final(self).identity() == old(self).identity(),
            handle.cell() == old(self).identity(),
            final(self).value() == old(self).value(),
            final(self).borrow_state() == -1,
            final(self).stamp() == old(context).pending_version(),
            handle.stamp() == old(context).pending_version(),
            *final(context) == old(context).advanced(),
            final(self).stamped_before(final(context)),
            old(self).stamped_before(old(context)) ==> final(self).stamp() > old(self).stamp(),
    {
        self.borrow = -1;
        self.touch(context);
        RefMut { version: self.version, store: self.store_id, birth: self.birth }
    }

    /// The value, read through a shared handle.
    pub fn get(&self, handle: &Ref) -> (value: &T)
        requires
            handle.cell() == self.identity(),
            self.shared_borrows() > 0,
        ensures
            *value == self.value(),
    {
        &self.value
    }

    /// The value, read through the exclusive handle.
    pub fn value_of(&self, handle: &RefMut) -> (value: &T)
        requires
            handle.cell() == self.identity(),
            self.exclusive_borrows() > 0,
        ensures
            *value == self.value(),
    {
        &self.value
    }

    /// The value, for reading and writing through the exclusive handle. The
    /// version and the borrow flag stay as they are, whatever is written.
    pub fn get_mut(&mut self, handle: &mut RefMut) -> (value: &mut T)
        requires
            old(handle).cell() == old(self).identity(),
            old(self).exclusive_borrows() > 0,
        ensures
            *value == old(self).value(),
            *final(self) == Self::of(
                *final(value),
                old(self).stamp(),
                old(self).borrow_state() as isize,
                old(self).identity(),
            ),
            final(self).identity() == old(self).identity(),
            final(self).value() == *final(value),
            final(self).stamp() == old(self).stamp(),
            final(self).borrow_state() == old(self).borrow_state(),
            *final(handle) == *old(handle),
    {
        &mut self.value
    }

    /// Stores `value` through the exclusive handle and hands the value it
    /// replaces back.
    pub fn set(&mut self, handle: &mut RefMut, value: T) -> (previous: T)
        requires
            old(handle).cell() == old(self).identity(),
            old(self).exclusive_borrows() > 0,
        ensures
            previous == old(self).value(),
            final(self).value() == value,
            final(self).identity() == old(self).identity(),
            final(self).stamp() == old(self).stamp(),
            final(self).borrow_state() == old(self).borrow_state(),
            *final(handle) == *old(handle),
    {
        let mut value = value;
        std::mem::swap(&mut self.value, &mut value);
        value
    }

    /// Gives a shared handle back.
    pub fn release(&mut self, handle: Ref)
        requires
            handle.cell() == old(self).identity(),
            old(self).shared_borrows() > 0,
        ensures
            final(self).borrow_state() == old(self).borrow_state() - 1,
            final(self).identity() == old(self).identity(),
            final(self).value() == old(self).value(),
            final(self).stamp() == old(self).stamp(),
    {
        self.borrow = self.borrow - 1;
    }

    /// Gives the exclusive handle back.
    pub fn release_mut(&mut self, handle: RefMut)
        requires
            handle.cell() == old(self).identity(),
            old(self).exclusive_borrows() > 0,
        ensures
            final(self).borrow_state() == old(self).borrow_state() + 1,
            final(self).identity() == old(self).identity(),
            final(self).value() == old(self).value(),
            final(self).stamp() == old(self).stamp(),
    {
        self.borrow = self.borrow + 1;
    }

    /// Borrow exclusivity: at most one exclusive handle is out, exclusive
    /// and shared handles are never out together, and while a handle is out
    /// every request that would conflict with it is refused.
    pub proof fn lemma_borrows_exclusive(self)
        ensures
            self.exclusive_borrows() <= 1,
            !(self.exclusive_borrows() > 0 && self.shared_borrows() > 0),
            self.exclusive_borrows() > 0 ==> !self.can_borrow() && !self.can_borrow_mut(),
            self.shared_borrows() > 0 ==> !self.can_borrow_mut(),
    {
    }
}

/// The version stamps of `cells`, in order.
pub open spec fn versions<T>(cells: Seq<VersionedCell<T>>) -> Seq<u64> {
    cells.map_values(|cell: VersionedCell<T>| cell.stamp())
}

/// Whether every one of `versions` is a stamp that `cx`, or a scope before
/// it, has issued.
pub open spec fn issued_before(versions: Seq<u64>, cx: &UpdateContext) -> bool {
    forall|i: int| 0 <= i < versions.len() ==> #[trigger] versions[i] < cx.pending_version()
}

/// Version monotonicity, for stamping: when the cell at place `i` of a
/// store's cells is stamped, its version grows, every other version stays,
/// and no two cells share a version afterwards if none did before.
pub proof fn lemma_stamping_keeps_versions_apart(versions: Seq<u64>, i: int, cx: UpdateContext)
    requires
        0 <= i < versions.len(),
        cx.has_stamps(),
        issued_before(versions, &cx),
        versions.no_duplicates(),
    ensures
        ({
            let after = versions.update(i, cx.pending_version());
            &&& issued_before(after, &cx.advanced())
            &&& after.no_duplicates()
            &&& after[i] > versions[i]
            &&& forall|j: int| 0 <= j < versions.len() && j != i ==> after[j] == versions[j]
        }),
{
    UpdateContext::lemma_at_fields((cx.pending_version() + 1) as u64, cx.id());
    let after = versions.update(i, cx.pending_version());
    assert forall|a: int, b: int|
        0 <= a < after.len() && 0 <= b < after.len() && a != b implies after[a] != after[b] by {
        if a != i && b != i {
            assert(versions[a] != versions[b]);
        } else if a == i {
            assert(versions[b] < cx.pending_version());
        } else {
            assert(versions[a] < cx.pending_version());
        }
    }
}

/// Version monotonicity, for the cells of a store: when the cell at place
/// `i` is touched, or borrowed exclusively, in the scope `cx`, its version
/// grows, every other cell stays as it is, and no two cells share a version
/// afterwards if none did before.
pub proof fn lemma_touch_keeps_cells_apart<T>(
    cells: Seq<VersionedCell<T>>,
    i: int,
    cx: UpdateContext,
)
    requires
        0 <= i < cells.len(),
        cx.has_stamps(),
        issued_before(versions(cells), &cx),
        versions(cells).no_duplicates(),
    ensures
        ({
            let after = cells.update(i, cells[i].touched(&cx));
            &&& issued_before(versions(after), &cx.advanced())
            &&& versions(after).no_duplicates()
            &&& after[i].stamp() > cells[i].stamp()
            &&& after[i].value() == cells[i].value()
            &&& forall|j: int| 0 <= j < cells.len() && j != i ==> after[j] == cells[j]
        }),
{
    let after = cells.update(i, cells[i].touched(&cx));
    VersionedCell::<T>::lemma_of_fields(
        cells[i].value(),
        cx.pending_version(),
        cells[i].borrow_state() as isize,
        cells[i].identity(),
    );
    assert(versions(after) =~= versions(cells).update(i, cx.pending_version()));
    assert(versions(cells)[i] == cells[i].stamp());
    lemma_stamping_keeps_versions_apart(versions(cells), i, cx);
}

/// Version monotonicity, for new cells: a cell made in a scope gets a
/// version that no cell of the store has, and every other version stays.
pub proof fn lemma_new_cell_keeps_versions_apart(versions: Seq<u64>, cx: UpdateContext)
    requires
        cx.has_stamps(),
        issued_before(versions, &cx),
        versions.no_duplicates(),
    ensures
        ({
            let after = versions.push(cx.pending_version());
            &&& issued_before(after, &cx.advanced())
            &&& after.no_duplicates()
            &&& forall|j: int| 0 <= j < versions.len() ==> after[j] == versions[j]
        }),
{
    UpdateContext::lemma_at_fields((cx.pending_version() + 1) as u64, cx.id());
    let after = versions.push(cx.pending_version());
    assert forall|a: int, b: int|
        0 <= a < after.len() && 0 <= b < after.len() && a != b implies after[a] != after[b] by {
        if a < versions.len() && b < versions.len() {
            assert(versions[a] != versions[b]);
        } else if a < versions.len() {
            assert(versions[a] < cx.pending_version());
        } else {
            assert(versions[b] < cx.pending_version());
        }
    }
}

/// Version monotonicity, across scopes: what was issued before a scope was
/// issued before every scope that follows it, so the stamps of a later
/// update are above every version that the store holds.
pub proof fn lemma_issued_before_later(versions: Seq<u64>, cx: UpdateContext, later: UpdateContext)
    requires
        issued_before(versions, &cx),
        later.follows(&cx),
    ensures
        issued_before(versions, &later),
{
    assert forall|i: int| 0 <= i < versions.len() implies #[trigger] versions[i]
        < later.pending_version() by {
        assert(versions[i] < cx.pending_version());
    }
}

/// The versions of a store's cells after the cells at `places` were stamped
/// one after the other, the first with `next`.
pub open spec fn after_stamps(versions: Seq<u64>, places: Seq<int>, next: int) -> Seq<u64>
    decreases places.len(),
{
    if places.len() == 0 {
        versions
    } else {
        after_stamps(versions.update(places[0], next as u64), places.drop_first(), next + 1)
    }
}

/// Version monotonicity, for any run of stamps: however many cells are
/// stamped in whatever order, and some of them again and again, every cell's
/// version stays or grows, no two cells share a version afterwards if none
/// did before, and all versions are stamps that were issued.
pub proof fn lemma_stamps_keep_versions_apart(versions: Seq<u64>, places: Seq<int>, next: int)
    requires
        0 <= next,
        next + places.len() <= u64::MAX,
        forall|i: int| 0 <= i < versions.len() ==> #[trigger] versions[i] < next,
        versions.no_duplicates(),
        forall|k: int| 0 <= k < places.len() ==> 0 <= #[trigger] places[k] < versions.len(),
    ensures
        ({
            let after = after_stamps(versions, places, next);
            &&& after.len() == versions.len()
            &&& after.no_duplicates()
            &&& forall|i: int| 0 <= i < after.len() ==> #[trigger] after[i] < next + places.len()
            &&& forall|i: int|
                0 <= i < after.len() ==> #[trigger] after[i] == versions[i] || after[i]
                    > versions[i]
        }),
    decreases places.len(),
{
    if places.len() > 0 {
        let i = places[0];
        let stamped = versions.update(i, next as u64);
        let rest = places.drop_first();
        assert forall|a: int, b: int|
            0 <= a < stamped.len() && 0 <= b < stamped.len() && a != b implies stamped[a]
            != stamped[b] by {
            if a != i && b != i {
                assert(versions[a] != versions[b]);
            } else if a == i {
                assert(versions[b] < next);
            } else {
                assert(versions[a] < next);
            }
        }
        assert forall|k: int| 0 <= k < rest.len() implies 0 <= #[trigger] rest[k]
            < stamped.len() by {
            assert(rest[k] == places[k + 1]);
        }
        assert forall|a: int| 0 <= a < stamped.len() implies #[trigger] stamped[a] < next + 1 by {
            if a != i {
                assert(versions[a] < next);
            }
        }
        lemma_stamps_keep_versions_apart(stamped, rest, next + 1);
        let after = after_stamps(versions, places, next);
        assert forall|a: int| 0 <= a < after.len() implies #[trigger] after[a] == versions[a]
            || after[a] > versions[a] by {
            assert(after[a] == stamped[a] || after[a] > stamped[a]);
            if a == i {
                assert(versions[a] < next);
            }
        }
    }
}

/// A stamp of a scope at any place makes the versions differ from every
/// sequence of versions that was issued before the scope began.
pub proof fn lemma_touched_versions_differ(
    before: Seq<u64>,
    after: Seq<u64>,
    i: int,
    scope: UpdateContext,
)
    requires
        issued_before(before, &scope),
        0 <= i < after.len(),
        after[i] >= scope.pending_version(),
    ensures
        after != before,
{
    if after.len() == before.len() {
        assert(before[i] < scope.pending_version());
    }
}

} // verus!
