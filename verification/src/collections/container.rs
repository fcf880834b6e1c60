//! What a slotted collection offers, and how its operations fail.
//!
//! A container is a fixed number of slots, numbered from zero, each empty or
//! holding one item. Its model is the sequence of its slots together with the
//! count of held items that it keeps. For each operation a pair of functions
//! on that model says what the operation returns and which slots it leaves.

use super::slots::{
    all_empty, filled_slots, first_empty, has_empty, is_vacant, lemma_filled_slots_all_empty,
    lemma_filled_slots_bound, lemma_filled_slots_update, lemma_first_empty, lemma_first_where_is,
    lemma_swapped_twice, occupancy, swapped,
};
use vstd::prelude::*;

verus! {

/// Why an operation on a container failed.
#[derive(Debug, PartialEq, Eq, PartialOrd, Structural)]
pub enum ContainerError {
    /// No slot is empty.
    Full,
    /// No slot holds what was asked for, or the slot asked for is empty.
    NotFound,
    /// The slot index is not below the capacity.
    IndexOutOfBounds,
    /// The slot found holds more than the quantity asked for.
    QuantityInsufficient,
}

/// What an operation on a container returns.
pub type ContainerResult<T> = Result<T, ContainerError>;

/// What `add` returns: it succeeds exactly when a slot is empty.
pub open spec fn add_result<T>(slots: Seq<Option<T>>) -> ContainerResult<()> {
    if has_empty(slots) {
        Ok(())
    } else {
        Err(ContainerError::Full)
    }
}

/// The slots after `add(item)`: the first empty slot holds `item`.
pub open spec fn after_add<T>(slots: Seq<Option<T>>, item: T) -> Seq<Option<T>> {
    if has_empty(slots) {
        slots.update(first_empty(slots), Some(item))
    } else {
        slots
    }
}

/// What `add_at` returns: it succeeds exactly when `slot` is in range.
pub open spec fn add_at_result<T>(slots: Seq<Option<T>>, slot: usize) -> ContainerResult<()> {
    if slot < slots.len() {
        Ok(())
    } else {
        Err(ContainerError::IndexOutOfBounds)
    }
}

/// The slots after `add_at(item, slot)`: `slot` holds `item`, whatever it
/// held before.
pub open spec fn after_add_at<T>(slots: Seq<Option<T>>, item: T, slot: usize) -> Seq<Option<T>> {
    if slot < slots.len() {
        slots.update(slot as int, Some(item))
    } else {
        slots
    }
}

/// What `remove_at` returns: it succeeds exactly when `slot` is in range and
/// holds an item.
pub open spec fn remove_at_result<T>(slots: Seq<Option<T>>, slot: usize) -> ContainerResult<()> {
    if slot >= slots.len() {
        Err(ContainerError::IndexOutOfBounds)
    } else if slots[slot as int] is None {
        Err(ContainerError::NotFound)
    } else {
        Ok(())
    }
}

/// The slots after `remove_at(slot)`: `slot` is empty.
pub open spec fn after_remove_at<T>(slots: Seq<Option<T>>, slot: usize) -> Seq<Option<T>> {
    if slot < slots.len() {
        slots.update(slot as int, None)
    } else {
        slots
    }
}

/// What `get_at` returns: the item that `slot` holds.
pub open spec fn get_at_result<T>(slots: Seq<Option<T>>, slot: usize) -> ContainerResult<T> {
    if slot >= slots.len() {
        Err(ContainerError::IndexOutOfBounds)
    } else {
        match slots[slot as int] {
            Some(item) => Ok(item),
            None => Err(ContainerError::NotFound),
        }
    }
}

/// What `swap` returns: it succeeds exactly when both slots are in range.
pub open spec fn swap_result<T>(slots: Seq<Option<T>>, slot_a: usize, slot_b: usize)
    -> ContainerResult<()> {
    if slot_a < slots.len() && slot_b < slots.len() {
        Ok(())
    } else {
        Err(ContainerError::IndexOutOfBounds)
    }
}

/// The slots after `swap(slot_a, slot_b)`: the two slots have exchanged what
/// they held, be it an item or nothing.
pub open spec fn after_swap<T>(slots: Seq<Option<T>>, slot_a: usize, slot_b: usize) -> Seq<
    Option<T>,
> {
    if slot_a < slots.len() && slot_b < slots.len() {
        swapped(slots, slot_a as int, slot_b as int)
    } else {
        slots
    }
}

/// The slots after one `add` for each of `items`, in their order.
pub open spec fn after_adds<T>(slots: Seq<Option<T>>, items: Seq<T>) -> Seq<Option<T>>
    decreases items.len(),
{
    if items.len() == 0 {
        slots
    } else {
        after_add(after_adds(slots, items.drop_last()), items.last())
    }
}

/// A collection of a fixed number of slots, each empty or holding one `T`.
///
/// Slot indices run from zero to the capacity and never change. Every
/// operation checks its arguments before it changes anything: one that
/// returns an error has changed nothing.
pub trait Container<T>: Sized {
    /// The slots in index order: `None` for an empty one, `Some(item)` for
    /// one that holds `item`.
    spec fn slots(&self) -> Seq<Option<T>>;

    /// The count of held items that the container keeps. It goes up by one
    /// with each insertion and down by one with each slot that is cleared.
    spec fn occupied_count(&self) -> nat;

    /// By how much the count exceeds the number of filled slots. It is zero
    /// until `add_at` stores into a slot that already holds an item.
    open spec fn surplus(&self) -> int {
        self.occupied_count() - filled_slots(self.slots())
    }

    /// Creates a container of `capacity` slots, all empty.
    fn with_capacity(capacity: usize) -> (container: Self)
        ensures
            container.slots() == all_empty::<T>(capacity as nat),
            container.slots().len() == capacity,
            container.occupied_count() == 0,
            container.surplus() == 0,
    ;

    /// Returns the number of slots.
    fn capacity(&self) -> (capacity: usize)
        ensures
            capacity == self.slots().len(),
    ;

    /// Returns the count of held items. It is never below the number of
    /// filled slots.
    fn count(&self) -> (count: usize)
        ensures
            count == self.occupied_count(),
            self.surplus() >= 0,
    ;

    /// Returns whether some slot holds an item equal to `item`.
    fn contains(&self, item: &T) -> (found: bool)
        ensures
            found <==> self.slots().contains(Some(*item)),
    ;

    /// Stores `item` in the first empty slot, or fails with `Full` where
    /// there is none. An item of a kind that is already held gets a slot of
    /// its own all the same.
    ///
    /// The count must have room for the insertion.
    fn add(&mut self, item: T) -> (res: ContainerResult<()>)
        requires
            has_empty(old(self).slots()) ==> old(self).occupied_count() < usize::MAX,
        ensures
            res == add_result(old(self).slots()),
            final(self).slots() == after_add(old(self).slots(), item),
            final(self).slots().len() == old(self).slots().len(),
            res is Err ==> final(self).slots() == old(self).slots(),
            final(self).occupied_count() == old(self).occupied_count() + if res is Ok {
                1nat
            } else {
                0nat
            },
            final(self).surplus() == old(self).surplus(),
    ;

    /// Stores `item` at `slot`, or fails with `IndexOutOfBounds`. What the
    /// slot held is dropped, and the count goes up by one even then: from
    /// there on it exceeds the number of filled slots.
    ///
    /// The count must have room for the insertion.
    fn add_at(&mut self, item: T, slot: usize) -> (res: ContainerResult<()>)
        requires
            slot < old(self).slots().len() ==> old(self).occupied_count() < usize::MAX,
        ensures
            res == add_at_result(old(self).slots(), slot),
            final(self).slots() == after_add_at(old(self).slots(), item, slot),
            final(self).slots().len() == old(self).slots().len(),
            res is Err ==> final(self).slots() == old(self).slots(),
            final(self).occupied_count() == old(self).occupied_count() + if res is Ok {
                1nat
            } else {
                0nat
            },
            final(self).surplus() == old(self).surplus() + if res is Ok {
                occupancy(old(self).slots()[slot as int])
            } else {
                0nat
            },
    ;

    /// Takes the quantity of `item` out of the first slot that holds an item
    /// of its kind. What a kind is, and how its quantity is taken, is for
    /// the implementation to say; whatever it is, the number of slots stays,
    /// a failure is `NotFound` or `QuantityInsufficient` and changes
    /// nothing, and the count goes down exactly when a slot is cleared.
    fn remove(&mut self, item: &T) -> (res: ContainerResult<()>)
        ensures
            final(self).slots().len() == old(self).slots().len(),
            res matches Err(e) ==> {
                &&& e == ContainerError::NotFound || e == ContainerError::QuantityInsufficient
                &&& final(self).slots() == old(self).slots()
                &&& final(self).occupied_count() == old(self).occupied_count()
            },
            final(self).surplus() == old(self).surplus(),
    ;

    /// Clears `slot`, or fails with `IndexOutOfBounds` where it is out of
    /// range and with `NotFound` where it is empty already.
    fn remove_at(&mut self, slot: usize) -> (res: ContainerResult<()>)
        ensures
            res == remove_at_result(old(self).slots(), slot),
            final(self).slots() == after_remove_at(old(self).slots(), slot),
            final(self).slots().len() == old(self).slots().len(),
            res is Err ==> final(self).slots() == old(self).slots(),
            final(self).occupied_count() == old(self).occupied_count() - if res is Ok {
                1nat
            } else {
                0nat
            },
            final(self).surplus() == old(self).surplus(),
    ;

    /// Returns a copy of the item at `slot`, or fails with
    /// `IndexOutOfBounds` where it is out of range and with `NotFound` where
    /// it is empty.
    fn get_at(&self, slot: usize) -> (res: ContainerResult<T>)
        ensures
            res == get_at_result(self.slots(), slot),
    ;

    /// Exchanges what the two slots hold, or fails with `IndexOutOfBounds`
    /// where either is out of range. Either slot may be empty.
    fn swap(&mut self, slot_a: usize, slot_b: usize) -> (res: ContainerResult<()>)
        ensures
            res == swap_result(old(self).slots(), slot_a, slot_b),
            final(self).slots() == after_swap(old(self).slots(), slot_a, slot_b),
            final(self).slots().len() == old(self).slots().len(),
            res is Err ==> final(self).slots() == old(self).slots(),
            final(self).occupied_count() == old(self).occupied_count(),
            final(self).surplus() == old(self).surplus(),
    ;
}

/// `add` succeeds exactly while fewer slots are filled than there are, and
/// each success fills exactly one more.
pub proof fn lemma_add_fills_one<T>(slots: Seq<Option<T>>, item: T)
    ensures
        add_result(slots) is Ok <==> filled_slots(slots) < slots.len(),
        after_add(slots, item).len() == slots.len(),
        filled_slots(after_add(slots, item)) == filled_slots(slots) + if add_result(slots) is Ok {
            1nat
        } else {
            0nat
        },
{
    lemma_filled_slots_bound(slots);
    lemma_first_empty(slots);
    if has_empty(slots) {
        lemma_filled_slots_update(slots, first_empty(slots), Some(item));
    }
}

/// Filling an empty container through `add`: the items take the slots from
/// zero upwards in their order, each `add` fills one more slot, and the next
/// `add` succeeds exactly while fewer items are in than there are slots. So
/// the `add` that follows `capacity` of them fails with `Full`.
pub proof fn lemma_add_until_full<T>(capacity: nat, items: Seq<T>)
    requires
        items.len() <= capacity,
    ensures
        after_adds(all_empty(capacity), items).len() == capacity,
        forall|i: int|
            0 <= i < items.len() ==> (#[trigger] after_adds(all_empty(capacity), items)[i])
                == Some(items[i]),
        forall|i: int|
            items.len() <= i < capacity ==> (#[trigger] after_adds(all_empty(capacity), items)[i])
                is None,
        filled_slots(after_adds(all_empty(capacity), items)) == items.len(),
        items.len() < capacity ==> add_result(after_adds(all_empty(capacity), items)) is Ok,
        items.len() == capacity ==> add_result(after_adds(all_empty(capacity), items)) matches Err(
            ContainerError::Full,
        ),
    decreases items.len(),
{
    let filled = after_adds(all_empty(capacity), items);
    if items.len() == 0 {
        lemma_filled_slots_all_empty::<T>(capacity);
    } else {
        let before = after_adds(all_empty(capacity), items.drop_last());
        lemma_add_until_full(capacity, items.drop_last());
        assert(before[items.len() - 1] is None);
        lemma_first_where_is(before, is_vacant(), items.len() - 1);
        lemma_add_fills_one(before, items.last());
    }
    lemma_filled_slots_bound(filled);
    if items.len() < capacity {
        assert(filled[items.len() as int] is None);
    }
}

/// Reading a slot right after `add_at` has stored an item there gives that
/// item.
pub proof fn lemma_get_at_after_add_at<T>(slots: Seq<Option<T>>, item: T, slot: usize)
    requires
        slot < slots.len(),
    ensures
        add_at_result(slots, slot) is Ok,
        get_at_result(after_add_at(slots, item, slot), slot) == Ok::<T, ContainerError>(item),
{
}

/// `remove_at` fails with `NotFound` on a slot that has just been cleared,
/// and with `IndexOutOfBounds` on a slot out of range.
pub proof fn lemma_remove_at_fails<T>(slots: Seq<Option<T>>, slot: usize)
    ensures
        slot < slots.len() ==> remove_at_result(after_remove_at(slots, slot), slot) matches Err(
            ContainerError::NotFound,
        ),
        slot >= slots.len() ==> remove_at_result(slots, slot) matches Err(
            ContainerError::IndexOutOfBounds,
        ),
{
}

/// `swap` is its own inverse: the same `swap` again gives back the slots as
/// they were.
pub proof fn lemma_swap_twice<T>(slots: Seq<Option<T>>, slot_a: usize, slot_b: usize)
    requires
        slot_a < slots.len(),
        slot_b < slots.len(),
    ensures
        swap_result(slots, slot_a, slot_b) is Ok,
        swap_result(after_swap(slots, slot_a, slot_b), slot_a, slot_b) is Ok,
        after_swap(after_swap(slots, slot_a, slot_b), slot_a, slot_b) == slots,
{
    lemma_swapped_twice(slots, slot_a as int, slot_b as int);
}

} // verus!
