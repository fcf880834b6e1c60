//! The model of a slotted collection: a sequence of slots, each of them
//! `None` when it is empty and `Some(item)` when it holds `item`.
//!
//! The contracts of [`Container`](super::Container) are stated over the
//! functions of this module, and the lemmas here are what its
//! implementations are proved from.

use vstd::prelude::*;

verus! {

/// `capacity` slots, every one of them empty.
pub open spec fn all_empty<T>(capacity: nat) -> Seq<Option<T>> {
    Seq::new(capacity, |i: int| None)
}

/// What one slot adds to the number of filled slots: one where it holds an
/// item, nothing where it is empty.
pub open spec fn occupancy<T>(slot: Option<T>) -> nat {
    if slot is Some {
        1
    } else {
        0
    }
}

/// The number of slots that hold an item.
pub open spec fn filled_slots<T>(slots: Seq<Option<T>>) -> nat
    decreases slots.len(),
{
    if slots.len() == 0 {
        0
    } else {
        filled_slots(slots.drop_last()) + occupancy(slots.last())
    }
}

/// The least index whose slot satisfies `wanted`, or `slots.len()` where no
/// slot does: where an ascending scan for such a slot stops.
pub open spec fn first_where<T>(slots: Seq<Option<T>>, wanted: spec_fn(Option<T>) -> bool) -> int
    decreases slots.len(),
{
    if slots.len() == 0 || wanted(slots.first()) {
        0
    } else {
        1 + first_where(slots.drop_first(), wanted)
    }
}

/// The predicate "this slot is empty".
pub open spec fn is_vacant<T>() -> spec_fn(Option<T>) -> bool {
    |slot: Option<T>| slot is None
}

/// Whether some slot is empty.
pub open spec fn has_empty<T>(slots: Seq<Option<T>>) -> bool {
    exists|i: int| 0 <= i < slots.len() && slots[i] is None
}

/// The index of the first empty slot, or `slots.len()` where none is empty.
pub open spec fn first_empty<T>(slots: Seq<Option<T>>) -> int {
    first_where(slots, is_vacant())
}

/// `slots` with the contents of the slots `a` and `b` exchanged.
pub open spec fn swapped<T>(slots: Seq<Option<T>>, a: int, b: int) -> Seq<Option<T>> {
    slots.update(a, slots[b]).update(b, slots[a])
}

/// `first_where` is in range, nothing before it satisfies `wanted`, and the
/// slot at it does, if there is one.
pub proof fn lemma_first_where<T>(slots: Seq<Option<T>>, wanted: spec_fn(Option<T>) -> bool)
    ensures
        0 <= first_where(slots, wanted) <= slots.len(),
        forall|j: int| 0 <= j < first_where(slots, wanted) ==> !wanted(#[trigger] slots[j]),
        first_where(slots, wanted) < slots.len() ==> wanted(slots[first_where(slots, wanted)]),
    decreases slots.len(),
{
    if slots.len() != 0 && !wanted(slots.first()) {
        let rest = slots.drop_first();
        lemma_first_where(rest, wanted);
        assert forall|j: int| 0 <= j < first_where(slots, wanted) implies !wanted(
            #[trigger] slots[j],
        ) by {
            if j > 0 {
                assert(slots[j] == rest[j - 1]);
            }
        }
    }
}

/// The index at which an ascending scan stops is `first_where`.
pub proof fn lemma_first_where_is<T>(
    slots: Seq<Option<T>>,
    wanted: spec_fn(Option<T>) -> bool,
    i: int,
)
    requires
        0 <= i <= slots.len(),
        forall|j: int| 0 <= j < i ==> !wanted(#[trigger] slots[j]),
        i < slots.len() ==> wanted(slots[i]),
    ensures
        first_where(slots, wanted) == i,
{
    lemma_first_where(slots, wanted);
}

/// `first_empty` is the least index of an empty slot, and lies in range
/// exactly when there is an empty slot.
pub proof fn lemma_first_empty<T>(slots: Seq<Option<T>>)
    ensures
        0 <= first_empty(slots) <= slots.len(),
        forall|j: int| 0 <= j < first_empty(slots) ==> (#[trigger] slots[j]) is Some,
        has_empty(slots) <==> first_empty(slots) < slots.len(),
        has_empty(slots) ==> slots[first_empty(slots)] is None,
{
    lemma_first_where(slots, is_vacant());
}

/// Writing a slot changes the number of filled slots by what that slot
/// gains or loses.
pub proof fn lemma_filled_slots_update<T>(slots: Seq<Option<T>>, i: int, slot: Option<T>)
    requires
        0 <= i < slots.len(),
    ensures
        filled_slots(slots.update(i, slot)) == filled_slots(slots) - occupancy(slots[i])
            + occupancy(slot),
    decreases slots.len(),
{
    let updated = slots.update(i, slot);
    if i == slots.len() - 1 {
        assert(updated.drop_last() =~= slots.drop_last());
    } else {
        assert(updated.drop_last() =~= slots.drop_last().update(i, slot));
        lemma_filled_slots_update(slots.drop_last(), i, slot);
    }
}

/// No more slots are filled than there are, and all of them are exactly when
/// none is empty.
pub proof fn lemma_filled_slots_bound<T>(slots: Seq<Option<T>>)
    ensures
        filled_slots(slots) <= slots.len(),
        has_empty(slots) <==> filled_slots(slots) < slots.len(),
    decreases slots.len(),
{
    if slots.len() != 0 {
        let front = slots.drop_last();
        lemma_filled_slots_bound(front);
        if has_empty(front) {
            let i = choose|i: int| 0 <= i < front.len() && front[i] is None;
            assert(slots[i] is None);
        }
        if has_empty(slots) && slots.last() is Some {
            let i = choose|i: int| 0 <= i < slots.len() && slots[i] is None;
            assert(front[i] is None);
        }
    }
}

/// Where every slot is empty, none is filled.
pub proof fn lemma_filled_slots_all_empty<T>(capacity: nat)
    ensures
        filled_slots(all_empty::<T>(capacity)) == 0,
    decreases capacity,
{
    if capacity != 0 {
        assert(all_empty::<T>(capacity).drop_last() =~= all_empty::<T>((capacity - 1) as nat));
        lemma_filled_slots_all_empty::<T>((capacity - 1) as nat);
    }
}

/// Exchanging two slots keeps the number of filled slots.
pub proof fn lemma_filled_slots_swapped<T>(slots: Seq<Option<T>>, a: int, b: int)
    requires
        0 <= a < slots.len(),
        0 <= b < slots.len(),
    ensures
        filled_slots(swapped(slots, a, b)) == filled_slots(slots),
{
    lemma_filled_slots_update(slots, a, slots[b]);
    lemma_filled_slots_update(slots.update(a, slots[b]), b, slots[a]);
}

/// Exchanging the same two slots twice gives back the slots as they were.
pub proof fn lemma_swapped_twice<T>(slots: Seq<Option<T>>, a: int, b: int)
    requires
        0 <= a < slots.len(),
        0 <= b < slots.len(),
    ensures
        swapped(swapped(slots, a, b), a, b) == slots,
{
    assert(swapped(swapped(slots, a, b), a, b) =~= slots);
}

} // verus!
