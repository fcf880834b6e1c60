//! The inventory: a container of items over a vector of slots.

use super::container::{Container, ContainerError, ContainerResult};
use super::slots::{
    all_empty, filled_slots, first_where, has_empty, is_vacant, lemma_filled_slots_all_empty,
    lemma_filled_slots_swapped, lemma_filled_slots_update, lemma_first_where_is, occupancy,
    swapped,
};
use crate::entity::Item;
use vstd::prelude::*;

verus! {

/// The predicate "this slot holds an item of the kind of `item`".
pub open spec fn holds_kind_of(item: Item) -> spec_fn(Option<Item>) -> bool {
    |slot: Option<Item>| slot matches Some(held) && held.same_kind(&item)
}

/// The index of the first slot that holds an item of the kind of `item`, or
/// `slots.len()` where none does.
pub open spec fn first_of_kind(slots: Seq<Option<Item>>, item: Item) -> int {
    first_where(slots, holds_kind_of(item))
}

/// What `remove` returns. It looks at the first slot that holds an item of
/// the kind of `item`, and at no other: it fails with `NotFound` where there
/// is none, and with `QuantityInsufficient` where that slot holds more than
/// the quantity of `item`.
pub open spec fn remove_result(slots: Seq<Option<Item>>, item: Item) -> ContainerResult<()> {
    let found = first_of_kind(slots, item);
    if found >= slots.len() {
        Err(ContainerError::NotFound)
    } else if slots[found].unwrap().quantity() > item.quantity() {
        Err(ContainerError::QuantityInsufficient)
    } else {
        Ok(())
    }
}

/// Whether `remove` clears the slot that it finds: it does where the slot
/// holds exactly the quantity of `item`.
pub open spec fn remove_clears(slots: Seq<Option<Item>>, item: Item) -> bool {
    let found = first_of_kind(slots, item);
    remove_result(slots, item) is Ok && slots[found].unwrap().quantity() == item.quantity()
}

/// The slots after `remove`. Where the slot found holds less than the
/// quantity of `item`, it holds afterwards an item of the same kind whose
/// quantity is that of `item` less what the slot held.
pub open spec fn after_remove(slots: Seq<Option<Item>>, item: Item) -> Seq<Option<Item>> {
    let found = first_of_kind(slots, item);
    if remove_result(slots, item) is Err {
        slots
    } else if remove_clears(slots, item) {
        slots.update(found, None)
    } else {
        let held = slots[found].unwrap();
        slots.update(
            found,
            Some(Item::new(held.identifier(), (item.quantity() - held.quantity()) as usize)),
        )
    }
}

/// One slot of an inventory.
#[derive(Debug)]
enum InventorySlot {
    Empty,
    Item(Item),
}

impl InventorySlot {
    /// The item that the slot holds, if it holds one.
    spec fn held(self) -> Option<Item> {
        match self {
            InventorySlot::Empty => None,
            InventorySlot::Item(item) => Some(item),
        }
    }
}

impl Clone for InventorySlot {
    fn clone(&self) -> (copy: Self)
        ensures
            copy == *self,
    {
        match self {
            InventorySlot::Empty => InventorySlot::Empty,
            InventorySlot::Item(item) => InventorySlot::Item(item.clone()),
        }
    }
}

/// The model of a vector of slots.
spec fn held_items(items: Seq<InventorySlot>) -> Seq<Option<Item>> {
    Seq::new(items.len(), |i: int| items[i].held())
}

/// Writing a slot of the vector writes what it holds to that slot of the
/// model.
proof fn lemma_held_items_update(items: Seq<InventorySlot>, i: int, slot: InventorySlot)
    requires
        0 <= i < items.len(),
    ensures
        held_items(items.update(i, slot)) == held_items(items).update(i, slot.held()),
        filled_slots(held_items(items.update(i, slot))) == filled_slots(held_items(items))
            - occupancy(items[i].held()) + occupancy(slot.held()),
{
    assert(held_items(items.update(i, slot)) =~= held_items(items).update(i, slot.held()));
    lemma_filled_slots_update(held_items(items), i, slot.held());
}

/// Writes `slot` at the index `i`.
fn set_slot(items: &mut Vec<InventorySlot>, i: usize, slot: InventorySlot)
    requires
        i < old(items).len(),
    ensures
        final(items)@ == old(items)@.update(i as int, slot),
    no_unwind
{
    items[i] = slot;
}

/// Exchanges the slots at the indices `a` and `b`.
fn swap_slots(items: &mut Vec<InventorySlot>, a: usize, b: usize)
    requires
        a < old(items).len(),
        b < old(items).len(),
    ensures
        final(items)@ == old(items)@.update(a as int, old(items)@[b as int]).update(
            b as int,
            old(items)@[a as int],
        ),
    no_unwind
{
    if a != b {
        let mut moved = InventorySlot::Empty;
        core::mem::swap(&mut moved, &mut items[a]);
        core::mem::swap(&mut moved, &mut items[b]);
        items[a] = moved;
    }
    assert(items@ =~= old(items)@.update(a as int, old(items)@[b as int]).update(
        b as int,
        old(items)@[a as int],
    ));
}

/// A container of items with a fixed number of slots.
#[derive(Debug)]
pub struct Inventory {
    capacity: usize,
    item_count: usize,
    items: Vec<InventorySlot>,
}

impl Inventory {
    /// There are as many slots as the capacity says, and the count is not
    /// below the number of slots that hold an item.
    #[verifier::type_invariant]
    spec fn well_formed(&self) -> bool {
        &&& self.items@.len() == self.capacity
        &&& filled_slots(held_items(self.items@)) <= self.item_count
    }
}

impl Clone for Inventory {
    /// Returns an inventory with the same slots and the same count.
    fn clone(&self) -> (copy: Self)
        ensures
            copy.slots() == self.slots(),
            copy.occupied_count() == self.occupied_count(),
    {
        proof {
            use_type_invariant(self);
        }
        let items = self.items.clone();
        assert(items@ =~= self.items@);
        Inventory { capacity: self.capacity, item_count: self.item_count, items: items }
    }
}

impl Container<Item> for Inventory {
    closed spec fn slots(&self) -> Seq<Option<Item>> {
        held_items(self.items@)
    }

    closed spec fn occupied_count(&self) -> nat {
        self.item_count as nat
    }

    fn with_capacity(capacity: usize) -> (container: Self) {
        let mut items: Vec<InventorySlot> = Vec::new();
        items.resize(capacity, InventorySlot::Empty);
        proof {
            assert(held_items(items@) =~= all_empty::<Item>(capacity as nat));
            lemma_filled_slots_all_empty::<Item>(capacity as nat);
        }
        Inventory { capacity: capacity, item_count: 0, items: items }
    }

    fn capacity(&self) -> (capacity: usize) {
        proof {
            use_type_invariant(self);
        }
        self.capacity
    }

    fn count(&self) -> (count: usize) {
        proof {
            use_type_invariant(self);
        }
        self.item_count
    }

    fn contains(&self, item: &Item) -> (found: bool) {
        let mut i: usize = 0;
        while i < self.items.len()
            invariant
                i <= self.items.len(),
                forall|j: int| 0 <= j < i ==> (#[trigger] self.slots()[j]) != Some(*item),
            decreases self.items.len() - i,
        {
            if let InventorySlot::Item(held) = &self.items[i] {
                if *held == *item {
                    assert(self.slots()[i as int] == Some(*item));
                    return true;
                }
            }
            i += 1;
        }
        false
    }

    fn add(&mut self, item: Item) -> (res: ContainerResult<()>) {
        let mut i: usize = 0;
        while i < self.items.len()
            invariant
                *self == *old(self),
                has_empty(self.slots()) ==> self.item_count < usize::MAX,
                i <= self.items.len(),
                forall|j: int| 0 <= j < i ==> (#[trigger] self.slots()[j]) is Some,
            decreases self.items.len() - i,
        {
            if let InventorySlot::Empty = self.items[i] {
                proof {
                    use_type_invariant(&*self);
                    assert(self.slots()[i as int] is None);
                    lemma_first_where_is(self.slots(), is_vacant(), i as int);
                    lemma_held_items_update(self.items@, i as int, InventorySlot::Item(item));
                }
                self.item_count += 1;
                set_slot(&mut self.items, i, InventorySlot::Item(item));
                return Ok(());
            }
            i += 1;
        }
        Err(ContainerError::Full)
    }

    fn add_at(&mut self, item: Item, slot: usize) -> (res: ContainerResult<()>) {
        proof {
            use_type_invariant(&*self);
        }
        if slot >= self.capacity {
            return Err(ContainerError::IndexOutOfBounds);
        }
        proof {
            lemma_held_items_update(self.items@, slot as int, InventorySlot::Item(item));
        }
        self.item_count += 1;
        set_slot(&mut self.items, slot, InventorySlot::Item(item));
        Ok(())
    }

    fn remove(&mut self, item: &Item) -> (res: ContainerResult<()>)
        ensures
            res == remove_result(old(self).slots(), *item),
            final(self).slots() == after_remove(old(self).slots(), *item),
            final(self).occupied_count() == old(self).occupied_count() - if remove_clears(
                old(self).slots(),
                *item,
            ) {
                1nat
            } else {
                0nat
            },
    {
        let mut i: usize = 0;
        while i < self.items.len()
            invariant
                *self == *old(self),
                i <= self.items.len(),
                forall|j: int| 0 <= j < i ==> !holds_kind_of(*item)(#[trigger] self.slots()[j]),
            decreases self.items.len() - i,
        {
            if let InventorySlot::Item(held) = &self.items[i] {
                if held.identifier() == item.identifier() {
                    proof {
                        use_type_invariant(&*self);
                        assert(self.slots()[i as int] == Some(*held));
                        lemma_first_where_is(self.slots(), holds_kind_of(*item), i as int);
                    }
                    if held.quantity() > item.quantity() {
                        return Err(ContainerError::QuantityInsufficient);
                    }
                    let difference = item.quantity() - held.quantity();

                    if difference == 0 {
                        proof {
                            lemma_held_items_update(self.items@, i as int, InventorySlot::Empty);
                        }
                        set_slot(&mut self.items, i, InventorySlot::Empty);
                        self.item_count -= 1;
                    } else {
                        let new_item = Item::new(held.identifier(), difference);
                        proof {
                            lemma_held_items_update(
                                self.items@,
                                i as int,
                                InventorySlot::Item(new_item),
                            );
                        }
                        set_slot(&mut self.items, i, InventorySlot::Item(new_item));
                    }
                    return Ok(());
                }
            }
            i += 1;
        }
        proof {
            lemma_first_where_is(self.slots(), holds_kind_of(*item), i as int);
        }
        Err(ContainerError::NotFound)
    }

    fn remove_at(&mut self, slot: usize) -> (res: ContainerResult<()>) {
        proof {
            use_type_invariant(&*self);
        }
        if slot >= self.capacity {
            return Err(ContainerError::IndexOutOfBounds);
        }
        if let InventorySlot::Item(_) = self.items[slot] {
            proof {
                lemma_held_items_update(self.items@, slot as int, InventorySlot::Empty);
            }
            set_slot(&mut self.items, slot, InventorySlot::Empty);
            self.item_count -= 1;
            Ok(())
        } else {
            assert(self.slots().update(slot as int, None) =~= self.slots());
            Err(ContainerError::NotFound)
        }
    }

    fn get_at(&self, slot: usize) -> (res: ContainerResult<Item>) {
        proof {
            use_type_invariant(self);
        }
        if slot >= self.capacity {
            return Err(ContainerError::IndexOutOfBounds);
        }
        if let InventorySlot::Item(item) = &self.items[slot] {
            Ok(item.clone())
        } else {
            Err(ContainerError::NotFound)
        }
    }

    fn swap(&mut self, slot_a: usize, slot_b: usize) -> (res: ContainerResult<()>) {
        proof {
            use_type_invariant(&*self);
        }
        if slot_a >= self.capacity || slot_b >= self.capacity {
            return Err(ContainerError::IndexOutOfBounds);
        }
        proof {
            lemma_filled_slots_swapped(self.slots(), slot_a as int, slot_b as int);
            assert(held_items(
                self.items@.update(slot_a as int, self.items@[slot_b as int]).update(
                    slot_b as int,
                    self.items@[slot_a as int],
                ),
            ) =~= swapped(self.slots(), slot_a as int, slot_b as int));
        }
        swap_slots(&mut self.items, slot_a, slot_b);
        Ok(())
    }
}

} // verus!
