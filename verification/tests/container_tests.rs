use inventory::collections::{Container, ContainerError, ContainerResult, Inventory};
use inventory::entity::Item;

/// What every slot of `inv` holds, in index order.
fn contents(inv: &Inventory) -> Vec<Option<Item>> {
    let mut found: Vec<Option<Item>> = Vec::new();
    for slot in 0..inv.capacity() {
        found.push(inv.get_at(slot).ok());
    }
    found
}

#[test]
fn fresh_inventory_has_empty_slots() {
    for capacity in [0usize, 1, 2, 5, 64] {
        let inv = Inventory::with_capacity(capacity);
        assert_eq!(inv.capacity(), capacity);
        assert_eq!(inv.count(), 0);
        for slot in 0..capacity {
            assert_eq!(inv.get_at(slot), Err(ContainerError::NotFound));
        }
        assert_eq!(
            inv.get_at(capacity),
            Err(ContainerError::IndexOutOfBounds)
        );
        assert!(!inv.contains(&Item::new(0, 0)));
    }
}

#[test]
fn inventory_without_slots_is_full() {
    let mut inv = Inventory::with_capacity(0);
    assert_eq!(inv.add(Item::new(1, 1)), Err(ContainerError::Full));
    assert_eq!(
        inv.add_at(Item::new(1, 1), 0),
        Err(ContainerError::IndexOutOfBounds)
    );
    assert_eq!(inv.remove(&Item::new(1, 1)), Err(ContainerError::NotFound));
    assert_eq!(inv.remove_at(0), Err(ContainerError::IndexOutOfBounds));
    assert_eq!(inv.swap(0, 0), Err(ContainerError::IndexOutOfBounds));
    assert_eq!(inv.count(), 0);
    assert_eq!(inv.capacity(), 0);
}

#[test]
fn add_fills_slots_in_index_order() {
    let mut inv = Inventory::with_capacity(4);
    for id in 0..4usize {
        assert_eq!(inv.add(Item::new(id + 100, id + 1)), Ok(()));
    }
    assert_eq!(
        contents(&inv),
        vec![
            Some(Item::new(100, 1)),
            Some(Item::new(101, 2)),
            Some(Item::new(102, 3)),
            Some(Item::new(103, 4)),
        ]
    );
    assert_eq!(inv.count(), 4);
}

#[test]
fn add_takes_the_first_empty_slot() {
    let mut inv = Inventory::with_capacity(5);
    assert_eq!(inv.add_at(Item::new(1, 1), 0), Ok(()));
    assert_eq!(inv.add_at(Item::new(2, 1), 1), Ok(()));
    assert_eq!(inv.add_at(Item::new(4, 1), 3), Ok(()));

    assert_eq!(inv.add(Item::new(9, 9)), Ok(()));
    assert_eq!(
        contents(&inv),
        vec![
            Some(Item::new(1, 1)),
            Some(Item::new(2, 1)),
            Some(Item::new(9, 9)),
            Some(Item::new(4, 1)),
            None,
        ]
    );

    assert_eq!(inv.add(Item::new(8, 8)), Ok(()));
    assert_eq!(inv.get_at(4), Ok(Item::new(8, 8)));
    assert_eq!(inv.count(), 5);
}

#[test]
fn add_reuses_a_cleared_slot() {
    let mut inv = Inventory::with_capacity(3);
    for id in 0..3usize {
        assert_eq!(inv.add(Item::new(id, 1)), Ok(()));
    }
    assert_eq!(inv.remove_at(1), Ok(()));
    assert_eq!(inv.add(Item::new(7, 7)), Ok(()));
    assert_eq!(
        contents(&inv),
        vec![
            Some(Item::new(0, 1)),
            Some(Item::new(7, 7)),
            Some(Item::new(2, 1)),
        ]
    );
    assert_eq!(inv.count(), 3);
}

#[test]
fn add_gives_an_item_of_a_held_kind_its_own_slot() {
    let mut inv = Inventory::with_capacity(3);
    assert_eq!(inv.add(Item::new(5, 2)), Ok(()));
    assert_eq!(inv.add(Item::new(5, 3)), Ok(()));
    assert_eq!(
        contents(&inv),
        vec![Some(Item::new(5, 2)), Some(Item::new(5, 3)), None]
    );
    assert_eq!(inv.count(), 2);
}

#[test]
fn add_to_a_full_inventory_changes_nothing() {
    let mut inv = Inventory::with_capacity(2);
    assert_eq!(inv.add(Item::new(1, 1)), Ok(()));
    assert_eq!(inv.add(Item::new(2, 2)), Ok(()));
    let before = contents(&inv);

    assert_eq!(inv.add(Item::new(3, 3)), Err(ContainerError::Full));
    assert_eq!(inv.add(Item::new(1, 1)), Err(ContainerError::Full));
    assert_eq!(contents(&inv), before);
    assert_eq!(inv.count(), 2);
}

#[test]
fn add_at_then_get_at_gives_the_item_back() {
    let mut inv = Inventory::with_capacity(4);
    for slot in [3usize, 0, 2, 1] {
        let item = Item::new(slot * 10, slot + 7);
        assert_eq!(inv.add_at(item.clone(), slot), Ok(()));
        assert_eq!(inv.get_at(slot), Ok(item));
    }
}

#[test]
fn add_at_overwrites_and_still_counts() {
    let mut inv = Inventory::with_capacity(2);
    assert_eq!(inv.add_at(Item::new(1, 1), 0), Ok(()));
    assert_eq!(inv.count(), 1);

    assert_eq!(inv.add_at(Item::new(2, 5), 0), Ok(()));
    assert_eq!(inv.get_at(0), Ok(Item::new(2, 5)));
    assert_eq!(inv.get_at(1), Err(ContainerError::NotFound));
    assert!(!inv.contains(&Item::new(1, 1)));
    assert_eq!(inv.count(), 2);

    // The count stays one ahead of the slots that are filled.
    assert_eq!(inv.remove_at(0), Ok(()));
    assert_eq!(inv.count(), 1);
    assert_eq!(contents(&inv), vec![None, None]);
}

#[test]
fn add_at_rejects_a_slot_out_of_range() {
    let mut inv = Inventory::with_capacity(3);
    assert_eq!(
        inv.add_at(Item::new(1, 1), 3),
        Err(ContainerError::IndexOutOfBounds)
    );
    assert_eq!(
        inv.add_at(Item::new(1, 1), usize::MAX),
        Err(ContainerError::IndexOutOfBounds)
    );
    assert_eq!(inv.count(), 0);
    assert_eq!(contents(&inv), vec![None, None, None]);
    assert_eq!(inv.add_at(Item::new(1, 1), 2), Ok(()));
}

#[test]
fn contains_asks_for_identifier_and_quantity() {
    let mut inv = Inventory::with_capacity(3);
    assert_eq!(inv.add_at(Item::new(4, 2), 1), Ok(()));

    assert!(inv.contains(&Item::new(4, 2)));
    assert!(!inv.contains(&Item::new(4, 3)));
    assert!(!inv.contains(&Item::new(5, 2)));

    assert_eq!(inv.add_at(Item::new(5, 2), 2), Ok(()));
    assert!(inv.contains(&Item::new(5, 2)));
    assert!(inv.contains(&Item::new(4, 2)));

    assert_eq!(inv.remove_at(1), Ok(()));
    assert!(!inv.contains(&Item::new(4, 2)));
}

#[test]
fn remove_of_a_kind_not_held_fails() {
    let mut inv = Inventory::with_capacity(3);
    assert_eq!(inv.remove(&Item::new(1, 1)), Err(ContainerError::NotFound));

    assert_eq!(inv.add(Item::new(1, 1)), Ok(()));
    assert_eq!(inv.remove(&Item::new(2, 1)), Err(ContainerError::NotFound));
    assert_eq!(contents(&inv), vec![Some(Item::new(1, 1)), None, None]);
    assert_eq!(inv.count(), 1);
}

#[test]
fn remove_fails_where_the_slot_holds_more() {
    let mut inv = Inventory::with_capacity(2);
    assert_eq!(inv.add(Item::new(3, 5)), Ok(()));

    assert_eq!(
        inv.remove(&Item::new(3, 4)),
        Err(ContainerError::QuantityInsufficient)
    );
    assert_eq!(
        inv.remove(&Item::new(3, 0)),
        Err(ContainerError::QuantityInsufficient)
    );
    assert_eq!(contents(&inv), vec![Some(Item::new(3, 5)), None]);
    assert_eq!(inv.count(), 1);
}

#[test]
fn remove_of_the_held_quantity_clears_the_slot() {
    let mut inv = Inventory::with_capacity(2);
    assert_eq!(inv.add_at(Item::new(3, 5), 1), Ok(()));

    assert_eq!(inv.remove(&Item::new(3, 5)), Ok(()));
    assert_eq!(contents(&inv), vec![None, None]);
    assert_eq!(inv.count(), 0);
    assert_eq!(inv.remove(&Item::new(3, 5)), Err(ContainerError::NotFound));
}

#[test]
fn remove_of_more_than_held_leaves_the_difference() {
    let mut inv = Inventory::with_capacity(2);
    assert_eq!(inv.add(Item::new(3, 2)), Ok(()));

    assert_eq!(inv.remove(&Item::new(3, 5)), Ok(()));
    assert_eq!(contents(&inv), vec![Some(Item::new(3, 3)), None]);
    assert_eq!(inv.count(), 1);

    assert_eq!(inv.remove(&Item::new(3, usize::MAX)), Ok(()));
    assert_eq!(inv.get_at(0), Ok(Item::new(3, usize::MAX - 3)));
    assert_eq!(inv.count(), 1);
}

#[test]
fn remove_looks_at_the_first_slot_of_the_kind_only() {
    let mut inv = Inventory::with_capacity(4);
    assert_eq!(inv.add_at(Item::new(9, 1), 0), Ok(()));
    assert_eq!(inv.add_at(Item::new(3, 8), 1), Ok(()));
    assert_eq!(inv.add_at(Item::new(3, 2), 3), Ok(()));

    // Slot 1 holds more than two, and slot 3 is not looked at.
    assert_eq!(
        inv.remove(&Item::new(3, 2)),
        Err(ContainerError::QuantityInsufficient)
    );
    assert_eq!(inv.count(), 3);

    assert_eq!(inv.remove(&Item::new(3, 8)), Ok(()));
    assert_eq!(
        contents(&inv),
        vec![
            Some(Item::new(9, 1)),
            None,
            None,
            Some(Item::new(3, 2)),
        ]
    );
    assert_eq!(inv.count(), 2);

    assert_eq!(inv.remove(&Item::new(3, 2)), Ok(()));
    assert_eq!(
        contents(&inv),
        vec![Some(Item::new(9, 1)), None, None, None]
    );
    assert_eq!(inv.count(), 1);
}

#[test]
fn remove_at_fails_on_a_slot_just_cleared() {
    let mut inv = Inventory::with_capacity(3);
    assert_eq!(inv.add_at(Item::new(1, 1), 2), Ok(()));
    assert_eq!(inv.remove_at(2), Ok(()));
    assert_eq!(inv.remove_at(2), Err(ContainerError::NotFound));
    assert_eq!(inv.count(), 0);

    assert_eq!(inv.add(Item::new(4, 4)), Ok(()));
    assert_eq!(inv.remove(&Item::new(4, 4)), Ok(()));
    assert_eq!(inv.remove_at(0), Err(ContainerError::NotFound));
}

#[test]
fn remove_at_rejects_a_slot_out_of_range() {
    let mut inv = Inventory::with_capacity(3);
    assert_eq!(inv.add(Item::new(1, 1)), Ok(()));
    assert_eq!(inv.remove_at(3), Err(ContainerError::IndexOutOfBounds));
    assert_eq!(
        inv.remove_at(usize::MAX),
        Err(ContainerError::IndexOutOfBounds)
    );
    assert_eq!(inv.count(), 1);
    assert_eq!(contents(&inv), vec![Some(Item::new(1, 1)), None, None]);
}

#[test]
fn get_at_leaves_the_item_in_its_slot() {
    let mut inv = Inventory::with_capacity(2);
    assert_eq!(inv.add(Item::new(6, 6)), Ok(()));
    assert_eq!(inv.get_at(0), Ok(Item::new(6, 6)));
    assert_eq!(inv.get_at(0), Ok(Item::new(6, 6)));
    assert_eq!(inv.get_at(1), Err(ContainerError::NotFound));
    assert_eq!(inv.get_at(2), Err(ContainerError::IndexOutOfBounds));
    assert_eq!(inv.count(), 1);
}

#[test]
fn swap_twice_restores_the_slots() {
    for a in 0..4usize {
        for b in 0..4usize {
            let mut inv = Inventory::with_capacity(4);
            assert_eq!(inv.add_at(Item::new(10, 1), 0), Ok(()));
            assert_eq!(inv.add_at(Item::new(12, 3), 2), Ok(()));
            assert_eq!(inv.add_at(Item::new(13, 4), 3), Ok(()));
            let before = contents(&inv);

            assert_eq!(inv.swap(a, b), Ok(()));
            let mut exchanged = before.clone();
            exchanged.swap(a, b);
            assert_eq!(contents(&inv), exchanged);
            assert_eq!(inv.count(), 3);

            assert_eq!(inv.swap(a, b), Ok(()));
            assert_eq!(contents(&inv), before);
            assert_eq!(inv.count(), 3);
        }
    }
}

#[test]
fn swap_of_empty_slots_succeeds() {
    let mut inv = Inventory::with_capacity(3);
    assert_eq!(inv.swap(0, 2), Ok(()));
    assert_eq!(inv.swap(1, 1), Ok(()));
    assert_eq!(contents(&inv), vec![None, None, None]);
    assert_eq!(inv.count(), 0);
}

#[test]
fn swap_rejects_either_slot_out_of_range() {
    let mut inv = Inventory::with_capacity(2);
    assert_eq!(inv.add(Item::new(1, 1)), Ok(()));
    assert_eq!(inv.swap(2, 0), Err(ContainerError::IndexOutOfBounds));
    assert_eq!(inv.swap(0, 2), Err(ContainerError::IndexOutOfBounds));
    assert_eq!(inv.swap(7, 9), Err(ContainerError::IndexOutOfBounds));
    assert_eq!(contents(&inv), vec![Some(Item::new(1, 1)), None]);
    assert_eq!(inv.count(), 1);
}

#[test]
fn clone_is_a_container_of_its_own() {
    let mut inv = Inventory::with_capacity(2);
    assert_eq!(inv.add(Item::new(1, 1)), Ok(()));
    let mut copy = inv.clone();
    assert_eq!(contents(&copy), contents(&inv));
    assert_eq!(copy.count(), 1);
    assert_eq!(copy.capacity(), 2);

    assert_eq!(copy.add(Item::new(2, 2)), Ok(()));
    assert_eq!(contents(&inv), vec![Some(Item::new(1, 1)), None]);
    assert_eq!(inv.count(), 1);
    assert_eq!(copy.count(), 2);
}

#[test]
fn debug_shows_the_slots() {
    let mut inv = Inventory::with_capacity(2);
    assert_eq!(
        format!("{:?}", inv),
        "Inventory { capacity: 2, item_count: 0, items: [Empty, Empty] }"
    );
    assert_eq!(inv.add_at(Item::new(10, 1), 1), Ok(()));
    assert_eq!(
        format!("{:?}", inv),
        "Inventory { capacity: 2, item_count: 1, items: [Empty, Item(Item { identifier: 10, quantity: 1 })] }"
    );
}

#[test]
fn errors_compare_and_print() {
    let full: ContainerResult<()> = Err(ContainerError::Full);
    assert_eq!(full, Err(ContainerError::Full));
    assert_ne!(ContainerError::Full, ContainerError::NotFound);
    assert_ne!(
        ContainerError::IndexOutOfBounds,
        ContainerError::QuantityInsufficient
    );
    assert_eq!(format!("{:?}", ContainerError::Full), "Full");
    assert_eq!(format!("{:?}", ContainerError::NotFound), "NotFound");
    assert_eq!(
        format!("{:?}", ContainerError::IndexOutOfBounds),
        "IndexOutOfBounds"
    );
    assert_eq!(
        format!("{:?}", ContainerError::QuantityInsufficient),
        "QuantityInsufficient"
    );
}
