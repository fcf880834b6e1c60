//! An item: a kind, given by its identifier, and a quantity of that kind.

use std::cmp::Ordering;
use vstd::prelude::*;
use vstd::std_specs::cmp::PartialOrdSpecImpl;

verus! {

/// A quantity of one kind of thing.
///
/// An item never changes once built: a different quantity is a new item.
/// Two items are equal when both fields are; they are of the same kind when
/// their identifiers are equal.
#[derive(Debug, PartialEq, Eq, Structural)]
pub struct Item {
    identifier: usize,
    quantity: usize,
}

impl Item {
    /// The identifier of the item's kind.
    pub closed spec fn spec_identifier(&self) -> usize {
        self.identifier
    }

    /// How many of its kind the item stands for.
    pub closed spec fn spec_quantity(&self) -> usize {
        self.quantity
    }

    /// The item of the kind `identifier` with the quantity `quantity`.
    pub closed spec fn spec_new(identifier: usize, quantity: usize) -> Item {
        Item { identifier: identifier, quantity: quantity }
    }

    /// Whether `self` and `other` are of one kind.
    pub open spec fn same_kind(&self, other: &Item) -> bool {
        self.identifier() == other.identifier()
    }

    /// Builds the item of the kind `identifier` with the quantity `quantity`.
    #[verifier::when_used_as_spec(spec_new)]
    pub fn new(identifier: usize, quantity: usize) -> (item: Self)
        ensures
            item == Item::spec_new(identifier, quantity),
            item.identifier() == identifier,
            item.quantity() == quantity,
    {
        Item { identifier: identifier, quantity: quantity }
    }

    /// Returns the identifier of the item's kind.
    #[verifier::when_used_as_spec(spec_identifier)]
    pub fn identifier(&self) -> (identifier: usize)
        ensures
            identifier == self.spec_identifier(),
    {
        self.identifier
    }

    /// Returns the item's quantity.
    #[verifier::when_used_as_spec(spec_quantity)]
    pub fn quantity(&self) -> (quantity: usize)
        ensures
            quantity == self.spec_quantity(),
    {
        self.quantity
    }

    /// An item has the identifier and the quantity that it was built with.
    pub proof fn lemma_new_fields(identifier: usize, quantity: usize)
        ensures
            Item::new(identifier, quantity).identifier() == identifier,
            Item::new(identifier, quantity).quantity() == quantity,
    {
    }

    /// An item is determined by its identifier and its quantity.
    pub proof fn lemma_equal_by_fields(a: Item, b: Item)
        requires
            a.identifier() == b.identifier(),
            a.quantity() == b.quantity(),
        ensures
            a == b,
    {
    }
}

impl Clone for Item {
    /// Returns an item equal to this one.
    fn clone(&self) -> (copy: Self)
        ensures
            copy == *self,
    {
        Item { identifier: self.identifier, quantity: self.quantity }
    }
}

impl PartialOrd for Item {
    /// Orders by identifier, and among equal identifiers by quantity.
    fn partial_cmp(&self, other: &Item) -> (order: Option<Ordering>) {
        if self.identifier < other.identifier {
            Some(Ordering::Less)
        } else if self.identifier > other.identifier {
            Some(Ordering::Greater)
        } else if self.quantity < other.quantity {
            Some(Ordering::Less)
        } else if self.quantity > other.quantity {
            Some(Ordering::Greater)
        } else {
            Some(Ordering::Equal)
        }
    }
}

impl PartialOrdSpecImpl for Item {
    open spec fn obeys_partial_cmp_spec() -> bool {
        true
    }

    open spec fn partial_cmp_spec(&self, other: &Item) -> Option<Ordering> {
        if self.identifier() < other.identifier() {
            Some(Ordering::Less)
        } else if self.identifier() > other.identifier() {
            Some(Ordering::Greater)
        } else if self.quantity() < other.quantity() {
            Some(Ordering::Less)
        } else if self.quantity() > other.quantity() {
            Some(Ordering::Greater)
        } else {
            Some(Ordering::Equal)
        }
    }
}

} // verus!
