//! The item registry: the single source of truth for catalog entries,
//! and the resolution of raw identifier strings into typed references.

use vstd::prelude::*;

use crate::character::{Character, FileCharacter};
use crate::item::{Item, ItemIdentifier, ItemType};

verus! {

/// A registration conflict: the identifier is already taken.
///
/// Duplicate registration is rejected, never silently overwritten.
#[derive(Debug, Clone, Copy, PartialEq, Eq, Structural)]
pub enum RegistryError {
    DuplicateIdentifier,
}

/// The first entry carrying `id`, scanning front to back.
pub open spec fn lookup_in(items: Seq<ItemType>, id: Seq<char>) -> Option<ItemType>
    decreases items.len(),
{
    if items.len() == 0 {
        None
    } else if items[0].identifier@ == id {
        Some(items[0])
    } else {
        lookup_in(items.drop_first(), id)
    }
}

/// No two entries carry the same identifier.
pub open spec fn distinct_identifiers(items: Seq<ItemType>) -> bool {
    forall|i: int, j: int|
        #![trigger items[i], items[j]]
        0 <= i < j < items.len() ==> items[i].identifier@ != items[j].identifier@
}

/// What resolving `id` against `entries` yields: the entry itself when one
/// carries `id`, else a pending reference retaining `pending` (the original
/// identifier string).
pub open spec fn spec_resolve(entries: Seq<ItemType>, pending: ItemIdentifier) -> Item {
    match lookup_in(entries, pending@) {
        Some(entry) => Item::Concrete(entry),
        None => Item::Unresolved(pending),
    }
}

pub proof fn lemma_lookup_none_iff(items: Seq<ItemType>, id: Seq<char>)
    ensures
        lookup_in(items, id) is None <==> (forall|k: int|
            0 <= k < items.len() ==> #[trigger] items[k].identifier@ != id),
    decreases items.len(),
{
    if items.len() > 0 {
        lemma_lookup_none_iff(items.drop_first(), id);
        assert forall|k: int| 1 <= k < items.len() implies items[k] == items.drop_first()[k
            - 1] by {}
    }
}

/// Every identifier registered in a duplicate-free catalog looks up to
/// exactly the entry registered under it.
pub proof fn lemma_lookup_exact(items: Seq<ItemType>, k: int)
    requires
        distinct_identifiers(items),
        0 <= k < items.len(),
    ensures
        lookup_in(items, items[k].identifier@) == Some(items[k]),
    decreases items.len(),
{
    if k > 0 {
        assert(items[0].identifier@ != items[k].identifier@);
        lemma_lookup_exact(items.drop_first(), k - 1);
    }
}

/// An identifier that no entry carries looks up to nothing.
pub proof fn lemma_lookup_absent(items: Seq<ItemType>, id: Seq<char>)
    requires
        forall|k: int| 0 <= k < items.len() ==> #[trigger] items[k].identifier@ != id,
    ensures
        lookup_in(items, id) is None,
{
    lemma_lookup_none_iff(items, id);
}

proof fn lemma_lookup_skip_step(items: Seq<ItemType>, id: Seq<char>, i: int)
    requires
        0 <= i < items.len(),
        items[i].identifier@ != id,
    ensures
        lookup_in(items.skip(i), id) == lookup_in(items.skip(i + 1), id),
{
    assert(items.skip(i).drop_first() =~= items.skip(i + 1));
}

/// `items` with every entry dropped whose identifier an earlier entry
/// already carries.
pub open spec fn dedup_keep_first(items: Seq<ItemType>) -> Seq<ItemType>
    decreases items.len(),
{
    if items.len() == 0 {
        Seq::empty()
    } else {
        let prefix = dedup_keep_first(items.drop_last());
        if lookup_in(prefix, items.last().identifier@) is Some {
            prefix
        } else {
            prefix.push(items.last())
        }
    }
}

/// The catalog, keyed by identifier; identifiers are unique.
#[derive(Debug)]
pub struct ItemRegistry {
    items: Vec<ItemType>,
}

impl Clone for ItemRegistry {
    fn clone(&self) -> (r: Self)
        ensures
            r.entries() == self.entries(),
    {
        let r = ItemRegistry { items: self.items.clone() };
        proof {
            assert forall|i: int| 0 <= i < self.items@.len() implies r.items@[i]
                == self.items@[i] by {
                assert(vstd::pervasive::cloned::<ItemType>(self.items[i], r.items[i]));
            }
            assert(r.items@ =~= self.items@);
        }
        r
    }
}

impl ItemRegistry {
    /// The registered entries, in registration order.
    pub closed spec fn entries(self) -> Seq<ItemType> {
        self.items@
    }

    /// Well-formed: no identifier is registered twice.
    pub open spec fn wf(self) -> bool {
        distinct_identifiers(self.entries())
    }

    pub fn new() -> (r: Self)
        ensures
            r.entries() =~= Seq::<ItemType>::empty(),
            r.wf(),
    {
        Self { items: Vec::new() }
    }

    /// Registers an entry; rejects an identifier that is already taken.
    pub fn add(&mut self, item_type: ItemType) -> (r: Result<(), RegistryError>)
        requires
            old(self).wf(),
        ensures
            final(self).wf(),
            r is Ok <==> lookup_in(old(self).entries(), item_type.identifier@) is None,
            r is Ok ==> final(self).entries() =~= old(self).entries().push(item_type),
            r is Err ==> final(self).entries() == old(self).entries() && r == Err::<
                (),
                RegistryError,
            >(RegistryError::DuplicateIdentifier),
    {
        let found = self.get(item_type.identifier.clone());
        if found.is_some() {
            Err(RegistryError::DuplicateIdentifier)
        } else {
            proof {
                lemma_lookup_none_iff(self.entries(), item_type.identifier@);
            }
            self.items.push(item_type);
            Ok(())
        }
    }

    /// Builds a registry from loaded records: later records under an
    /// already-taken identifier are skipped, so a partial or repetitive
    /// load never aborts.
    pub fn from_items(items: Vec<ItemType>) -> (r: Self)
        ensures
            r.wf(),
            r.entries() =~= dedup_keep_first(items@),
    {
        let mut reg = ItemRegistry::new();
        let mut i: usize = 0;
        proof {
            assert(items@.take(0) =~= Seq::<ItemType>::empty());
        }
        while i < items.len()
            invariant
                i <= items@.len(),
                reg.wf(),
                reg.entries() =~= dedup_keep_first(items@.take(i as int)),
            decreases items@.len() - i,
        {
            proof {
                assert(items@.take(i + 1).drop_last() =~= items@.take(i as int));
                assert(items@.take(i + 1).last() == items@[i as int]);
            }
            let entry = items[i].clone();
            let added = reg.add(entry);
            proof {
                if added is Err {
                    assert(reg.entries() =~= dedup_keep_first(items@.take(i + 1)));
                }
            }
            i += 1;
        }
        proof {
            assert(items@.take(items@.len() as int) =~= items@);
        }
        reg
    }

    pub fn items(&self) -> (r: &[ItemType])
        ensures
            r@ == self.entries(),
    {
        self.items.as_slice()
    }

    /// Exact-match lookup; absence is a normal result, not an error.
    pub fn get(&self, key: ItemIdentifier) -> (r: Option<&ItemType>)
        ensures
            match r {
                Some(item) => lookup_in(self.entries(), key@) == Some(*item),
                None => lookup_in(self.entries(), key@) is None,
            },
    {
        let ghost entries = self.entries();
        proof {
            assert(entries.skip(0) =~= entries);
        }
        let mut i: usize = 0;
        while i < self.items.len()
            invariant
                0 <= i <= entries.len(),
                entries == self.entries(),
                lookup_in(entries, key@) == lookup_in(entries.skip(i as int), key@),
            decreases entries.len() - i,
        {
            if self.items[i].identifier == key {
                proof {
                    assert(entries.skip(i as int)[0] == entries[i as int]);
                }
                return Some(&self.items[i]);
            }
            proof {
                lemma_lookup_skip_step(entries, key@, i as int);
            }
            i += 1;
        }
        proof {
            assert(entries.skip(entries.len() as int) =~= Seq::<ItemType>::empty());
        }
        None
    }

    /// Exact-match lookup handing out the entry mutably. The borrow's final
    /// value is written back in place; changing the entry's identifier
    /// through it may break the registry's well-formedness, so callers that
    /// keep the identifier keep `wf` too.
    pub fn get_mut(&mut self, key: ItemIdentifier) -> (r: Option<&mut ItemType>)
        requires
            old(self).wf(),
        ensures
            lookup_in(old(self).entries(), key@) is None ==> r is None && *final(self) == *old(
                self),
            lookup_in(old(self).entries(), key@) matches Some(e) ==> (r matches Some(m) && *m == e
                && (exists|j: int|
                0 <= j < old(self).entries().len() && old(self).entries()[j] == e
                    && final(self).entries() == old(self).entries().update(j, *final(m)))),
    {
        let ghost entries = self.entries();
        proof {
            assert(entries.skip(0) =~= entries);
        }
        let mut i: usize = 0;
        while i < self.items.len()
            invariant
                i <= entries.len(),
                *self == *old(self),
                entries == self.entries(),
                lookup_in(entries, key@) == lookup_in(entries.skip(i as int), key@),
            decreases entries.len() - i,
        {
            if self.items[i].identifier == key {
                proof {
                    assert(entries.skip(i as int)[0] == entries[i as int]);
                }
                return Some(&mut self.items[i]);
            }
            proof {
                lemma_lookup_skip_step(entries, key@, i as int);
            }
            i += 1;
        }
        proof {
            assert(entries.skip(entries.len() as int) =~= Seq::<ItemType>::empty());
        }
        None
    }

    /// Turns an identifier into a reference; never fails. Identifiers known
    /// to the registry resolve to their entry, all others stay pending.
    pub fn resolve(&self, identifier: ItemIdentifier) -> (r: Item)
        ensures
            r == spec_resolve(self.entries(), identifier),
    {
        match self.get(identifier.clone()) {
            Some(item) => Item::Concrete(item.clone()),
            None => Item::Unresolved(identifier),
        }
    }

    /// Retries a pending reference against the current registry state;
    /// a resolved reference is returned unchanged.
    pub fn re_resolve(&self, reference: Item) -> (r: Item)
        ensures
            reference matches Item::Concrete(_) ==> r == reference,
            reference matches Item::Unresolved(id) ==> r == spec_resolve(self.entries(), id),
    {
        match reference {
            Item::Concrete(item) => Item::Concrete(item),
            Item::Unresolved(id) => self.resolve(id),
        }
    }

    /// Resolves a whole want-list, preserving input order.
    pub fn link_wishlist(&self, wish_list: Vec<ItemIdentifier>) -> (r: Vec<Item>)
        ensures
            r@.len() == wish_list@.len(),
            forall|k: int|
                0 <= k < r@.len() ==> #[trigger] r@[k] == spec_resolve(
                    self.entries(),
                    wish_list@[k],
                ),
    {
        let mut out: Vec<Item> = Vec::new();
        let mut i: usize = 0;
        while i < wish_list.len()
            invariant
                0 <= i <= wish_list@.len(),
                out@.len() == i as int,
                forall|k: int|
                    0 <= k < i as int ==> #[trigger] out@[k] == spec_resolve(
                        self.entries(),
                        wish_list@[k],
                    ),
            decreases wish_list@.len() - i,
        {
            out.push(self.resolve(wish_list[i].clone()));
            i += 1;
        }
        out
    }

    /// Links a loaded character record against the registry.
    pub fn link_character(&self, character: FileCharacter) -> (r: Character)
        ensures
            r.name@ == character.name@,
            r.wish_list@.len() == character.wish_list@.len(),
            forall|k: int|
                0 <= k < r.wish_list@.len() ==> #[trigger] r.wish_list@[k] == spec_resolve(
                    self.entries(),
                    character.wish_list@[k],
                ),
    {
        Character { name: character.name, wish_list: self.link_wishlist(character.wish_list) }
    }
}

} // verus!
