//! The campaign: the top-level container that owns the registry, the
//! loaded records and the linked characters and shops.

use vstd::prelude::*;

use crate::character::{Character, FileCharacter};
use crate::item::ItemType;
use crate::registry::{spec_resolve, ItemRegistry};
use crate::shop::{FileShop, Shop};

verus! {

/// The campaign metadata record as stored on disk.
#[derive(Debug)]
pub struct FileMeta {
    pub name: String,
}

impl Clone for FileMeta {
    fn clone(&self) -> (r: Self)
        ensures
            r == *self,
    {
        FileMeta { name: self.name.clone() }
    }
}

/// The version tag of the on-disk campaign layout.
#[derive(Debug, Clone, Copy, PartialEq, Eq, Structural)]
pub enum FileStorageVersion {
    V1,
}

/// `chars` is `files` linked element by element against `entries`: names
/// are kept, and every want-list entry is resolved in input order.
pub open spec fn linked_characters(
    entries: Seq<ItemType>,
    files: Seq<FileCharacter>,
    chars: Seq<Character>,
) -> bool {
    &&& chars.len() == files.len()
    &&& forall|i: int|
        0 <= i < chars.len() ==> (#[trigger] chars[i]).name@ == files[i].name@
    &&& forall|i: int|
        0 <= i < chars.len() ==> (#[trigger] chars[i]).wish_list@.len()
            == files[i].wish_list@.len()
    &&& forall|i: int, k: int|
        0 <= i < chars.len() && 0 <= k < chars[i].wish_list@.len()
            ==> (#[trigger] chars[i].wish_list@[k]) == spec_resolve(
            entries,
            files[i].wish_list@[k],
        )
}

/// A campaign in memory: its characters linked against the registry.
pub struct Campaign {
    pub name: String,
    pub characters: Vec<Character>,
    pub shops: Vec<Shop>,
}

impl Campaign {
    /// Links every loaded character record against the registry; the
    /// characters keep their input order.
    pub fn from_files(
        meta: FileMeta,
        characters: Vec<FileCharacter>,
        registry: &ItemRegistry,
    ) -> (r: Self)
        ensures
            r.name@ == meta.name@,
            linked_characters(registry.entries(), characters@, r.characters@),
            r.shops@.len() == 0,
    {
        let mut linked: Vec<Character> = Vec::new();
        let mut i: usize = 0;
        while i < characters.len()
            invariant
                i <= characters@.len(),
                linked@.len() == i as int,
                linked_characters(
                    registry.entries(),
                    characters@.take(i as int),
                    linked@,
                ),
            decreases characters@.len() - i,
        {
            linked.push(registry.link_character(characters[i].clone()));
            proof {
                assert(characters@.take(i + 1).drop_last() =~= characters@.take(i as int));
            }
            i += 1;
        }
        proof {
            assert(characters@.take(characters@.len() as int) =~= characters@);
        }
        Self { name: meta.name, characters: linked, shops: Vec::new() }
    }
}

/// The loaded, unlinked contents of a campaign folder.
pub struct CampaignFolder {
    pub meta: FileMeta,
    pub item_registry: ItemRegistry,
    pub characters: Vec<FileCharacter>,
    pub shops: Vec<FileShop>,
}

impl CampaignFolder {
    /// An empty campaign under a fresh name.
    pub fn empty(name: String) -> (r: Self)
        ensures
            r.meta.name@ == name@,
            r.item_registry.entries() =~= Seq::<ItemType>::empty(),
            r.characters@.len() == 0,
            r.shops@.len() == 0,
    {
        Self {
            meta: FileMeta { name },
            item_registry: ItemRegistry::new(),
            characters: Vec::new(),
            shops: Vec::new(),
        }
    }

    /// The linked campaign, and the registry it borrows nothing from:
    /// references carry identifiers, so the two live independently.
    pub fn destructure(&self) -> (r: (Campaign, &ItemRegistry))
        ensures
            r.0.name@ == self.meta.name@,
            linked_characters(self.item_registry.entries(), self.characters@, r.0.characters@),
            r.0.shops@.len() == 0,
            r.1.entries() == self.item_registry.entries(),
    {
        let files = self.characters.clone();
        proof {
            assert forall|i: int| 0 <= i < files@.len() implies (#[trigger] files@[i]).name@
                == self.characters@[i].name@ && files@[i].wish_list@
                == self.characters@[i].wish_list@ by {
                assert(vstd::pervasive::cloned::<FileCharacter>(self.characters[i], files[i]));
            }
        }
        let campaign = Campaign::from_files(self.meta.clone(), files, &self.item_registry);
        (campaign, &self.item_registry)
    }
}

} // verus!
