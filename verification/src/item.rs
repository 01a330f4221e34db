//! Catalog entries: immutable descriptions of purchasable item types,
//! and references to them that are either resolved or still pending.

use vstd::prelude::*;
use vstd::string::*;

verus! {

pub type ItemIdentifier = String;

/// A reference to a catalog item: either resolved to the entry itself or
/// pending, retaining the exact identifier string for a later re-link.
#[derive(Debug, PartialEq)]
pub enum Item {
    Unresolved(ItemIdentifier),
    Concrete(ItemType),
}

impl Clone for Item {
    fn clone(&self) -> (r: Self)
        ensures
            r == *self,
    {
        match self {
            Item::Unresolved(id) => Item::Unresolved(id.clone()),
            Item::Concrete(item) => Item::Concrete(item.clone()),
        }
    }
}

/// One purchasable item definition, owned by the registry.
#[derive(Debug, PartialEq)]
pub struct ItemType {
    pub identifier: ItemIdentifier,
    pub name: String,
    pub details: String,
    pub rarity: Rarity,
    pub category: ItemCategory,
}

impl Clone for ItemType {
    fn clone(&self) -> (r: Self)
        ensures
            r == *self,
    {
        ItemType {
            identifier: self.identifier.clone(),
            name: self.name.clone(),
            details: self.details.clone(),
            rarity: self.rarity,
            category: self.category,
        }
    }
}

impl ItemType {
    /// A new entry whose identifier is its display name.
    pub fn new(name: String, rarity: Rarity, category: ItemCategory, details: String) -> (r: Self)
        ensures
            r.identifier@ == name@,
            r.name@ == name@,
            r.details@ == details@,
            r.rarity == rarity,
            r.category == category,
    {
        Self { identifier: name.clone(), name, rarity, category, details }
    }
}

/// The closed set of rarity tiers.
#[derive(Debug, Clone, Copy, PartialEq, Eq, Structural)]
pub enum Rarity {
    Common,
    Uncommon,
    Rare,
    VeryRare,
    Legendary,
    Artifact,
}

/// The closed set of category tags.
#[derive(Debug, Clone, Copy, PartialEq, Eq, Structural)]
pub enum ItemCategory {
    WondrousItem,
    SimpleWeapon,
    Wand,
}

/// The one-letter symbol shown for each rarity tier.
pub open spec fn symbol_of(r: Rarity) -> Seq<char> {
    match r {
        Rarity::Common => "C"@,
        Rarity::Uncommon => "U"@,
        Rarity::Rare => "R"@,
        Rarity::VeryRare => "V"@,
        Rarity::Legendary => "L"@,
        Rarity::Artifact => "A"@,
    }
}

/// The display name of each rarity tier.
pub open spec fn rarity_name_of(r: Rarity) -> Seq<char> {
    match r {
        Rarity::Common => "Common"@,
        Rarity::Uncommon => "Uncommon"@,
        Rarity::Rare => "Rare"@,
        Rarity::VeryRare => "Very Rare"@,
        Rarity::Legendary => "Legendary"@,
        Rarity::Artifact => "Artifact"@,
    }
}

/// The display name of each category tag.
pub open spec fn category_name_of(c: ItemCategory) -> Seq<char> {
    match c {
        ItemCategory::WondrousItem => "Wondrous Item"@,
        ItemCategory::SimpleWeapon => "Simple Weapon"@,
        ItemCategory::Wand => "Wand"@,
    }
}

/// The rarity tier named by a string, if any.
pub open spec fn spec_rarity_from_name(s: Seq<char>) -> Option<Rarity> {
    if s == "Common"@ {
        Some(Rarity::Common)
    } else if s == "Uncommon"@ {
        Some(Rarity::Uncommon)
    } else if s == "Rare"@ {
        Some(Rarity::Rare)
    } else if s == "Very Rare"@ {
        Some(Rarity::VeryRare)
    } else if s == "Legendary"@ {
        Some(Rarity::Legendary)
    } else if s == "Artifact"@ {
        Some(Rarity::Artifact)
    } else {
        None
    }
}

/// The category tag named by a string, if any.
pub open spec fn spec_category_from_name(s: Seq<char>) -> Option<ItemCategory> {
    if s == "Wondrous Item"@ {
        Some(ItemCategory::WondrousItem)
    } else if s == "Simple Weapons"@ {
        Some(ItemCategory::SimpleWeapon)
    } else if s == "Wand"@ {
        Some(ItemCategory::Wand)
    } else {
        None
    }
}

impl Rarity {
    pub fn as_symbol(&self) -> (r: String)
        ensures
            r@ == symbol_of(*self),
    {
        match self {
            Rarity::Common => String::from_str("C"),
            Rarity::Uncommon => String::from_str("U"),
            Rarity::Artifact => String::from_str("A"),
            Rarity::Rare => String::from_str("R"),
            Rarity::VeryRare => String::from_str("V"),
            Rarity::Legendary => String::from_str("L"),
        }
    }

    pub fn as_string(&self) -> (r: String)
        ensures
            r@ == rarity_name_of(*self),
    {
        match self {
            Rarity::Common => String::from_str("Common"),
            Rarity::Uncommon => String::from_str("Uncommon"),
            Rarity::Rare => String::from_str("Rare"),
            Rarity::VeryRare => String::from_str("Very Rare"),
            Rarity::Legendary => String::from_str("Legendary"),
            Rarity::Artifact => String::from_str("Artifact"),
        }
    }

    /// The tier named by `name`, if it names one.
    pub fn from_name(name: &str) -> (r: Option<Rarity>)
        ensures
            r == spec_rarity_from_name(name@),
    {
        let n = String::from_str(name);
        if n == String::from_str("Common") {
            Some(Rarity::Common)
        } else if n == String::from_str("Uncommon") {
            Some(Rarity::Uncommon)
        } else if n == String::from_str("Rare") {
            Some(Rarity::Rare)
        } else if n == String::from_str("Very Rare") {
            Some(Rarity::VeryRare)
        } else if n == String::from_str("Legendary") {
            Some(Rarity::Legendary)
        } else if n == String::from_str("Artifact") {
            Some(Rarity::Artifact)
        } else {
            None
        }
    }
}

impl ItemCategory {
    pub fn as_string(&self) -> (r: String)
        ensures
            r@ == category_name_of(*self),
    {
        match self {
            ItemCategory::WondrousItem => String::from_str("Wondrous Item"),
            ItemCategory::SimpleWeapon => String::from_str("Simple Weapon"),
            ItemCategory::Wand => String::from_str("Wand"),
        }
    }

    /// The tag named by `name`, if it names one.
    pub fn from_name(name: &str) -> (r: Option<ItemCategory>)
        ensures
            r == spec_category_from_name(name@),
    {
        let n = String::from_str(name);
        if n == String::from_str("Wondrous Item") {
            Some(ItemCategory::WondrousItem)
        } else if n == String::from_str("Simple Weapons") {
            Some(ItemCategory::SimpleWeapon)
        } else if n == String::from_str("Wand") {
            Some(ItemCategory::Wand)
        } else {
            None
        }
    }
}

} // verus!
