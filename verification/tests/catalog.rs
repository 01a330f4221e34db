use dnd_simp::campaign::{Campaign, CampaignFolder, FileMeta};
use dnd_simp::character::FileCharacter;
use dnd_simp::economy::Economy;
use dnd_simp::item::{Item, ItemCategory, ItemType, Rarity};
use dnd_simp::registry::{ItemRegistry, RegistryError};

fn entry(name: &str, rarity: Rarity) -> ItemType {
    ItemType::new(
        name.to_string(),
        rarity,
        ItemCategory::WondrousItem,
        format!("a {name}"),
    )
}

#[test]
fn new_campaign_is_empty() {
    let e = CampaignFolder::empty("New Campaign".into());
    assert_eq!(e.shops.len(), 0)
}

#[test]
fn campaign_new_campaign_is_empty() {
    let e = CampaignFolder::empty("New Campaign".into());
    assert_eq!(e.shops.len(), 0)
}

#[test]
fn new_economy_is_empty() {
    let e = Economy::new();
    assert_eq!(e.get_shops().len(), 0)
}

#[test]
fn lookup_returns_the_registered_entry() {
    let mut reg = ItemRegistry::new();
    let potion = entry("potion", Rarity::Common);
    assert!(reg.add(potion.clone()).is_ok());
    assert_eq!(reg.get("potion".to_string()), Some(&potion));
    assert_eq!(reg.get("ring".to_string()), None);
}

#[test]
fn duplicate_registration_is_rejected() {
    let mut reg = ItemRegistry::new();
    assert!(reg.add(entry("potion", Rarity::Common)).is_ok());
    let second = reg.add(entry("potion", Rarity::Rare));
    assert_eq!(second, Err(RegistryError::DuplicateIdentifier));
    // the first registration is kept
    assert_eq!(reg.get("potion".to_string()).unwrap().rarity, Rarity::Common);
    assert_eq!(reg.items().len(), 1);
}

#[test]
fn get_mut_edits_the_entry_in_place() {
    let mut reg = ItemRegistry::new();
    assert!(reg.add(entry("potion", Rarity::Common)).is_ok());
    assert!(reg.get_mut("ring".to_string()).is_none());
    let found = reg.get_mut("potion".to_string()).expect("registered entry");
    found.rarity = Rarity::Rare;
    assert_eq!(reg.get("potion".to_string()).unwrap().rarity, Rarity::Rare);
}

#[test]
fn from_items_keeps_the_first_of_each_identifier() {
    let reg = ItemRegistry::from_items(vec![
        entry("potion", Rarity::Common),
        entry("wand", Rarity::Rare),
        entry("potion", Rarity::Legendary),
    ]);
    assert_eq!(reg.items().len(), 2);
    assert_eq!(reg.get("potion".to_string()).unwrap().rarity, Rarity::Common);
}

#[test]
fn want_list_resolves_in_order() {
    let mut reg = ItemRegistry::new();
    let potion = entry("potion", Rarity::Common);
    let wand = entry("wand", Rarity::Rare);
    assert!(reg.add(potion.clone()).is_ok());
    assert!(reg.add(wand.clone()).is_ok());
    let resolved = reg.link_wishlist(vec!["potion".to_string(), "ring".to_string()]);
    assert_eq!(
        resolved,
        vec![Item::Concrete(potion), Item::Unresolved("ring".to_string())]
    );
}

#[test]
fn re_resolving_after_a_late_load_links_pending_references() {
    let mut reg = ItemRegistry::new();
    let pending = reg.resolve("ring".to_string());
    assert_eq!(pending, Item::Unresolved("ring".to_string()));
    let ring = entry("ring", Rarity::Uncommon);
    assert!(reg.add(ring.clone()).is_ok());
    assert_eq!(reg.re_resolve(pending), Item::Concrete(ring.clone()));
    // a resolved reference is returned unchanged
    let resolved = Item::Concrete(ring.clone());
    assert_eq!(reg.re_resolve(resolved.clone()), resolved);
}

#[test]
fn linking_a_character_keeps_name_and_order() {
    let mut reg = ItemRegistry::new();
    let wand = entry("wand", Rarity::Rare);
    assert!(reg.add(wand.clone()).is_ok());
    let file = FileCharacter {
        name: "Tina".to_string(),
        wish_list: vec!["ring".to_string(), "wand".to_string()],
    };
    let ch = reg.link_character(file);
    assert_eq!(ch.name(), "Tina");
    assert_eq!(
        ch.wish_list(),
        &vec![Item::Unresolved("ring".to_string()), Item::Concrete(wand)]
    );
}

#[test]
fn campaign_from_files_links_all_characters() {
    let reg = ItemRegistry::from_items(vec![entry("potion", Rarity::Common)]);
    let files = vec![
        FileCharacter { name: "A".to_string(), wish_list: vec!["potion".to_string()] },
        FileCharacter { name: "B".to_string(), wish_list: vec!["sword".to_string()] },
    ];
    let campaign = Campaign::from_files(FileMeta { name: "C".to_string() }, files, &reg);
    assert_eq!(campaign.name, "C");
    assert_eq!(campaign.characters.len(), 2);
    assert!(matches!(campaign.characters[0].wish_list()[0], Item::Concrete(_)));
    assert!(matches!(campaign.characters[1].wish_list()[0], Item::Unresolved(_)));
}

#[test]
fn destructure_links_against_the_folder_registry() {
    let mut folder = CampaignFolder::empty("Tina's Campaign".into());
    folder.item_registry = ItemRegistry::from_items(vec![entry("wand", Rarity::Rare)]);
    folder.characters = vec![FileCharacter {
        name: "Tina".to_string(),
        wish_list: vec!["wand".to_string()],
    }];
    let (campaign, registry) = folder.destructure();
    assert_eq!(campaign.name, "Tina's Campaign");
    assert_eq!(campaign.characters.len(), 1);
    assert!(registry.get("wand".to_string()).is_some());
}

#[test]
fn rarity_symbols_and_names() {
    assert_eq!(Rarity::Common.as_symbol(), "C");
    assert_eq!(Rarity::Uncommon.as_symbol(), "U");
    assert_eq!(Rarity::Rare.as_symbol(), "R");
    assert_eq!(Rarity::VeryRare.as_symbol(), "V");
    assert_eq!(Rarity::Legendary.as_symbol(), "L");
    assert_eq!(Rarity::Artifact.as_symbol(), "A");
    assert_eq!(Rarity::VeryRare.as_string(), "Very Rare");
    assert_eq!(ItemCategory::SimpleWeapon.as_string(), "Simple Weapon");
}

#[test]
fn rarity_and_category_from_names() {
    assert_eq!(Rarity::from_name("Very Rare"), Some(Rarity::VeryRare));
    assert_eq!(Rarity::from_name("Mythic"), None);
    assert_eq!(
        ItemCategory::from_name("Wondrous Item"),
        Some(ItemCategory::WondrousItem)
    );
    assert_eq!(ItemCategory::from_name("Simple Weapons"), Some(ItemCategory::SimpleWeapon));
    assert_eq!(ItemCategory::from_name("Armor"), None);
}

#[test]
fn item_type_new_uses_the_name_as_identifier() {
    let it = ItemType::new(
        "Cape".to_string(),
        Rarity::Rare,
        ItemCategory::WondrousItem,
        "flows".to_string(),
    );
    assert_eq!(it.identifier, "Cape");
    assert_eq!(it.name, "Cape");
    assert_eq!(it.details, "flows");
}
