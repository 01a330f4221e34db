use dnd_simp::item::{ItemCategory, ItemType, Rarity};
use dnd_simp::offer::OfferPage;
use dnd_simp::random::RandomSource;
use dnd_simp::registry::ItemRegistry;
use dnd_simp::shop::{FileShop, FileStockedItem, Shop, Stock, StockError, StockedItem};
use dnd_simp::shop_state::ShopState;

fn entry(name: &str, rarity: Rarity) -> ItemType {
    ItemType::new(
        name.to_string(),
        rarity,
        ItemCategory::WondrousItem,
        format!("a {name}"),
    )
}

fn line(name: &str, stock: Stock) -> StockedItem {
    StockedItem { item_type: entry(name, Rarity::Common), stock }
}

#[test]
fn new_shop_is_empty() {
    let s = Shop::new("Tina's".to_string());
    assert_eq!(s.get_inventory().len(), 0)
}

#[test]
fn shop_new_shop_is_empty() {
    let s = Shop::new("Tina's".to_string());
    assert_eq!(s.get_inventory().len(), 0)
}

#[test]
fn shop_offer_is_less_or_equal_to_demand() {
    let s = Shop::new("Tina's".to_string());
    let mut rng = RandomSource::new_seeded(7);
    assert!(s.produce_offer(3, &mut rng).len() <= 3)
}

#[test]
fn shop_offer_is_less_or_equal_to_three() {
    let s = Shop::new("Tina's".to_string());
    let mut rng = RandomSource::new_seeded(7);
    assert!(s.produce_offer(3, &mut rng).len() <= 3)
}

#[test]
fn economy_keeps_shops_in_insertion_order() {
    let mut e = dnd_simp::economy::Economy::new();
    e.add_shop(Shop::new("Tina's".to_string()));
    e.add_shop(Shop::new("Bob's".to_string()));
    assert_eq!(e.get_shops().len(), 2);
    assert_eq!(e.get_shops()[0].name(), "Tina's");
    assert_eq!(e.get_shops()[1].name(), "Bob's");
}

#[test]
fn stock_offerability() {
    assert!(Stock::Stocked(2).is_offerable());
    assert!(Stock::Infinite.is_offerable());
    assert!(!Stock::Sold.is_offerable());
}

#[test]
fn stock_decrement_semantics() {
    assert_eq!(Stock::Stocked(3).decrement(), Ok(Stock::Stocked(2)));
    assert_eq!(Stock::Stocked(1).decrement(), Ok(Stock::Sold));
    assert_eq!(Stock::Sold.decrement(), Err(StockError::AlreadyDepleted));
    assert_eq!(Stock::Infinite.decrement(), Ok(Stock::Infinite));
}

#[test]
fn offer_skips_depleted_lines_and_never_repeats() {
    let mut shop = Shop::new("Tina's".to_string());
    let a = line("amulet", Stock::Stocked(2));
    let b = line("boots", Stock::Stocked(1));
    let sold = line("cloak", Stock::Sold);
    shop.add_stock(a.clone());
    shop.add_stock(sold.clone());
    shop.add_stock(b.clone());
    for seed in 0..50u64 {
        let mut rng = RandomSource::new_seeded(seed);
        let offer = shop.produce_offer(3, &mut rng);
        assert_eq!(offer.len(), 2);
        assert!(offer.contains(&a));
        assert!(offer.contains(&b));
        assert!(!offer.contains(&sold));
    }
}

#[test]
fn offer_respects_the_requested_amount() {
    let mut shop = Shop::new("Tina's".to_string());
    for i in 0..10 {
        shop.add_stock(line(&format!("item{i}"), Stock::Infinite));
    }
    let mut rng = RandomSource::new_seeded(11);
    assert_eq!(shop.produce_offer(0, &mut rng).len(), 0);
    assert_eq!(shop.produce_offer(4, &mut rng).len(), 4);
    assert_eq!(shop.produce_offer(200, &mut rng).len(), 10);
    // no line is repeated within one offer
    let offer = shop.produce_offer(10, &mut rng);
    for i in 0..offer.len() {
        for j in (i + 1)..offer.len() {
            assert_ne!(offer[i].item_type.name, offer[j].item_type.name);
        }
    }
}

#[test]
fn same_seed_gives_the_same_offer() {
    let mut shop = Shop::new("Tina's".to_string());
    for i in 0..8 {
        shop.add_stock(line(&format!("item{i}"), Stock::Stocked(1)));
    }
    let mut rng_a = RandomSource::new_seeded(42);
    let mut rng_b = RandomSource::new_seeded(42);
    assert_eq!(shop.produce_offer(3, &mut rng_a), shop.produce_offer(3, &mut rng_b));
}

#[test]
fn short_name_prefers_the_explicit_shorthand() {
    let s = Shop::new_with_shorthand("The Grand Emporium of Wonders".to_string(), "Emporium".to_string());
    assert_eq!(s.short_name(), "Emporium");
}

#[test]
fn short_name_truncates_long_names() {
    let s = Shop::new("An Unreasonably Long Shop Name".to_string());
    assert_eq!(s.short_name(), "An Unreasonably Long");
    let t = Shop::new("Tina's".to_string());
    assert_eq!(t.short_name(), "Tina's");
}

#[test]
fn linking_a_file_shop_drops_unknown_identifiers() {
    let reg = ItemRegistry::from_items(vec![entry("amulet", Rarity::Common), entry("boots", Rarity::Rare)]);
    let file = FileShop {
        name: "Tina's".to_string(),
        short_name: None,
        inventory: vec![
            FileStockedItem { identifier: "amulet".to_string(), stock: Stock::Stocked(2) },
            FileStockedItem { identifier: "ring".to_string(), stock: Stock::Infinite },
            FileStockedItem { identifier: "boots".to_string(), stock: Stock::Sold },
        ],
    };
    let shop = Shop::from_file(&file, &reg);
    let inv = shop.get_inventory();
    assert_eq!(inv.len(), 2);
    assert_eq!(inv[0].item_type.name, "amulet");
    assert_eq!(inv[0].stock, Stock::Stocked(2));
    assert_eq!(inv[1].item_type.name, "boots");
    assert_eq!(inv[1].stock, Stock::Sold);
}

#[test]
fn shop_state_starts_without_offers_and_regenerates() {
    let mut shop = Shop::new("Tina's".to_string());
    shop.add_stock(line("amulet", Stock::Stocked(1)));
    shop.add_stock(line("boots", Stock::Infinite));
    let mut state = ShopState::new(&shop);
    assert_eq!(state.get_offers().len(), 0);
    let mut rng = RandomSource::new_seeded(5);
    let offers = state.regenerate_offers(&mut rng);
    assert_eq!(offers.len(), 2);
    assert_eq!(state.get_offers().len(), 2);
}

#[test]
fn offer_page_starts_with_no_prices_rolled() {
    let mut shop = Shop::new("Tina's".to_string());
    shop.add_stock(line("amulet", Stock::Stocked(1)));
    shop.add_stock(line("boots", Stock::Infinite));
    shop.add_stock(line("cloak", Stock::Sold));
    let mut rng = RandomSource::new_seeded(3);
    let page = OfferPage::new(&shop, &mut rng);
    assert_eq!(page.title(), "Offer for Tina's");
    assert_eq!(page.current_offer().len(), 2);
    assert!(page.current_offer().iter().all(|o| o.price.is_none()));
}

#[test]
fn offer_page_selection_is_clamped() {
    let mut shop = Shop::new("Tina's".to_string());
    for i in 0..5 {
        shop.add_stock(line(&format!("item{i}"), Stock::Infinite));
    }
    let mut rng = RandomSource::new_seeded(3);
    let mut page = OfferPage::new(&shop, &mut rng);
    assert_eq!(page.selected_index(), 0);
    page.select_previous();
    assert_eq!(page.selected_index(), 0);
    page.select_next();
    page.select_next();
    page.select_next();
    assert_eq!(page.selected_index(), 2);
    page.select_previous();
    assert_eq!(page.selected_index(), 1);
}
