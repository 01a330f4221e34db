use dnd_simp::dice::{DiceExpr, PricingError};
use dnd_simp::item::{ItemCategory, ItemType, Rarity};
use dnd_simp::offer::OfferPage;
use dnd_simp::pricing::{price_expression, roll_price, xanathar_magic_item_cost};
use dnd_simp::random::RandomSource;
use dnd_simp::settings::SettingsPage;
use dnd_simp::shop::{Shop, Stock, StockedItem};
use dnd_simp::translator::{EngNerdI18n, I18nPhrase, I18ner};

fn entry(name: &str, rarity: Rarity) -> ItemType {
    ItemType::new(
        name.to_string(),
        rarity,
        ItemCategory::WondrousItem,
        format!("a {name}"),
    )
}

#[test]
fn the_price_table_is_total_over_rarities() {
    assert_eq!(price_expression(Rarity::Common), "(1d6 + 1) * 10");
    assert_eq!(price_expression(Rarity::Uncommon), "1d6 * 100");
    assert_eq!(price_expression(Rarity::Rare), "2d10 * 1000");
    assert_eq!(price_expression(Rarity::VeryRare), "(1d4 + 1) * 10000");
    assert_eq!(price_expression(Rarity::Legendary), "2d6 * 25000");
    assert_eq!(price_expression(Rarity::Artifact), "2d6 * 25000");
    let it = entry("cape", Rarity::Rare);
    assert_eq!(xanathar_magic_item_cost(&it), "2d10 * 1000");
}

#[test]
fn parsing_the_plain_form() {
    let e = DiceExpr::parse("2d6").unwrap();
    assert_eq!(e, DiceExpr { count: 2, sides: 6, bonus: None, multiplier: None });
    let e = DiceExpr::parse("2d6 * 25000").unwrap();
    assert_eq!(e, DiceExpr { count: 2, sides: 6, bonus: None, multiplier: Some(25000) });
    let e = DiceExpr::parse("10d100 * 1").unwrap();
    assert_eq!(e, DiceExpr { count: 10, sides: 100, bonus: None, multiplier: Some(1) });
}

#[test]
fn parsing_the_parenthesized_form() {
    let e = DiceExpr::parse("(1d6 + 1) * 10").unwrap();
    assert_eq!(
        e,
        DiceExpr { count: 1, sides: 6, bonus: Some(1), multiplier: Some(10) }
    );
    let e = DiceExpr::parse("(3d4 + 0) * 2").unwrap();
    assert_eq!(e, DiceExpr { count: 3, sides: 4, bonus: Some(0), multiplier: Some(2) });
}

#[test]
fn malformed_formulas_are_rejected() {
    let bad = vec![
        "", "d6", "1d", "2x6", "01d6", "1d06", "0d6", "1d0", "2d6 * 0", "2d6*5", "2d6 * ",
        "(1d6 + 1)", "(1d6 + 1) * ", "(1d6) * 10", "2d6 * 5x", " 2d6", "2d6 ",
        "99999999999999999999d6",
    ];
    for s in bad {
        assert_eq!(DiceExpr::parse(s), Err(PricingError::Malformed), "accepted {s:?}");
    }
}

#[test]
fn evaluation_overflow_is_unevaluable() {
    // the multiplier alone fills the machine word, so any roll overflows
    let e = DiceExpr::parse("2d6 * 18446744073709551615").unwrap();
    let mut rng = RandomSource::new_seeded(1);
    assert_eq!(e.eval(&mut rng), Err(PricingError::Unevaluable));
}

#[test]
fn same_seed_rolls_the_same_price() {
    let mut rng_a = RandomSource::new_seeded(77);
    let mut rng_b = RandomSource::new_seeded(77);
    for _ in 0..10 {
        let a = roll_price(Rarity::Rare, &mut rng_a).unwrap();
        let b = roll_price(Rarity::Rare, &mut rng_b).unwrap();
        assert_eq!(a.as_tuple(), b.as_tuple());
    }
}

#[test]
fn evaluation_stays_in_the_theoretical_range() {
    let e = DiceExpr::parse("2d6 * 25000").unwrap();
    let mut rng = RandomSource::new_seeded(99);
    for _ in 0..200 {
        let v = e.eval(&mut rng).unwrap();
        assert!((50000..=300000).contains(&v));
    }
}

#[test]
fn rolling_a_legendary_price_stays_in_range() {
    let mut rng = RandomSource::new_seeded(123);
    for _ in 0..100 {
        let price = roll_price(Rarity::Legendary, &mut rng).unwrap();
        let (g, s, c) = price.as_tuple();
        assert!((50000..=300000).contains(&g));
        assert_eq!(s, 0);
        assert_eq!(c, 0);
    }
}

#[test]
fn rolling_a_common_price_stays_in_range() {
    let mut rng = RandomSource::new_seeded(5);
    for _ in 0..100 {
        let price = roll_price(Rarity::Common, &mut rng).unwrap();
        let (g, s, c) = price.as_tuple();
        assert!((20..=70).contains(&g));
        assert_eq!(s, 0);
        assert_eq!(c, 0);
    }
}

#[test]
fn realized_prices_are_set_and_in_range() {
    let mut shop = Shop::new("Tina's".to_string());
    shop.add_stock(StockedItem { item_type: entry("cape", Rarity::Rare), stock: Stock::Stocked(1) });
    shop.add_stock(StockedItem {
        item_type: entry("orb", Rarity::Legendary),
        stock: Stock::Infinite,
    });
    let mut rng = RandomSource::new_seeded(17);
    let mut page = OfferPage::new(&shop, &mut rng);
    page.realize_prices(&mut rng);
    for offer in page.current_offer() {
        let price = offer.price.expect("price must be rolled");
        let (g, _, _) = price.as_tuple();
        match offer.stocked_item.item_type.rarity {
            Rarity::Rare => assert!((2000..=20000).contains(&g)),
            Rarity::Legendary => assert!((50000..=300000).contains(&g)),
            _ => panic!("unexpected rarity in offer"),
        }
    }
    // hiding is a pure toggle: the rolled prices are kept, not re-rolled
    let before: Vec<_> = page.current_offer().iter().map(|o| o.price).collect();
    page.hide_prices();
    assert!(page.prices_hidden());
    let hidden: Vec<_> = page.current_offer().iter().map(|o| o.price).collect();
    assert_eq!(before, hidden);
    page.reveal_prices();
    assert!(!page.prices_hidden());
    let revealed: Vec<_> = page.current_offer().iter().map(|o| o.price).collect();
    assert_eq!(before, revealed);
    assert_eq!(page.current_offer().len(), 2);
}

#[test]
fn translator_renders_the_icon_glyphs() {
    let i18n = EngNerdI18n {};
    assert_eq!(i18n.i18n(I18nPhrase::Price), "\u{ede8}");
    assert_eq!(i18n.i18n(I18nPhrase::Roll), "\u{e270}");
}

#[test]
fn settings_page_starts_empty_and_records_typed_text() {
    let mut page = SettingsPage::new();
    assert_eq!(page.text(), "");
    page.type_text("hi");
    page.type_text("!");
    assert_eq!(page.text(), "hi!");
}
