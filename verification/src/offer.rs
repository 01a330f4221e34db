//! The offer page state: a transient, randomly sampled selection of a
//! shop's offerable stock, with prices that can be rolled, re-rolled and
//! hidden without re-rolling.

use vstd::prelude::*;
use vstd::string::*;
use vstd::math::min;

use crate::gold::GoldAmount;
use crate::pricing::{roll_price, spec_price_expr};
use crate::random::RandomSource;
use crate::shop::{offer_matches, offerable_index_seq, valid_picks, Shop, StockedItem};

verus! {

/// One offered stock line and its optionally rolled price.
#[derive(Debug)]
pub struct Offer {
    pub stocked_item: StockedItem,
    pub price: Option<GoldAmount>,
}

impl Clone for Offer {
    fn clone(&self) -> (r: Self)
        ensures
            r == *self,
    {
        Offer { stocked_item: self.stocked_item.clone(), price: self.price }
    }
}

/// The state behind the offer view: the shop's name, the current offer,
/// which offer is selected, and whether prices are shown.
#[derive(Debug)]
pub struct OfferPage {
    shop_name: String,
    current_offer: Vec<Offer>,
    offer_idx: usize,
    prices_hidden: bool,
}

impl OfferPage {
    pub closed spec fn spec_shop_name(self) -> Seq<char> {
        self.shop_name@
    }

    pub closed spec fn offers(self) -> Seq<Offer> {
        self.current_offer@
    }

    pub closed spec fn spec_offer_idx(self) -> int {
        self.offer_idx as int
    }

    pub closed spec fn spec_prices_hidden(self) -> bool {
        self.prices_hidden
    }

    /// A fresh offer for a shop: three offerable lines (fewer when fewer
    /// are offerable) drawn without replacement, all prices hidden.
    pub fn new(shop: &Shop, rng: &mut RandomSource) -> (r: Self)
        ensures
            r.spec_shop_name() == shop.spec_name(),
            r.spec_offer_idx() == 0,
            !r.spec_prices_hidden(),
            r.offers().len() == min(3, offerable_index_seq(shop.inv()).len() as int),
            forall|i: int| 0 <= i < r.offers().len() ==> (#[trigger] r.offers()[i]).price is None,
            exists|picks: Seq<int>|
                #[trigger] valid_picks(shop.inv(), picks) && offer_matches(
                    shop.inv(),
                    picks,
                    r.offers().map_values(|o: Offer| o.stocked_item),
                ),
    {
        let lines = shop.produce_offer(3, rng);
        let mut current_offer: Vec<Offer> = Vec::new();
        let mut i: usize = 0;
        while i < lines.len()
            invariant
                i <= lines@.len(),
                current_offer@.len() == i as int,
                forall|k: int|
                    0 <= k < i as int ==> (#[trigger] current_offer@[k]).stocked_item == lines@[k]
                        && current_offer@[k].price is None,
            decreases lines@.len() - i,
        {
            current_offer.push(Offer { stocked_item: lines[i].clone(), price: None });
            i += 1;
        }
        let r = OfferPage {
            shop_name: shop.name(),
            current_offer,
            offer_idx: 0,
            prices_hidden: false,
        };
        proof {
            let picks = choose|picks: Seq<int>|
                #[trigger] valid_picks(shop.inv(), picks) && offer_matches(
                    shop.inv(),
                    picks,
                    lines@,
                );
            assert(r.offers().map_values(|o: Offer| o.stocked_item) =~= lines@);
            assert(valid_picks(shop.inv(), picks) && offer_matches(
                shop.inv(),
                picks,
                r.offers().map_values(|o: Offer| o.stocked_item),
            ));
        }
        r
    }

    /// The title shown above the offer.
    pub fn title(&self) -> (r: String)
        ensures
            r@ == "Offer for "@ + self.spec_shop_name(),
    {
        String::from_str("Offer for ").concat(self.shop_name.as_str())
    }

    pub fn current_offer(&self) -> (r: &Vec<Offer>)
        ensures
            r@ == self.offers(),
    {
        &self.current_offer
    }

    pub fn selected_index(&self) -> (r: usize)
        ensures
            r as int == self.spec_offer_idx(),
    {
        self.offer_idx
    }

    pub fn prices_hidden(&self) -> (r: bool)
        ensures
            r == self.spec_prices_hidden(),
    {
        self.prices_hidden
    }

    /// Moves the selection one offer to the right, capped at the third.
    pub fn select_next(&mut self)
        ensures
            final(self).spec_offer_idx() == min(2, old(self).spec_offer_idx() + 1),
            final(self).offers() == old(self).offers(),
            final(self).spec_shop_name() == old(self).spec_shop_name(),
            final(self).spec_prices_hidden() == old(self).spec_prices_hidden(),
    {
        if self.offer_idx < 2 {
            self.offer_idx += 1;
        } else {
            self.offer_idx = 2;
        }
    }

    /// Moves the selection one offer to the left, stopping at the first.
    pub fn select_previous(&mut self)
        ensures
            final(self).spec_offer_idx() == if old(self).spec_offer_idx() > 0 {
                old(self).spec_offer_idx() - 1
            } else {
                0
            },
            final(self).offers() == old(self).offers(),
            final(self).spec_shop_name() == old(self).spec_shop_name(),
            final(self).spec_prices_hidden() == old(self).spec_prices_hidden(),
    {
        if self.offer_idx > 0 {
            self.offer_idx -= 1;
        }
    }

    /// Hides the prices: a pure visibility toggle, nothing is re-rolled
    /// and every rolled price is kept.
    pub fn hide_prices(&mut self)
        ensures
            final(self).offers() == old(self).offers(),
            final(self).spec_prices_hidden(),
            final(self).spec_shop_name() == old(self).spec_shop_name(),
            final(self).spec_offer_idx() == old(self).spec_offer_idx(),
    {
        self.prices_hidden = true;
    }

    /// Shows the prices again: the same rolled prices as before, not a
    /// fresh roll.
    pub fn reveal_prices(&mut self)
        ensures
            final(self).offers() == old(self).offers(),
            !final(self).spec_prices_hidden(),
            final(self).spec_shop_name() == old(self).spec_shop_name(),
            final(self).spec_offer_idx() == old(self).spec_offer_idx(),
    {
        self.prices_hidden = false;
    }

    /// Rolls a price for every offered line from its rarity's formula;
    /// each roll is independent of any earlier one. Every price ends up
    /// set, and within its formula's theoretical range.
    pub fn realize_prices(&mut self, rng: &mut RandomSource)
        ensures
            final(self).offers().len() == old(self).offers().len(),
            forall|i: int|
                0 <= i < final(self).offers().len() ==> {
                    let item = old(self).offers()[i].stocked_item;
                    &&& (#[trigger] final(self).offers()[i]).stocked_item == item
                    &&& final(self).offers()[i].price matches Some(c) && spec_price_expr(
                        item.item_type.rarity,
                    ).spec_min_value() * 100 <= c.total_copper() <= spec_price_expr(
                        item.item_type.rarity,
                    ).spec_max_value() * 100
                },
            final(self).spec_shop_name() == old(self).spec_shop_name(),
            final(self).spec_offer_idx() == old(self).spec_offer_idx(),
            !final(self).spec_prices_hidden(),
    {
        self.prices_hidden = false;
        let mut priced: Vec<Offer> = Vec::new();
        let mut i: usize = 0;
        while i < self.current_offer.len()
            invariant
                i <= self.current_offer@.len(),
                priced@.len() == i as int,
                forall|k: int|
                    0 <= k < i as int ==> {
                        let item = self.current_offer@[k].stocked_item;
                        &&& (#[trigger] priced@[k]).stocked_item == item
                        &&& priced@[k].price matches Some(c) && spec_price_expr(
                            item.item_type.rarity,
                        ).spec_min_value() * 100 <= c.total_copper() <= spec_price_expr(
                            item.item_type.rarity,
                        ).spec_max_value() * 100
                    },
            decreases self.current_offer@.len() - i,
        {
            let price = match roll_price(self.current_offer[i].stocked_item.item_type.rarity, rng) {
                Ok(c) => Some(c),
                Err(_) => None,
            };
            priced.push(Offer { stocked_item: self.current_offer[i].stocked_item.clone(), price });
            i += 1;
        }
        self.current_offer = priced;
    }
}

} // verus!
