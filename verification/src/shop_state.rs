//! Per-shop view state: the shop and the offers most recently drawn from
//! it. Each regeneration is independent; no memory of earlier offers is
//! kept.

use vstd::prelude::*;
use vstd::math::min;

use crate::random::RandomSource;
use crate::shop::{offer_matches, offerable_index_seq, valid_picks, Shop, StockedItem};

verus! {

/// A shop together with its currently displayed offers.
pub struct ShopState {
    shop: Shop,
    offers: Vec<StockedItem>,
    num_offers: u8,
}

impl ShopState {
    pub closed spec fn spec_shop(self) -> Shop {
        self.shop
    }

    pub closed spec fn spec_offers(self) -> Seq<StockedItem> {
        self.offers@
    }

    pub closed spec fn spec_num_offers(self) -> int {
        self.num_offers as int
    }

    /// Fresh state for a shop: no offers yet, three per regeneration.
    pub fn new(shop: &Shop) -> (r: Self)
        ensures
            r.spec_shop().inv() == shop.inv(),
            r.spec_shop().spec_name() == shop.spec_name(),
            r.spec_offers() =~= Seq::<StockedItem>::empty(),
            r.spec_num_offers() == 3,
    {
        Self { shop: shop.clone(), offers: Vec::new(), num_offers: 3 }
    }

    pub fn get_offers(&self) -> (r: &[StockedItem])
        ensures
            r@ == self.spec_offers(),
    {
        self.offers.as_slice()
    }

    /// Replaces the offers with a fresh independent sample of the shop's
    /// offerable stock.
    pub fn regenerate_offers(&mut self, rng: &mut RandomSource) -> (r: &[StockedItem])
        ensures
            r@ == final(self).spec_offers(),
            final(self).spec_shop() == old(self).spec_shop(),
            final(self).spec_num_offers() == old(self).spec_num_offers(),
            final(self).spec_offers().len() == min(
                old(self).spec_num_offers(),
                offerable_index_seq(old(self).spec_shop().inv()).len() as int,
            ),
            exists|picks: Seq<int>|
                #[trigger] valid_picks(old(self).spec_shop().inv(), picks) && offer_matches(
                    old(self).spec_shop().inv(),
                    picks,
                    final(self).spec_offers(),
                ),
    {
        self.offers = self.shop.produce_offer(self.num_offers, rng);
        self.offers.as_slice()
    }
}

} // verus!
