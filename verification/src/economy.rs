//! The economy: the collection of shops of a campaign.

use vstd::prelude::*;

use crate::shop::Shop;

verus! {

/// All shops of a campaign.
pub struct Economy {
    shops: Vec<Shop>,
}

impl Economy {
    pub closed spec fn spec_shops(self) -> Seq<Shop> {
        self.shops@
    }

    pub fn new() -> (r: Self)
        ensures
            r.spec_shops() =~= Seq::<Shop>::empty(),
    {
        Self { shops: Vec::new() }
    }

    pub fn get_shops(&self) -> (r: &[Shop])
        ensures
            r@ == self.spec_shops(),
    {
        self.shops.as_slice()
    }

    /// Appends a shop; the shops keep their insertion order.
    pub fn add_shop(&mut self, shop: Shop)
        ensures
            final(self).spec_shops() =~= old(self).spec_shops().push(shop),
    {
        self.shops.push(shop);
    }
}

} // verus!
