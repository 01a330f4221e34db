//! Shops: named vendors with an ordered inventory of stock lines, and the
//! offer engine that draws a bounded, duplicate-free random sample of the
//! currently offerable stock.

use vstd::prelude::*;
use vstd::pervasive::VecAdditionalExecFns;
use vstd::math::min;
use vstd::string::*;

use crate::item::{ItemIdentifier, ItemType};
use crate::random::RandomSource;
use crate::registry::{lookup_in, ItemRegistry};

verus! {

/// An attempted decrement on exhausted stock; recoverable, the stock
/// state is left unchanged.
#[derive(Debug, Clone, Copy, PartialEq, Eq, Structural)]
pub enum StockError {
    AlreadyDepleted,
}

/// The quantity state of one stock line. `Stocked` is never constructed
/// with a zero count: sold-out stock is `Sold`, not `Stocked(0)`.
#[derive(Debug, Clone, Copy, PartialEq, Eq, Structural)]
pub enum Stock {
    Stocked(u32),
    Sold,
    Infinite,
}

/// Limited stock and unlimited stock can be offered; depleted stock cannot.
pub open spec fn is_offerable_spec(s: Stock) -> bool {
    match s {
        Stock::Stocked(_) => true,
        Stock::Sold => false,
        Stock::Infinite => true,
    }
}

impl Stock {
    /// Well-formed: a stocked count is positive.
    pub open spec fn wf(self) -> bool {
        self matches Stock::Stocked(n) ==> n > 0
    }

    pub fn is_offerable(&self) -> (r: bool)
        ensures
            r == is_offerable_spec(*self),
    {
        match self {
            Stock::Stocked(_) => true,
            Stock::Sold => false,
            Stock::Infinite => true,
        }
    }

    /// One unit leaves the stock: a count of one becomes `Sold`, depleted
    /// stock signals `AlreadyDepleted`, unlimited stock never depletes.
    pub fn decrement(&self) -> (r: Result<Stock, StockError>)
        requires
            self.wf(),
        ensures
            match *self {
                Stock::Stocked(n) => r == Ok::<Stock, StockError>(
                    if n > 1 {
                        Stock::Stocked((n - 1) as u32)
                    } else {
                        Stock::Sold
                    },
                ),
                Stock::Sold => r == Err::<Stock, StockError>(StockError::AlreadyDepleted),
                Stock::Infinite => r == Ok::<Stock, StockError>(Stock::Infinite),
            },
            r matches Ok(s) ==> s.wf(),
    {
        match self {
            Stock::Stocked(n) => {
                if *n > 1 {
                    Ok(Stock::Stocked(*n - 1))
                } else {
                    Ok(Stock::Sold)
                }
            },
            Stock::Sold => Err(StockError::AlreadyDepleted),
            Stock::Infinite => Ok(Stock::Infinite),
        }
    }
}

/// One row of a shop's inventory: an item definition and its stock state.
#[derive(Debug, PartialEq)]
pub struct StockedItem {
    pub item_type: ItemType,
    pub stock: Stock,
}

impl Clone for StockedItem {
    fn clone(&self) -> (r: Self)
        ensures
            r == *self,
    {
        StockedItem { item_type: self.item_type.clone(), stock: self.stock }
    }
}

impl StockedItem {
    pub open spec fn wf(self) -> bool {
        self.stock.wf()
    }
}

/// A stock line as loaded from storage: the item is still a plain
/// identifier string.
#[derive(Debug)]
pub struct FileStockedItem {
    pub identifier: ItemIdentifier,
    pub stock: Stock,
}

impl Clone for FileStockedItem {
    fn clone(&self) -> (r: Self)
        ensures
            r == *self,
    {
        FileStockedItem { identifier: self.identifier.clone(), stock: self.stock }
    }
}

impl FileStockedItem {
    pub open spec fn wf(self) -> bool {
        self.stock.wf()
    }
}

/// A shop definition as loaded from storage.
#[derive(Debug)]
pub struct FileShop {
    pub name: String,
    pub short_name: Option<String>,
    pub inventory: Vec<FileStockedItem>,
}

/// The indices of the offerable lines of an inventory, in order.
pub open spec fn offerable_index_seq(s: Seq<StockedItem>) -> Seq<int>
    decreases s.len(),
{
    if s.len() == 0 {
        Seq::empty()
    } else {
        let prefix = offerable_index_seq(s.drop_last());
        if is_offerable_spec(s.last().stock) {
            prefix.push(s.len() - 1)
        } else {
            prefix
        }
    }
}

/// The offerable indices point at offerable lines, are strictly increasing
/// (hence duplicate-free), and cover every offerable line.
pub proof fn lemma_offerable_index_seq_props(s: Seq<StockedItem>)
    ensures
        forall|i: int|
            0 <= i < offerable_index_seq(s).len() ==> 0 <= #[trigger] offerable_index_seq(s)[i]
                < s.len() && is_offerable_spec(s[offerable_index_seq(s)[i]].stock),
        forall|i: int, j: int|
            0 <= i < j < offerable_index_seq(s).len() ==> offerable_index_seq(s)[i]
                < offerable_index_seq(s)[j],
        forall|k: int|
            0 <= k < s.len() && is_offerable_spec(s[k].stock) ==> offerable_index_seq(s).contains(
                k,
            ),
    decreases s.len(),
{
    if s.len() > 0 {
        lemma_offerable_index_seq_props(s.drop_last());
        let prefix = offerable_index_seq(s.drop_last());
        assert forall|k: int|
            0 <= k < s.len() && is_offerable_spec(s[k].stock) implies offerable_index_seq(
            s,
        ).contains(k) by {
            if k < s.len() - 1 {
                assert(s.drop_last()[k] == s[k]);
                assert(prefix.contains(k));
                let w = choose|w: int| 0 <= w < prefix.len() && prefix[w] == k;
                if is_offerable_spec(s.last().stock) {
                    assert(offerable_index_seq(s)[w] == k);
                } else {
                    assert(offerable_index_seq(s)[w] == k);
                }
            } else {
                assert(is_offerable_spec(s.last().stock));
                assert(offerable_index_seq(s).last() == k);
            }
        }
    }
}

/// `picks` is a set of pairwise-distinct indices of offerable lines.
pub open spec fn valid_picks(inv: Seq<StockedItem>, picks: Seq<int>) -> bool {
    &&& forall|i: int|
        0 <= i < picks.len() ==> 0 <= #[trigger] picks[i] < inv.len() && is_offerable_spec(
            inv[picks[i]].stock,
        )
    &&& forall|i: int, j: int| 0 <= i < j < picks.len() ==> picks[i] != picks[j]
}

/// `offer` lists exactly the inventory lines selected by `picks`, in order.
pub open spec fn offer_matches(
    inv: Seq<StockedItem>,
    picks: Seq<int>,
    offer: Seq<StockedItem>,
) -> bool {
    &&& offer.len() == picks.len()
    &&& forall|i: int| 0 <= i < offer.len() ==> #[trigger] offer[i] == inv[picks[i]]
}

/// A vendor: a name, an optional short name, and an ordered inventory.
#[derive(Debug)]
pub struct Shop {
    pub name: String,
    short_name: Option<String>,
    inventory: Vec<StockedItem>,
}

impl Shop {
    pub closed spec fn spec_name(self) -> Seq<char> {
        self.name@
    }

    pub closed spec fn spec_short_name(self) -> Option<String> {
        self.short_name
    }

    /// The inventory, in insertion order.
    pub closed spec fn inv(self) -> Seq<StockedItem> {
        self.inventory@
    }

    /// Well-formed: every stock line is well-formed.
    pub open spec fn wf(self) -> bool {
        forall|i: int| 0 <= i < self.inv().len() ==> (#[trigger] self.inv()[i]).wf()
    }

    pub fn new(name: String) -> (r: Self)
        ensures
            r.spec_name() == name@,
            r.spec_short_name() is None,
            r.inv() =~= Seq::<StockedItem>::empty(),
            r.wf(),
    {
        Self { name, short_name: None, inventory: Vec::new() }
    }

    pub fn new_with_shorthand(name: String, short_name: String) -> (r: Self)
        ensures
            r.spec_name() == name@,
            r.spec_short_name() matches Some(s) && s@ == short_name@,
            r.inv() =~= Seq::<StockedItem>::empty(),
            r.wf(),
    {
        Self { name, short_name: Some(short_name), inventory: Vec::new() }
    }

    /// The shop's full display name.
    pub fn name(&self) -> (r: String)
        ensures
            r@ == self.spec_name(),
    {
        self.name.clone()
    }

    /// The short display name: the explicit short name when one was given,
    /// else the shop name truncated to at most twenty characters.
    pub fn short_name(&self) -> (r: String)
        ensures
            self.spec_short_name() matches Some(s) ==> r@ == s@,
            self.spec_short_name() is None ==> r@ == if self.spec_name().len() <= 20 {
                self.spec_name()
            } else {
                self.spec_name().subrange(0, 20)
            },
    {
        match &self.short_name {
            Some(n) => n.clone(),
            None => {
                let len = self.name.as_str().unicode_len();
                if len <= 20 {
                    self.name.clone()
                } else {
                    String::from_str(self.name.as_str().substring_char(0, 20))
                }
            },
        }
    }

    pub fn get_inventory(&self) -> (r: &[StockedItem])
        ensures
            r@ == self.inv(),
    {
        self.inventory.as_slice()
    }

    /// Appends one stock line; insertion order is preserved.
    pub fn add_stock(&mut self, line: StockedItem)
        requires
            old(self).wf(),
            line.wf(),
        ensures
            final(self).spec_name() == old(self).spec_name(),
            final(self).spec_short_name() == old(self).spec_short_name(),
            final(self).inv() =~= old(self).inv().push(line),
            final(self).wf(),
    {
        self.inventory.push(line);
    }

    /// Draws `min(amount, |offerable|)` distinct offerable lines uniformly
    /// at random without replacement; depleted lines never appear and no
    /// line is repeated within one offer. Never fails, whatever `amount`.
    pub fn produce_offer(&self, amount: u8, rng: &mut RandomSource) -> (r: Vec<StockedItem>)
        ensures
            r@.len() == min(amount as int, offerable_index_seq(self.inv()).len() as int),
            exists|picks: Seq<int>|
                #[trigger] valid_picks(self.inv(), picks) && offer_matches(self.inv(), picks, r@),
    {
        let ghost inv = self.inv();
        proof {
            lemma_offerable_index_seq_props(inv);
        }
        // Collect the indices of the offerable lines, in order.
        let mut idxs: Vec<usize> = Vec::new();
        let mut i: usize = 0;
        proof {
            assert(inv.take(0) =~= Seq::<StockedItem>::empty());
        }
        while i < self.inventory.len()
            invariant
                i <= inv.len(),
                inv == self.inv(),
                idxs@.len() == offerable_index_seq(inv.take(i as int)).len(),
                forall|k: int|
                    0 <= k < idxs@.len() ==> #[trigger] idxs@[k] as int == offerable_index_seq(
                        inv.take(i as int),
                    )[k],
            decreases inv.len() - i,
        {
            proof {
                assert(inv.take(i + 1).drop_last() =~= inv.take(i as int));
                assert(inv.take(i + 1).last() == inv[i as int]);
            }
            if self.inventory[i].stock.is_offerable() {
                idxs.push(i);
            }
            i += 1;
        }
        proof {
            assert(inv.take(inv.len() as int) =~= inv);
        }
        let n = idxs.len();
        let ghost offerable = offerable_index_seq(inv);
        proof {
            assert forall|p: int, q: int| 0 <= p < q < idxs@.len() implies idxs@[p]
                != idxs@[q] by {
                assert(offerable[p] < offerable[q]);
            }
            assert forall|p: int| 0 <= p < idxs@.len() implies (idxs@[p] as int) < inv.len()
                && is_offerable_spec(inv[idxs@[p] as int].stock) by {
                assert(idxs@[p] as int == offerable[p]);
            }
        }
        let k = if (amount as usize) < n {
            amount as usize
        } else {
            n
        };
        // Partial Fisher-Yates shuffle: after `k` rounds the first `k`
        // positions hold a uniform sample without replacement.
        let mut j: usize = 0;
        while j < k
            invariant
                j <= k <= idxs@.len(),
                idxs@.len() == n,
                inv == self.inv(),
                forall|p: int|
                    0 <= p < idxs@.len() ==> (#[trigger] idxs@[p] as int) < inv.len()
                        && is_offerable_spec(inv[idxs@[p] as int].stock),
                forall|p: int, q: int| 0 <= p < q < idxs@.len() ==> idxs@[p] != idxs@[q],
            decreases k - j,
        {
            let remaining = n - j;
            let draw = rng.next_below(remaining as u64);
            let pos = j + (draw as usize);
            let a = idxs[j];
            let b = idxs[pos];
            idxs.set(j, b);
            idxs.set(pos, a);
            j += 1;
        }
        // Snapshot the selected lines.
        let mut out: Vec<StockedItem> = Vec::new();
        let mut t: usize = 0;
        while t < k
            invariant
                t <= k <= idxs@.len(),
                idxs@.len() == n,
                inv == self.inv(),
                out@.len() == t,
                forall|p: int| 0 <= p < t ==> #[trigger] out@[p] == inv[idxs@[p] as int],
                forall|p: int|
                    0 <= p < idxs@.len() ==> (#[trigger] idxs@[p] as int) < inv.len()
                        && is_offerable_spec(inv[idxs@[p] as int].stock),
                forall|p: int, q: int| 0 <= p < q < idxs@.len() ==> idxs@[p] != idxs@[q],
            decreases k - t,
        {
            out.push(self.inventory[idxs[t]].clone());
            t += 1;
        }
        proof {
            let picks = idxs@.take(k as int).map_values(|x: usize| x as int);
            assert forall|p: int| 0 <= p < picks.len() implies 0 <= #[trigger] picks[p]
                < inv.len() && is_offerable_spec(inv[picks[p]].stock) by {
                assert(picks[p] == idxs@[p] as int);
            }
            assert forall|p: int, q: int| 0 <= p < q < picks.len() implies picks[p]
                != picks[q] by {
                assert(picks[p] == idxs@[p] as int && picks[q] == idxs@[q] as int);
            }
            assert(valid_picks(inv, picks));
            assert(offer_matches(inv, picks, out@));
        }
        out
    }
}

impl Clone for Shop {
    fn clone(&self) -> (r: Self)
        ensures
            r.spec_name() == self.spec_name(),
            r.spec_short_name() == self.spec_short_name(),
            r.inv() == self.inv(),
    {
        let short_name = match &self.short_name {
            Some(s) => Some(s.clone()),
            None => None,
        };
        let r = Shop { name: self.name.clone(), short_name, inventory: self.inventory.clone() };
        proof {
            assert forall|i: int| 0 <= i < self.inventory@.len() implies r.inventory@[i]
                == self.inventory@[i] by {
                assert(vstd::pervasive::cloned::<StockedItem>(
                    self.inventory[i],
                    r.inventory[i],
                ));
            }
            assert(r.inventory@ =~= self.inventory@);
        }
        r
    }
}

/// The stock lines of `lines` whose identifier resolves against `entries`,
/// linked to their entries in order; unknown identifiers are left out.
pub open spec fn linked_lines(entries: Seq<ItemType>, lines: Seq<FileStockedItem>) -> Seq<
    StockedItem,
>
    decreases lines.len(),
{
    if lines.len() == 0 {
        Seq::empty()
    } else {
        let prefix = linked_lines(entries, lines.drop_last());
        match lookup_in(entries, lines.last().identifier@) {
            Some(entry) => prefix.push(StockedItem { item_type: entry, stock: lines.last().stock }),
            None => prefix,
        }
    }
}

impl Shop {
    /// Links a loaded shop definition against the registry: stock lines
    /// whose identifier is unknown are dropped rather than aborting the
    /// load.
    pub fn from_file(file: &FileShop, registry: &ItemRegistry) -> (r: Shop)
        requires
            forall|i: int| 0 <= i < file.inventory@.len() ==> (#[trigger] file.inventory@[i]).wf(),
        ensures
            r.spec_name() == file.name@,
            r.spec_short_name() matches Some(s) ==> file.short_name matches Some(f) && s@ == f@,
            file.short_name matches Some(f) ==> r.spec_short_name() matches Some(s) && s@ == f@,
            r.inv() =~= linked_lines(registry.entries(), file.inventory@),
    {
        let short_name = match &file.short_name {
            Some(s) => Some(s.clone()),
            None => None,
        };
        let mut inventory: Vec<StockedItem> = Vec::new();
        let mut i: usize = 0;
        let ghost lines = file.inventory@;
        proof {
            assert(lines.take(0) =~= Seq::<FileStockedItem>::empty());
        }
        while i < file.inventory.len()
            invariant
                i <= lines.len(),
                lines == file.inventory@,
                inventory@ =~= linked_lines(registry.entries(), lines.take(i as int)),
            decreases lines.len() - i,
        {
            proof {
                assert(lines.take(i + 1).drop_last() =~= lines.take(i as int));
                assert(lines.take(i + 1).last() == lines[i as int]);
            }
            match registry.get(file.inventory[i].identifier.clone()) {
                Some(entry) => {
                    inventory.push(
                        StockedItem { item_type: entry.clone(), stock: file.inventory[i].stock },
                    );
                },
                None => {},
            }
            i += 1;
        }
        proof {
            assert(lines.take(lines.len() as int) =~= lines);
        }
        Shop { name: file.name.clone(), short_name, inventory }
    }
}

} // verus!
