//! Core model of a tabletop campaign's economy: a catalog of item
//! definitions, shops stocking subsets of that catalog, identifier
//! resolution against the catalog, and an offer engine that samples
//! stock and rolls prices from dice formulas.

use vstd::prelude::*;

pub mod campaign;
pub mod character;
pub mod decimal;
pub mod dice;
pub mod economy;
pub mod gold;
pub mod item;
pub mod offer;
pub mod pricing;
pub mod random;
pub mod registry;
pub mod settings;
pub mod shop;
pub mod shop_state;
pub mod translator;

verus! {

} // verus!
