//! Characters: a name and a want-list of item references, created by
//! linking a loaded character record against the item registry.

use vstd::prelude::*;

use crate::item::{Item, ItemIdentifier};

verus! {

/// A character whose want-list has been linked against a registry.
#[derive(Debug)]
pub struct Character {
    pub name: String,
    pub wish_list: Vec<Item>,
}

impl Clone for Character {
    fn clone(&self) -> (r: Self)
        ensures
            r.name == self.name,
            r.wish_list@ == self.wish_list@,
    {
        let r = Character { name: self.name.clone(), wish_list: self.wish_list.clone() };
        proof {
            assert forall|i: int| 0 <= i < self.wish_list@.len() implies r.wish_list@[i]
                == self.wish_list@[i] by {
                assert(vstd::pervasive::cloned::<Item>(self.wish_list[i], r.wish_list[i]));
            }
            assert(r.wish_list@ =~= self.wish_list@);
        }
        r
    }
}

impl Character {
    pub fn name(&self) -> (r: String)
        ensures
            r@ == self.name@,
    {
        self.name.clone()
    }

    pub fn wish_list(&self) -> (r: &Vec<Item>)
        ensures
            r@ == self.wish_list@,
    {
        &self.wish_list
    }
}

/// A character record as loaded from storage: the want-list is still a
/// plain sequence of identifier strings.
#[derive(Debug)]
pub struct FileCharacter {
    pub name: String,
    pub wish_list: Vec<ItemIdentifier>,
}

impl Clone for FileCharacter {
    fn clone(&self) -> (r: Self)
        ensures
            r.name == self.name,
            r.wish_list@ == self.wish_list@,
    {
        let r = FileCharacter { name: self.name.clone(), wish_list: self.wish_list.clone() };
        proof {
            assert forall|i: int| 0 <= i < self.wish_list@.len() implies r.wish_list@[i]
                == self.wish_list@[i] by {
                assert(vstd::pervasive::cloned::<String>(self.wish_list[i], r.wish_list[i]));
            }
            assert(r.wish_list@ =~= self.wish_list@);
        }
        r
    }
}

} // verus!
