//! The settings page state: nothing but a scratch text buffer so far.

use vstd::prelude::*;

verus! {

/// State behind the settings view.
#[derive(Debug)]
pub struct SettingsPage {
    my_string: String,
}

impl SettingsPage {
    pub closed spec fn contents(self) -> Seq<char> {
        self.my_string@
    }

    pub fn new() -> (r: Self)
        ensures
            r.contents() =~= Seq::<char>::empty(),
    {
        Self { my_string: String::new() }
    }

    pub fn text(&self) -> (r: &str)
        ensures
            r@ == self.contents(),
    {
        self.my_string.as_str()
    }

    /// Appends typed text to the buffer.
    pub fn type_text(&mut self, typed: &str)
        ensures
            final(self).contents() == old(self).contents() + typed@,
    {
        self.my_string.append(typed);
    }
}

} // verus!
