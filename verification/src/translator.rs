//! Display phrases and their translation into the glyphs the interface
//! shows.

use vstd::prelude::*;
use vstd::string::*;

verus! {

/// A phrase the interface needs a rendering for.
#[derive(Debug, Clone, Copy, PartialEq, Eq, Structural)]
pub enum I18nPhrase {
    Roll,
    Price,
}

/// Renders phrases for display.
pub trait I18ner {
    fn i18n(&self, phrase: I18nPhrase) -> String;
}

/// English, with icon glyphs for the dice and price symbols.
#[derive(Debug, Clone, Copy)]
pub struct EngNerdI18n {}

impl I18ner for EngNerdI18n {
    fn i18n(&self, phrase: I18nPhrase) -> String {
        match phrase {
            I18nPhrase::Price => String::from_str("\u{ede8}"),
            I18nPhrase::Roll => String::from_str("\u{e270}"),
        }
    }
}

} // verus!
