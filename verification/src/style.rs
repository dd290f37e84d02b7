//! Text styles: font size, primary classes and the fallback chain.

use vstd::prelude::*;

use crate::size::MAX_FONT_SIZE_MICRO;
use crate::size::Size;

verus! {

/// An opaque label naming one font selection criterion, such as a family,
/// a weight or a slant. What a label matches is owned by the font source;
/// the layouter only passes labels through.
#[derive(Clone, Debug, PartialEq, Eq)]
pub struct FontClass {
    /// The label's text.
    pub tag: String,
}

/// How a run of text should be set: the font size, the ordered primary
/// class list, and the ordered fallback chain tried when the primary
/// classes alone cannot resolve a character.
#[derive(Clone, Debug)]
pub struct TextStyle {
    /// The font size.
    pub font_size: Size,
    /// The primary font classes, in preference order.
    pub classes: Vec<FontClass>,
    /// Class tags tried one after another, each appended to the primary
    /// classes for one query, when a character needs a fallback font. An
    /// empty chain means only the primary classes are tried.
    pub fallback: Vec<FontClass>,
}

impl TextStyle {
    /// A style the layouter accepts: a positive font size no larger than
    /// [`MAX_FONT_SIZE_MICRO`] micropoints.
    pub open spec fn valid(&self) -> bool {
        0 < self.font_size@ <= MAX_FONT_SIZE_MICRO
    }
}

} // verus!
