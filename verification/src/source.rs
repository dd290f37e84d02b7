//! The font collaborator's interface, and the fallback selection rule.

use vstd::prelude::*;

use crate::size::Size;
use crate::style::FontClass;

verus! {

/// A font choice made for one character: the handle of the chosen font and
/// the character's advance width at the style's font size.
#[derive(Clone, Copy, Debug, PartialEq, Eq)]
pub struct Resolved {
    /// The stable handle of the chosen font within the source's session.
    pub font: usize,
    /// The character's advance width under that font.
    pub width: Size,
}

/// The font collaborator: discovers and loads fonts, matches class lists
/// against them, and reads their metric tables. The layouter holds it
/// exclusively for the duration of one layout call and queries it once per
/// character resolution attempt; its methods carry no contract, so every
/// verified guarantee of this crate holds for every implementation.
pub trait FontSource {
    /// The best font supporting `c` under the classes `base`, extended by
    /// the one extra candidate tag `extra` when a fallback tag is tried.
    /// Returns the font's stable handle, or `None` when no loaded or
    /// discoverable font qualifies.
    fn resolve(&mut self, c: char, base: &Vec<FontClass>, extra: Option<&FontClass>) -> (r: Option<
        usize,
    >);

    /// The em-square size of the font behind `font`, in font units, or
    /// `None` when the handle is unknown or the font's header is
    /// malformed.
    fn units_per_em(&mut self, font: usize) -> (r: Option<u16>);

    /// The advance width of the glyph that `font` maps `c` to, in font
    /// units, or `None` when the font does not map `c` or its metrics are
    /// missing.
    fn advance_width(&mut self, font: usize, c: char) -> (r: Option<u16>);
}

/// The fallback selection rule, stated over a recorded sequence of resolver
/// answers, one per fallback attempt in the order tried: the first
/// affirmative answer wins, regardless of any later one, and a selection
/// fails only when every attempt failed.
pub fn first_match(attempts: &Vec<Option<usize>>) -> (r: Option<(usize, usize)>)
    ensures
        match r {
            Some(hit) => {
                &&& 0 <= hit.0 < attempts@.len()
                &&& attempts@[hit.0 as int] == Some(hit.1)
                &&& forall|i: int| 0 <= i < hit.0 ==> attempts@[i] is None
            },
            None => forall|i: int| 0 <= i < attempts@.len() ==> attempts@[i] is None,
        },
{
    let mut j: usize = 0;
    while j < attempts.len()
        invariant
            0 <= j <= attempts@.len(),
            forall|i: int| 0 <= i < j ==> attempts@[i] is None,
        decreases attempts@.len() - j,
    {
        match attempts[j] {
            Some(font) => {
                return Some((j, font));
            },
            None => {},
        }
        j = j + 1;
    }
    None
}

} // verus!
