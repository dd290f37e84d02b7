//! The text layouter: per-character font selection, advance widths, and
//! the batching of same-font runs into actions.

use vstd::prelude::*;
use vstd::arithmetic::mul::lemma_mul_upper_bound;

use crate::action::ActionModel;
use crate::action::Layout;
use crate::action::LayoutAction;
use crate::action::abs_actions;
use crate::action::set_font_of;
use crate::action::write_concat;
use crate::action::write_payload;
use crate::laws::lemma_actions_shape;
use crate::laws::lemma_write_concat;
use crate::size::MAX_FONT_SIZE_MICRO;
use crate::size::Size;
use crate::size::Size2D;
use crate::source::FontSource;
use crate::source::Resolved;
use crate::style::TextStyle;

verus! {

/// Largest advance width one character can have, in micropoints: the
/// largest font-unit advance at the largest accepted font size, under the
/// smallest em square.
pub const MAX_CHAR_WIDTH_MICRO: u128 = 0xFFFF * 0x100_0000_0000;

/// Why a layout call failed.
#[derive(Clone, Copy, Debug, PartialEq, Eq)]
pub enum LayoutError {
    /// No font in the fallback chain supports this character. The caller
    /// may widen the chain and retry the whole layout.
    NoSuitableFont(char),
    /// The font source broke its own contract: a font it chose for a
    /// character has a malformed header, an empty em square, or no
    /// metrics for that character. Unrecoverable within one layout call.
    FontFault,
}

/// The advance width of one character, in micropoints: its font-unit
/// advance, normalized by the font's em-square size and scaled to the
/// font size. The quotient is rounded toward zero onto the micropoint
/// grid.
pub open spec fn char_width_micro(advance: int, units_per_em: int, font_size: int) -> int
    recommends
        0 < units_per_em,
{
    (advance * font_size) / units_per_em
}

/// Whether `w` is the advance width of some character under some font at
/// `font_size`: font-unit advance and em-square size each fit sixteen
/// bits, and the em square is not empty.
pub open spec fn is_char_width(w: int, font_size: int) -> bool {
    exists|advance: int, units_per_em: int|
        {
            &&& 0 <= advance <= 0xFFFF
            &&& 0 < units_per_em <= 0xFFFF
            &&& w == char_width_micro(advance, units_per_em, font_size)
        }
}

/// The sum of a sequence of widths, in order.
pub open spec fn sum_widths(widths: Seq<int>) -> int
    decreases widths.len(),
{
    if widths.len() == 0 {
        0
    } else {
        sum_widths(widths.drop_last()) + widths.last()
    }
}

/// The font handles of a resolution sequence, one per character.
pub open spec fn fonts_of(resolved: Seq<Resolved>) -> Seq<int> {
    resolved.map_values(|r: Resolved| r.font as int)
}

/// The advance widths of a resolution sequence, one per character.
pub open spec fn widths_of(resolved: Seq<Resolved>) -> Seq<int> {
    resolved.map_values(|r: Resolved| r.width@)
}

/// The action sequence that lays out the characters `cs`, the `i`th set in
/// the font with handle `fonts[i]`, at `font_size`: consecutive characters
/// sharing a font merge into one write run; a character whose font differs
/// from its predecessor's (or that has no predecessor) opens a new run
/// behind one font switch.
pub open spec fn layout_actions(cs: Seq<char>, fonts: Seq<int>, font_size: int) -> Seq<ActionModel>
    recommends
        cs.len() == fonts.len(),
    decreases cs.len(),
{
    if cs.len() == 0 {
        Seq::empty()
    } else {
        let rest = layout_actions(cs.drop_last(), fonts.drop_last(), font_size);
        if cs.len() >= 2 && fonts[cs.len() - 2] == fonts.last() {
            rest.drop_last().push(ActionModel::Write(write_payload(rest.last()).push(cs.last())))
        } else {
            rest.push(ActionModel::SetFont(fonts.last(), font_size)).push(
                ActionModel::Write(seq![cs.last()]),
            )
        }
    }
}

/// Adding the next width extends a prefix sum by exactly that width.
pub proof fn lemma_sum_take_succ(widths: Seq<int>, i: int)
    requires
        0 <= i < widths.len(),
    ensures
        sum_widths(widths.take(i + 1)) == sum_widths(widths.take(i)) + widths[i],
{
    assert(widths.take(i + 1).drop_last() =~= widths.take(i));
    assert(widths.take(i + 1).last() == widths[i]);
}

/// A prefix of a sequence of non-negative widths sums to no more than the
/// whole sequence.
pub proof fn lemma_sum_prefix_bounded(widths: Seq<int>, k: int)
    requires
        0 <= k <= widths.len(),
        forall|i: int| 0 <= i < widths.len() ==> widths[i] >= 0,
    ensures
        sum_widths(widths.take(k)) <= sum_widths(widths),
    decreases widths.len() - k,
{
    if k == widths.len() {
        assert(widths.take(k) =~= widths);
    } else {
        lemma_sum_take_succ(widths, k);
        lemma_sum_prefix_bounded(widths, k + 1);
    }
}

/// A sequence of widths that each lie between zero and `bound` sums to
/// between zero and `bound` taken once per width.
pub proof fn lemma_sum_bounded_by_max(widths: Seq<int>, bound: int)
    requires
        0 <= bound,
        forall|i: int| 0 <= i < widths.len() ==> 0 <= #[trigger] widths[i] <= bound,
    ensures
        0 <= sum_widths(widths) <= widths.len() * bound,
    decreases widths.len(),
{
    if widths.len() == 0 {
    } else {
        let rest = widths.drop_last();
        assert(forall|i: int| 0 <= i < rest.len() ==> 0 <= #[trigger] rest[i] <= bound);
        lemma_sum_bounded_by_max(rest, bound);
        assert((widths.len() - 1) * bound + bound == widths.len() * bound) by (nonlinear_arith);
    }
}

/// Mapping a pushed action sequence to its values pushes the new action's
/// value.
proof fn lemma_abs_push(actions: Seq<LayoutAction>, a: LayoutAction)
    ensures
        abs_actions(actions.push(a)) == abs_actions(actions).push(a@),
{
    assert(abs_actions(actions.push(a)) =~= abs_actions(actions).push(a@));
}

/// Relies on String::push: appends the character to the end of the string.
#[verifier::external_body]
fn push_char(s: &mut String, c: char)
    ensures
        final(s)@ == old(s)@.push(c),
{
    s.push(c)
}

/// Relies on str::chars: yields the characters of the string in order.
#[verifier::external_body]
fn chars_of(text: &str) -> (r: Vec<char>)
    ensures
        r@ == text@,
{
    text.chars().collect()
}

/// The advance width of `c`'s glyph: `advance` font units under an em
/// square of `units_per_em`, scaled to `font_size`.
pub fn char_width(advance: u16, units_per_em: u16, font_size: Size) -> (w: Size)
    requires
        0 < units_per_em,
        font_size@ <= MAX_FONT_SIZE_MICRO,
    ensures
        w@ == char_width_micro(advance as int, units_per_em as int, font_size@),
        w@ <= MAX_CHAR_WIDTH_MICRO,
{
    proof {
        lemma_mul_upper_bound(advance as int, 0xFFFF, font_size@, MAX_FONT_SIZE_MICRO as int);
        assert((advance as int * font_size@) / (units_per_em as int) <= advance as int
            * font_size@) by (nonlinear_arith)
            requires
                0 < units_per_em as int,
                0 <= advance as int * font_size@,
        ;
    }
    let product: u128 = (advance as u128) * font_size.micropoints;
    Size::from_micropoints(product / (units_per_em as u128))
}

/// Reads the chosen font's metrics for `c` and turns them into a width.
/// A missing em square, an empty one, or missing advance metrics on a
/// font that was chosen for `c` is a broken collaborator contract and
/// surfaces as [`LayoutError::FontFault`].
fn resolved_width<F: FontSource>(source: &mut F, font_size: Size, font: usize, c: char) -> (r:
    Result<Resolved, LayoutError>)
    requires
        font_size@ <= MAX_FONT_SIZE_MICRO,
    ensures
        match r {
            Ok(res) => {
                &&& res.font == font
                &&& res.width@ <= MAX_CHAR_WIDTH_MICRO
                &&& is_char_width(res.width@, font_size@)
            },
            Err(e) => e == LayoutError::FontFault,
        },
{
    let units_per_em = match source.units_per_em(font) {
        Some(u) => u,
        None => {
            return Err(LayoutError::FontFault);
        },
    };
    if units_per_em == 0 {
        return Err(LayoutError::FontFault);
    }
    let advance = match source.advance_width(font, c) {
        Some(a) => a,
        None => {
            return Err(LayoutError::FontFault);
        },
    };
    let width = char_width(advance, units_per_em, font_size);
    proof {
        assert(width@ == char_width_micro(advance as int, units_per_em as int, font_size@));
    }
    Ok(Resolved { font, width })
}

/// Lays out characters whose fonts are already resolved: merges
/// consecutive same-font characters into write runs behind one font
/// switch each, and sums the advance widths into the box's width. The
/// box's height is the font size, one line with no leading.
pub fn layout_resolved(chars: &Vec<char>, resolved: &Vec<Resolved>, font_size: Size) -> (l: Layout)
    requires
        resolved@.len() == chars@.len(),
        sum_widths(widths_of(resolved@)) <= u128::MAX,
    ensures
        abs_actions(l.actions@) == layout_actions(chars@, fonts_of(resolved@), font_size@),
        l.dimensions.x@ == sum_widths(widths_of(resolved@)),
        l.dimensions.y@ == font_size@,
        l.debug_render == false,
{
    let ghost cs = chars@;
    let ghost hs = fonts_of(resolved@);
    let ghost ws = widths_of(resolved@);
    proof {
        assert(forall|k: int| 0 <= k < ws.len() ==> #[trigger] ws[k] >= 0);
    }
    let n = chars.len();
    let mut actions: Vec<LayoutAction> = Vec::new();
    let mut buffer: String = String::new();
    let mut active: Option<usize> = None;
    let mut width: u128 = 0;
    let mut i: usize = 0;
    while i < n
        invariant
            n == cs.len(),
            cs == chars@,
            hs == fonts_of(resolved@),
            ws == widths_of(resolved@),
            resolved@.len() == n,
            sum_widths(ws) <= u128::MAX,
            forall|k: int| 0 <= k < ws.len() ==> #[trigger] ws[k] >= 0,
            i <= n,
            width as int == sum_widths(ws.take(i as int)),
            i == 0 ==> actions@.len() == 0 && buffer@.len() == 0 && active is None,
            i > 0 ==> buffer@.len() > 0 && active == Some(resolved@[i - 1].font) && abs_actions(
                actions@,
            ).push(ActionModel::Write(buffer@)) == layout_actions(
                cs.take(i as int),
                hs.take(i as int),
                font_size@,
            ),
        decreases n - i,
    {
        let r = resolved[i];
        let c = chars[i];
        proof {
            assert(ws[i as int] == resolved@[i as int].width@);
            lemma_sum_take_succ(ws, i as int);
            lemma_sum_prefix_bounded(ws, i as int + 1);
        }
        width = width + r.width.micropoints;
        let switch = match active {
            Some(f) => f != r.font,
            None => true,
        };
        let ghost cs1 = cs.take(i as int + 1);
        let ghost hs1 = hs.take(i as int + 1);
        proof {
            assert(cs1.drop_last() =~= cs.take(i as int));
            assert(hs1.drop_last() =~= hs.take(i as int));
            assert(cs1.last() == cs[i as int]);
            assert(hs1.last() == hs[i as int]);
            assert(hs[i as int] == r.font as int);
            if i > 0 {
                assert(hs1[i - 1] == hs[i - 1]);
                assert(hs[i - 1] == resolved@[i - 1].font as int);
            }
        }
        if switch {
            let ghost rest = layout_actions(cs.take(i as int), hs.take(i as int), font_size@);
            proof {
                assert(!(cs1.len() >= 2 && hs1[cs1.len() - 2] == hs1.last()));
                assert(layout_actions(cs1, hs1, font_size@) == rest.push(
                    ActionModel::SetFont(hs1.last(), font_size@),
                ).push(ActionModel::Write(seq![cs1.last()])));
            }
            if !buffer.as_str().is_empty() {
                proof {
                    lemma_abs_push(actions@, LayoutAction::WriteText(buffer));
                }
                actions.push(LayoutAction::WriteText(buffer));
                buffer = String::new();
            }
            proof {
                if i == 0 {
                    assert(cs.take(0) =~= Seq::<char>::empty());
                    assert(abs_actions(actions@) =~= rest);
                } else {
                    assert(abs_actions(actions@) == rest);
                }
                lemma_abs_push(actions@, LayoutAction::SetFont(r.font, font_size));
            }
            actions.push(LayoutAction::SetFont(r.font, font_size));
            active = Some(r.font);
            proof {
                assert(abs_actions(actions@) == rest.push(
                    ActionModel::SetFont(r.font as int, font_size@),
                ));
            }
        } else {
            let ghost rest = layout_actions(cs.take(i as int), hs.take(i as int), font_size@);
            proof {
                assert(i > 0);
                assert(hs1[cs1.len() - 2] == hs1.last());
                assert(layout_actions(cs1, hs1, font_size@) == rest.drop_last().push(
                    ActionModel::Write(write_payload(rest.last()).push(cs1.last())),
                ));
                assert(rest == abs_actions(actions@).push(ActionModel::Write(buffer@)));
                assert(rest.last() == ActionModel::Write(buffer@));
                assert(rest.drop_last() =~= abs_actions(actions@));
            }
        }
        push_char(&mut buffer, c);
        proof {
            if i == 0 || switch {
                assert(buffer@ =~= seq![cs[i as int]]);
            }
        }
        i = i + 1;
    }
    proof {
        assert(ws.take(n as int) =~= ws);
        assert(cs.take(n as int) =~= cs);
        assert(hs.take(n as int) =~= hs);
    }
    if !buffer.as_str().is_empty() {
        proof {
            lemma_abs_push(actions@, LayoutAction::WriteText(buffer));
        }
        actions.push(LayoutAction::WriteText(buffer));
    } else {
        proof {
            assert(n == 0);
            assert(abs_actions(actions@) =~= layout_actions(cs, hs, font_size@));
        }
    }
    Layout {
        dimensions: Size2D { x: Size { micropoints: width }, y: font_size },
        actions,
        debug_render: false,
    }
}

/// Selects the font for one character: each fallback tag, in listed
/// order, extends the primary classes for one query, and the first query
/// the source answers wins; with an empty fallback chain the primary
/// classes alone are tried once. Failure names exactly the character that
/// nothing supports.
pub fn select_font<F: FontSource>(source: &mut F, style: &TextStyle, c: char) -> (r: Result<
    Resolved,
    LayoutError,
>)
    requires
        style.valid(),
    ensures
        match r {
            Ok(res) => res.width@ <= MAX_CHAR_WIDTH_MICRO && is_char_width(res.width@, style.font_size@),
            Err(e) => e == LayoutError::NoSuitableFont(c) || e == LayoutError::FontFault,
        },
{
    if style.fallback.len() == 0 {
        match source.resolve(c, &style.classes, None) {
            Some(font) => resolved_width(source, style.font_size, font, c),
            None => Err(LayoutError::NoSuitableFont(c)),
        }
    } else {
        let mut j: usize = 0;
        while j < style.fallback.len()
            invariant
                style.valid(),
            decreases style.fallback@.len() - j,
        {
            match source.resolve(c, &style.classes, Some(&style.fallback[j])) {
                Some(font) => {
                    return resolved_width(source, style.font_size, font, c);
                },
                None => {},
            }
            j = j + 1;
        }
        Err(LayoutError::NoSuitableFont(c))
    }
}

/// The context a general layout pass carries: the font source and the
/// active text style.
pub struct LayoutContext<F> {
    /// The font collaborator, held exclusively for the pass.
    pub source: F,
    /// The style that text runs are set in.
    pub style: TextStyle,
}

/// The context for text layouting: what [`layout_text`] reads of a layout
/// pass.
pub struct TextContext<F> {
    /// The font collaborator, held exclusively for the call.
    pub source: F,
    /// The style the text is set in.
    pub style: TextStyle,
}

impl<F> TextContext<F> {
    /// Create a text context from a generic layout context.
    pub fn from_layout_ctx(ctx: LayoutContext<F>) -> (r: TextContext<F>)
        ensures
            r.source == ctx.source,
            r.style == ctx.style,
    {
        TextContext { source: ctx.source, style: ctx.style }
    }
}

/// Lays text out into a box: left to right, one font per character picked
/// through the context's font source, consecutive same-font characters
/// batched into one write action. Succeeds with the full layout, or fails
/// on the first character that no font supports — naming it — or on a
/// broken font; no partial layout is returned. Empty text always succeeds,
/// with no actions, zero width and the font size as height.
pub fn layout_text<F: FontSource>(text: &str, ctx: &mut TextContext<F>) -> (r: Result<
    Layout,
    LayoutError,
>)
    requires
        old(ctx).style.valid(),
    ensures
        final(ctx).style == old(ctx).style,
        match r {
            Ok(l) => {
                &&& l.dimensions.y@ == old(ctx).style.font_size@
                &&& l.debug_render == false
                &&& write_concat(abs_actions(l.actions@)) == text@
                &&& exists|fonts: Seq<int>, widths: Seq<int>|
                    {
                        &&& fonts.len() == text@.len()
                        &&& widths.len() == text@.len()
                        &&& abs_actions(l.actions@) == layout_actions(
                            text@,
                            fonts,
                            old(ctx).style.font_size@,
                        )
                        &&& l.dimensions.x@ == sum_widths(widths)
                        &&& forall|i: int|
                            0 <= i < widths.len() ==> 0 <= #[trigger] widths[i]
                                <= MAX_CHAR_WIDTH_MICRO && is_char_width(
                                widths[i],
                                old(ctx).style.font_size@,
                            )
                    }
                &&& (text@.len() == 0 ==> l.actions@.len() == 0 && l.dimensions.x@ == 0)
                &&& l.actions@.len() % 2 == 0
                &&& forall|j: int|
                    0 <= j < l.actions@.len() && j % 2 == 0 ==> (#[trigger] abs_actions(
                        l.actions@,
                    )[j]) is SetFont
                &&& forall|j: int|
                    0 <= j < l.actions@.len() && j % 2 == 1 ==> (#[trigger] abs_actions(
                        l.actions@,
                    )[j]) is Write && write_payload(abs_actions(l.actions@)[j]).len() > 0
                &&& forall|j: int|
                    0 <= j && j + 2 < l.actions@.len() && j % 2 == 0 ==> set_font_of(
                        #[trigger] abs_actions(l.actions@)[j],
                    ) != set_font_of(abs_actions(l.actions@)[j + 2])
            },
            Err(e) => match e {
                LayoutError::NoSuitableFont(c) => text@.contains(c),
                LayoutError::FontFault => true,
            },
        },
        text@.len() == 0 ==> r is Ok,
{
    let chars = chars_of(text);
    let ghost style0 = ctx.style;
    let mut resolved: Vec<Resolved> = Vec::new();
    let mut i: usize = 0;
    while i < chars.len()
        invariant
            chars@ == text@,
            ctx.style == style0,
            style0 == old(ctx).style,
            style0.valid(),
            resolved@.len() == i,
            i <= chars@.len(),
            forall|k: int|
                0 <= k < i ==> 0 <= #[trigger] widths_of(resolved@)[k] <= MAX_CHAR_WIDTH_MICRO
                    && is_char_width(widths_of(resolved@)[k], style0.font_size@),
        decreases chars@.len() - i,
    {
        let c = chars[i];
        match select_font(&mut ctx.source, &ctx.style, c) {
            Ok(res) => {
                proof {
                    assert(widths_of(resolved@.push(res)) =~= widths_of(resolved@).push(
                        res.width@,
                    ));
                }
                resolved.push(res);
            },
            Err(e) => {
                proof {
                    if e == LayoutError::NoSuitableFont(c) {
                        assert(text@[i as int] == c);
                        assert(text@.contains(c));
                    }
                }
                return Err(e);
            },
        }
        i = i + 1;
    }
    let m = resolved.len();
    proof {
        lemma_sum_bounded_by_max(widths_of(resolved@), MAX_CHAR_WIDTH_MICRO as int);
        assert(widths_of(resolved@).len() == m as int);
        assert(m as int * (MAX_CHAR_WIDTH_MICRO as int) <= u128::MAX) by (nonlinear_arith)
            requires
                0 <= m as int <= 0xFFFF_FFFF_FFFF_FFFFu128 as int,
        ;
    }
    let l = layout_resolved(&chars, &resolved, ctx.style.font_size);
    proof {
        lemma_write_concat(chars@, fonts_of(resolved@), style0.font_size@);
        lemma_actions_shape(chars@, fonts_of(resolved@), style0.font_size@);
        assert(abs_actions(l.actions@).len() == l.actions@.len());
        assert(fonts_of(resolved@).len() == text@.len());
        assert(widths_of(resolved@).len() == text@.len());
        if text@.len() == 0 {
            assert(abs_actions(l.actions@).len() == 0);
            assert(l.actions@.len() == 0);
        }
    }
    Ok(l)
}

} // verus!
