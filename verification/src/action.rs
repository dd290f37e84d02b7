//! Rendering actions and the finished layout.

use vstd::prelude::*;

use crate::size::Size;
use crate::size::Size2D;

verus! {

/// One instruction for a renderer that maintains a "current font" state:
/// either switch the active font, or write a run of characters under it.
#[derive(Clone, Debug, PartialEq, Eq)]
pub enum LayoutAction {
    /// Make the font with this handle active, at this font size.
    SetFont(usize, Size),
    /// Write this run of characters under the active font.
    WriteText(String),
}

/// The mathematical value of a [`LayoutAction`]: the font handle and size
/// as integers, the text run as a sequence of characters.
pub enum ActionModel {
    /// Make the font with this handle active, at this size in micropoints.
    SetFont(int, int),
    /// Write this sequence of characters under the active font.
    Write(Seq<char>),
}

impl View for LayoutAction {
    type V = ActionModel;

    open spec fn view(&self) -> ActionModel {
        match self {
            LayoutAction::SetFont(font, font_size) => ActionModel::SetFont(
                *font as int,
                font_size@,
            ),
            LayoutAction::WriteText(text) => ActionModel::Write(text@),
        }
    }
}

/// The sequence of action values behind a sequence of actions.
pub open spec fn abs_actions(actions: Seq<LayoutAction>) -> Seq<ActionModel> {
    actions.map_values(|a: LayoutAction| a@)
}

/// The run of characters that one action writes: the payload of a write
/// action, nothing for a font switch.
pub open spec fn write_payload(action: ActionModel) -> Seq<char> {
    match action {
        ActionModel::Write(text) => text,
        ActionModel::SetFont(_, _) => Seq::empty(),
    }
}

/// The handle of the font that a switch action activates, or a sentinel
/// below every real handle for a write action.
pub open spec fn set_font_of(action: ActionModel) -> int {
    match action {
        ActionModel::SetFont(font, _) => font,
        ActionModel::Write(_) => -1,
    }
}

/// The concatenation of the text runs that `actions` writes, in order.
pub open spec fn write_concat(actions: Seq<ActionModel>) -> Seq<char>
    decreases actions.len(),
{
    if actions.len() == 0 {
        Seq::empty()
    } else {
        write_concat(actions.drop_last()) + write_payload(actions.last())
    }
}

/// The finished layout of one run of text: its bounding box and the
/// ordered actions that replay it.
#[derive(Clone, Debug, PartialEq, Eq)]
pub struct Layout {
    /// Width and height of the laid-out text.
    pub dimensions: Size2D,
    /// The font switches and text runs, in rendering order.
    pub actions: Vec<LayoutAction>,
    /// Whether a renderer should draw diagnostic boxes around the text.
    pub debug_render: bool,
}

} // verus!
