//! Laws of the action batching: what the emitted action sequence always
//! replays, however the fonts fell out.

use vstd::prelude::*;

use crate::action::ActionModel;
use crate::action::set_font_of;
use crate::action::write_concat;
use crate::action::write_payload;
use crate::layouter::layout_actions;

verus! {

/// Replaying the actions writes back exactly the input: the concatenation
/// of all write payloads, in order, is the laid-out character sequence,
/// regrouped only at font boundaries. The last action of a non-empty
/// layout is always a write.
pub proof fn lemma_write_concat(cs: Seq<char>, fonts: Seq<int>, font_size: int)
    requires
        cs.len() == fonts.len(),
    ensures
        write_concat(layout_actions(cs, fonts, font_size)) == cs,
        cs.len() > 0 ==> layout_actions(cs, fonts, font_size).len() > 0 && layout_actions(
            cs,
            fonts,
            font_size,
        ).last() is Write,
    decreases cs.len(),
{
    let res = layout_actions(cs, fonts, font_size);
    if cs.len() == 0 {
        assert(cs =~= Seq::<char>::empty());
    } else {
        lemma_write_concat(cs.drop_last(), fonts.drop_last(), font_size);
        let rest = layout_actions(cs.drop_last(), fonts.drop_last(), font_size);
        let c = cs.last();
        if cs.len() >= 2 && fonts[cs.len() - 2] == fonts.last() {
            let p = write_payload(rest.last());
            assert(res == rest.drop_last().push(ActionModel::Write(p.push(c))));
            assert(res.drop_last() =~= rest.drop_last());
            assert(write_concat(res) == write_concat(rest.drop_last()) + p.push(c));
            assert(write_concat(rest) == write_concat(rest.drop_last()) + p);
            assert(write_concat(res) =~= (write_concat(rest.drop_last()) + p) + seq![c]);
            assert(write_concat(res) =~= cs.drop_last() + seq![c]);
            assert(cs.drop_last() + seq![c] =~= cs);
        } else {
            let mid = rest.push(ActionModel::SetFont(fonts.last(), font_size));
            assert(res == mid.push(ActionModel::Write(seq![c])));
            assert(res.drop_last() =~= mid);
            assert(write_concat(res) == write_concat(mid) + seq![c]);
            assert(mid.drop_last() =~= rest);
            assert(write_concat(mid) == write_concat(rest) + write_payload(mid.last()));
            assert(write_concat(mid) =~= write_concat(rest));
            assert(write_concat(res) =~= cs.drop_last() + seq![c]);
            assert(cs.drop_last() + seq![c] =~= cs);
        }
    }
}

/// Replayed by a renderer that maintains a "current font" state, the
/// actions are never redundant: they strictly alternate one font switch
/// and one non-empty write per run, the last switch activates the last
/// character's font, and adjacent runs always switch to distinct fonts.
pub proof fn lemma_actions_shape(cs: Seq<char>, fonts: Seq<int>, font_size: int)
    requires
        cs.len() == fonts.len(),
    ensures
        layout_actions(cs, fonts, font_size).len() % 2 == 0,
        forall|j: int|
            0 <= j < layout_actions(cs, fonts, font_size).len() && j % 2 == 0 ==> (
            #[trigger] layout_actions(cs, fonts, font_size)[j]) is SetFont,
        forall|j: int|
            0 <= j < layout_actions(cs, fonts, font_size).len() && j % 2 == 1 ==> (
            #[trigger] layout_actions(cs, fonts, font_size)[j]) is Write && write_payload(
                layout_actions(cs, fonts, font_size)[j],
            ).len() > 0,
        cs.len() > 0 ==> layout_actions(cs, fonts, font_size).len() >= 2 && set_font_of(
            layout_actions(cs, fonts, font_size)[layout_actions(cs, fonts, font_size).len() - 2],
        ) == fonts.last(),
        forall|j: int|
            0 <= j && j + 2 < layout_actions(cs, fonts, font_size).len() && j % 2 == 0
                ==> set_font_of(#[trigger] layout_actions(cs, fonts, font_size)[j]) != set_font_of(
                layout_actions(cs, fonts, font_size)[j + 2],
            ),
    decreases cs.len(),
{
    let res = layout_actions(cs, fonts, font_size);
    if cs.len() == 0 {
    } else {
        lemma_actions_shape(cs.drop_last(), fonts.drop_last(), font_size);
        let rest = layout_actions(cs.drop_last(), fonts.drop_last(), font_size);
        let c = cs.last();
        if cs.len() >= 2 && fonts[cs.len() - 2] == fonts.last() {
            let p = write_payload(rest.last());
            assert(res == rest.drop_last().push(ActionModel::Write(p.push(c))));
            assert(res.len() == rest.len());
            assert(rest.len() >= 2);
            assert(fonts.drop_last().last() == fonts[cs.len() - 2]);
            assert forall|j: int| 0 <= j < res.len() - 1 implies res[j] == rest[j] by {}
            assert(res[res.len() - 1] == ActionModel::Write(p.push(c)));
            assert(set_font_of(res[res.len() - 2]) == set_font_of(rest[rest.len() - 2]));
        } else {
            assert(res == rest.push(ActionModel::SetFont(fonts.last(), font_size)).push(
                ActionModel::Write(seq![c]),
            ));
            assert(res.len() == rest.len() + 2);
            assert forall|j: int| 0 <= j < rest.len() implies res[j] == rest[j] by {}
            assert(res[rest.len() as int] == ActionModel::SetFont(fonts.last(), font_size));
            assert(res[rest.len() as int + 1] == ActionModel::Write(seq![c]));
            assert(write_payload(ActionModel::Write(seq![c])).len() == 1);
            if cs.len() >= 2 {
                assert(fonts.drop_last().last() == fonts[cs.len() - 2]);
                assert(set_font_of(rest[rest.len() - 2]) == fonts[cs.len() - 2]);
                assert(set_font_of(res[rest.len() as int - 2]) != set_font_of(res[rest.len() as int]));
            }
        }
    }
}

/// When every character resolves to one and the same font, the whole text
/// is set by exactly one font switch followed by one write of the input
/// verbatim, however long the run is.
pub proof fn lemma_uniform_font(cs: Seq<char>, fonts: Seq<int>, font_size: int)
    requires
        cs.len() == fonts.len(),
        cs.len() > 0,
        forall|i: int| 0 <= i < fonts.len() ==> #[trigger] fonts[i] == fonts[0],
    ensures
        layout_actions(cs, fonts, font_size) == seq![
            ActionModel::SetFont(fonts[0], font_size),
            ActionModel::Write(cs),
        ],
    decreases cs.len(),
{
    let res = layout_actions(cs, fonts, font_size);
    if cs.len() == 1 {
        reveal_with_fuel(layout_actions, 2);
        assert(seq![cs.last()] =~= cs);
        assert(res =~= seq![
            ActionModel::SetFont(fonts[0], font_size),
            ActionModel::Write(cs),
        ]);
    } else {
        lemma_uniform_font(cs.drop_last(), fonts.drop_last(), font_size);
        let rest = layout_actions(cs.drop_last(), fonts.drop_last(), font_size);
        assert(fonts[cs.len() - 2] == fonts.last());
        assert(rest.last() == ActionModel::Write(cs.drop_last()));
        assert(cs.drop_last().push(cs.last()) =~= cs);
        assert(res =~= seq![
            ActionModel::SetFont(fonts[0], font_size),
            ActionModel::Write(cs),
        ]);
    }
}

/// When each character's font differs from its predecessor's, nothing
/// merges: the actions alternate one font switch and one single-character
/// write per character, in input order.
pub proof fn lemma_alternating(cs: Seq<char>, fonts: Seq<int>, font_size: int)
    requires
        cs.len() == fonts.len(),
        forall|i: int| 1 <= i < fonts.len() ==> #[trigger] fonts[i] != fonts[i - 1],
    ensures
        layout_actions(cs, fonts, font_size).len() == 2 * cs.len(),
        forall|j: int|
            0 <= j < 2 * cs.len() ==> #[trigger] layout_actions(cs, fonts, font_size)[j] == (if j % 2
                == 0 {
                ActionModel::SetFont(fonts[j / 2], font_size)
            } else {
                ActionModel::Write(seq![cs[(j - 1) / 2]])
            }),
    decreases cs.len(),
{
    let res = layout_actions(cs, fonts, font_size);
    if cs.len() == 0 {
    } else {
        lemma_alternating(cs.drop_last(), fonts.drop_last(), font_size);
        let rest = layout_actions(cs.drop_last(), fonts.drop_last(), font_size);
        if cs.len() >= 2 {
            assert(fonts[cs.len() - 2] != fonts.last());
        }
        assert(res == rest.push(ActionModel::SetFont(fonts.last(), font_size)).push(
            ActionModel::Write(seq![cs.last()]),
        ));
        assert forall|j: int| 0 <= j < 2 * cs.len() implies #[trigger] res[j] == (if j % 2 == 0 {
            ActionModel::SetFont(fonts[j / 2], font_size)
        } else {
            ActionModel::Write(seq![cs[(j - 1) / 2]])
        }) by {
            if j < 2 * (cs.len() - 1) {
                assert(res[j] == rest[j]);
                assert(fonts.drop_last()[j / 2] == fonts[j / 2]);
                if j % 2 != 0 {
                    assert(cs.drop_last()[(j - 1) / 2] == cs[(j - 1) / 2]);
                }
            } else if j == 2 * cs.len() - 2 {
                assert(j % 2 == 0 && j / 2 == cs.len() - 1);
                assert(res[j] == ActionModel::SetFont(fonts.last(), font_size));
            } else {
                assert(j == 2 * cs.len() - 1);
                assert(j % 2 == 1 && (j - 1) / 2 == cs.len() - 1);
                assert(res[j] == ActionModel::Write(seq![cs.last()]));
            }
        }
    }
}

} // verus!

