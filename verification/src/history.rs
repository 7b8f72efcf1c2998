//! The history of a buffer as a model: what a committed transaction, an
//! undo and a redo make of the text and of the two stacks, and what holds
//! of them whatever the text and whatever the edits.

use crate::buffer::{edit_applied, Buffer, BufferView, EditHistoryKind, PatchView};
use crate::edit::{
    all_fit, all_in_range, apply_all, inverse_all, lemma_edit_round_trip,
    lemma_transaction_round_trip, EditView,
};
use crate::syntax::tree_document;
use crate::selection::SelectionSetView;
use vstd::prelude::*;

verus! {

/// The buffer `pre` after the transaction `edits` was applied to it in full
/// and entered the history as `kind`, with `selection` as the selection at
/// that moment: the patch that takes the transaction back goes onto the
/// undo stack, or onto the redo stack for an undo, and a new edit empties
/// the redo stack.
pub open spec fn commit(
    pre: BufferView,
    edits: Seq<EditView>,
    selection: SelectionSetView,
    kind: EditHistoryKind,
) -> BufferView {
    let patch = PatchView { edits: inverse_all(edits), selection_set: selection };
    let text = apply_all(pre.text, edits);
    match kind {
        EditHistoryKind::NewEdit => BufferView {
            text,
            undo: pre.undo.push(patch),
            redo: Seq::empty(),
        },
        EditHistoryKind::Undo => BufferView { text, undo: pre.undo, redo: pre.redo.push(patch) },
        EditHistoryKind::Redo => BufferView { text, undo: pre.undo.push(patch), redo: pre.redo },
    }
}

/// The buffer `pre` after its last change was undone, with `selection` as
/// the selection at that moment.
pub open spec fn undone(pre: BufferView, selection: SelectionSetView) -> BufferView
    recommends
        pre.undo.len() > 0,
{
    commit(
        BufferView { undo: pre.undo.drop_last(), ..pre },
        pre.undo.last().edits,
        selection,
        EditHistoryKind::Undo,
    )
}

/// The buffer `pre` after the change that was undone last was made again,
/// with `selection` as the selection at that moment.
pub open spec fn redone(pre: BufferView, selection: SelectionSetView) -> BufferView
    recommends
        pre.redo.len() > 0,
{
    commit(
        BufferView { redo: pre.redo.drop_last(), ..pre },
        pre.redo.last().edits,
        selection,
        EditHistoryKind::Redo,
    )
}

/// The selection that the top of a history stack restores.
pub open spec fn restored_selection(stack: Seq<PatchView>) -> Option<SelectionSetView> {
    if stack.len() > 0 {
        Some(stack.last().selection_set)
    } else {
        None
    }
}

/// Whether `post_text` is what is left of `pre_text` where a transaction
/// stopped at its edit `index`: the edits before it are applied, and no
/// other.
pub open spec fn stopped_at(
    pre_text: Seq<char>,
    edits: Seq<EditView>,
    index: int,
    post_text: Seq<char>,
) -> bool {
    &&& 0 <= index < edits.len()
    &&& all_in_range(pre_text, edits.take(index))
    &&& post_text == apply_all(pre_text, edits.take(index))
}

/// Whether a transaction on `pre_text` that failed and left `post_text`
/// stopped at one of its edits, which is out of range of `post_text`.
pub open spec fn failed_within(
    pre_text: Seq<char>,
    edits: Seq<EditView>,
    post_text: Seq<char>,
) -> bool {
    exists|index: int| #[trigger]
        stopped_at(pre_text, edits, index, post_text) && !edits[index].in_range(post_text)
}

/// Edits that are all in range stay so for every shorter run of them, and
/// each is in range of the text that the ones before it leave.
pub proof fn lemma_in_range_prefix(text: Seq<char>, edits: Seq<EditView>, index: int)
    requires
        all_in_range(text, edits),
        0 <= index < edits.len(),
    ensures
        all_in_range(text, edits.take(index)),
        edits[index].in_range(apply_all(text, edits.take(index))),
    decreases edits.len(),
{
    if index == edits.len() - 1 {
        assert(edits.take(index) =~= edits.drop_last());
    } else {
        lemma_in_range_prefix(text, edits.drop_last(), index);
        assert(edits.drop_last().take(index) =~= edits.take(index));
    }
}

/// An edit that fits the text of a buffer, followed by its inverse, leads
/// back: the inverse is in range of the edited text, and the buffer after
/// both has the text and the history that it had before, and a tree that
/// the parser produced for that text.
pub proof fn lemma_edit_round_trip_state(
    before: Buffer,
    between: Buffer,
    after: Buffer,
    edit: EditView,
)
    requires
        edit.fits(before.text()),
        edit_applied(before, edit, between),
        edit_applied(between, edit.inverse(), after),
    ensures
        edit.inverse().in_range(between.text()),
        after@ == before@,
        tree_document(after.syntax_tree()) == before.text(),
{
    lemma_edit_round_trip(before.text(), edit);
}

/// From a state `start`, a new edit that fits the text leads to a state
/// from which an undo leads back to the text of `start`, to its undo stack,
/// and to the selection that was recorded with the edit. A redo after that
/// undo leads to the text after the edit again, and to the selection that
/// was current at the undo. The transactions that the undo and the redo
/// apply are in range of the texts that they meet.
pub proof fn lemma_undo_redo_symmetry(
    start: BufferView,
    edits: Seq<EditView>,
    recorded: SelectionSetView,
    at_undo: SelectionSetView,
    at_redo: SelectionSetView,
)
    requires
        all_fit(start.text, edits),
    ensures
        ({
            let edited = commit(start, edits, recorded, EditHistoryKind::NewEdit);
            let back = undone(edited, at_undo);
            let again = redone(back, at_redo);
            &&& edited.undo.len() > 0
            &&& all_in_range(edited.text, edited.undo.last().edits)
            &&& restored_selection(edited.undo) == Some(recorded)
            &&& back.text == start.text
            &&& back.undo == start.undo
            &&& back.redo.len() > 0
            &&& all_in_range(back.text, back.redo.last().edits)
            &&& restored_selection(back.redo) == Some(at_undo)
            &&& again.text == edited.text
            &&& again.undo.len() == edited.undo.len()
            &&& again.undo.last().edits == edited.undo.last().edits
            &&& again.redo.len() == 0
        }),
{
    let edited = commit(start, edits, recorded, EditHistoryKind::NewEdit);
    let back = undone(edited, at_undo);
    let again = redone(back, at_redo);
    lemma_transaction_round_trip(start.text, edits);
    assert(edited.undo.last().edits == inverse_all(edits));
    assert(edited.undo.drop_last() =~= start.undo);
    assert(back.text == apply_all(edited.text, inverse_all(edits)));
    assert(back.redo.last().edits == inverse_all(inverse_all(edits)));
    assert(back.redo.drop_last() =~= Seq::<PatchView>::empty());
    lemma_transaction_round_trip(edited.text, inverse_all(edits));
    assert(again.redo =~= Seq::<PatchView>::empty());
}

/// After a new edit there is nothing to redo, whatever was undone before
/// it.
pub proof fn lemma_new_edit_empties_redo(
    state: BufferView,
    edits: Seq<EditView>,
    selection: SelectionSetView,
)
    ensures
        commit(state, edits, selection, EditHistoryKind::NewEdit).redo.len() == 0,
        restored_selection(commit(state, edits, selection, EditHistoryKind::NewEdit).redo)
            is None,
{
}

/// An undo moves one patch from the undo stack to the redo stack, and a
/// redo moves one back: neither changes the number of patches in the
/// history, and a redo is possible only after an undo has put a patch on
/// the redo stack.
pub proof fn lemma_history_moves(state: BufferView, selection: SelectionSetView)
    ensures
        state.undo.len() > 0 ==> undone(state, selection).undo.len() == state.undo.len() - 1
            && undone(state, selection).redo.len() == state.redo.len() + 1,
        state.redo.len() > 0 ==> redone(state, selection).redo.len() == state.redo.len() - 1
            && redone(state, selection).undo.len() == state.undo.len() + 1,
{
}

} // verus!
