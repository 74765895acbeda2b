//! Undo and redo snapshots of the install-order list.
use vstd::prelude::*;

use crate::items::{copy_items, rows, Step3ItemState};

verus! {

/// Records the current list as an undo step and forgets the redo steps.
pub fn push_undo_snapshot(
    items: &Vec<Step3ItemState>,
    undo_stack: &mut Vec<Vec<Step3ItemState>>,
    redo_stack: &mut Vec<Vec<Step3ItemState>>,
)
    ensures
        final(undo_stack)@.len() == old(undo_stack)@.len() + 1,
        final(undo_stack)@.take(old(undo_stack)@.len() as int) == old(undo_stack)@,
        rows(final(undo_stack)@.last()@) == rows(items@),
        final(redo_stack)@.len() == 0,
{
    let snapshot = copy_items(items);
    undo_stack.push(snapshot);
    redo_stack.clear();
    assert(undo_stack@.take(old(undo_stack)@.len() as int) =~= old(undo_stack)@);
}

} // verus!
