//! Character positions and the selections recorded with each history entry.

use std::ops::Range;
use vstd::prelude::*;

verus! {

/// A position in the buffer, counted in characters from the start.
#[derive(Clone, Copy, Debug, PartialEq, Eq, Structural)]
pub struct CharIndex(pub usize);

impl CharIndex {
    /// The position `count` characters further on, or `None` where that
    /// position cannot be represented.
    pub fn checked_add(self, count: usize) -> (res: Option<CharIndex>)
        ensures
            self.0 + count <= usize::MAX ==> res == Some(CharIndex((self.0 + count) as usize)),
            self.0 + count > usize::MAX ==> res is None,
    {
        match self.0.checked_add(count) {
            Some(sum) => Some(CharIndex(sum)),
            None => None,
        }
    }
}

/// What a selection is, as plain mathematical values.
pub struct SelectionView {
    pub start: int,
    pub end: int,
    pub node_id: Option<usize>,
}

/// One cursor or selected range, optionally remembering the syntax node it
/// was made on.
#[derive(Debug, PartialEq, Eq)]
pub struct Selection {
    pub range: Range<CharIndex>,
    pub node_id: Option<usize>,
}

impl View for Selection {
    type V = SelectionView;

    open spec fn view(&self) -> SelectionView {
        SelectionView {
            start: self.range.start.0 as int,
            end: self.range.end.0 as int,
            node_id: self.node_id,
        }
    }
}

impl Selection {
    /// A selection of `range` that remembers no node.
    pub fn new(range: Range<CharIndex>) -> (res: Selection)
        ensures
            res@ == (SelectionView {
                start: range.start.0 as int,
                end: range.end.0 as int,
                node_id: None,
            }),
    {
        Selection { range, node_id: None }
    }

    /// The same selection, remembering the node `node_id`.
    pub fn with_node_id(self, node_id: usize) -> (res: Selection)
        ensures
            res@ == (SelectionView { node_id: Some(node_id), ..self@ }),
    {
        Selection { range: self.range, node_id: Some(node_id) }
    }
}

impl Clone for Selection {
    fn clone(&self) -> (res: Selection)
        ensures
            res@ == self@,
    {
        Selection {
            range: Range { start: self.range.start, end: self.range.end },
            node_id: self.node_id,
        }
    }
}

/// What a selection set is, as plain mathematical values.
pub struct SelectionSetView {
    pub primary: SelectionView,
    pub secondary: Seq<SelectionView>,
}

/// The selections that are active at one moment: the primary one and any
/// number of secondary ones.
#[derive(Debug, PartialEq, Eq)]
pub struct SelectionSet {
    pub primary: Selection,
    pub secondary: Vec<Selection>,
}

impl View for SelectionSet {
    type V = SelectionSetView;

    open spec fn view(&self) -> SelectionSetView {
        SelectionSetView {
            primary: self.primary@,
            secondary: self.secondary@.map_values(|s: Selection| s@),
        }
    }
}

impl SelectionSet {
    /// A set that holds `primary` alone.
    pub fn new(primary: Selection) -> (res: SelectionSet)
        ensures
            res@ == (SelectionSetView { primary: primary@, secondary: Seq::empty() }),
    {
        let res = SelectionSet { primary, secondary: Vec::new() };
        assert(res.secondary@.map_values(|s: Selection| s@) =~= Seq::empty());
        res
    }
}

impl Clone for SelectionSet {
    fn clone(&self) -> (res: SelectionSet)
        ensures
            res@ == self@,
    {
        let mut secondary: Vec<Selection> = Vec::new();
        let mut i: usize = 0;
        while i < self.secondary.len()
            invariant
                i <= self.secondary.len(),
                secondary.len() == i,
                forall|k: int| 0 <= k < i ==> secondary[k]@ == self.secondary[k]@,
            decreases self.secondary.len() - i,
        {
            secondary.push(self.secondary[i].clone());
            i = i + 1;
        }
        let res = SelectionSet { primary: self.primary.clone(), secondary };
        assert(res.secondary@.map_values(|s: Selection| s@) =~= self.secondary@.map_values(
            |s: Selection| s@,
        ));
        res
    }
}

} // verus!
