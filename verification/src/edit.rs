//! Edits: single replacements of a stretch of text, ordered groups of them,
//! and their inverses.

use crate::rope::splice;
use crate::selection::CharIndex;
use vstd::prelude::*;
use vstd::string::StrSliceExecFns;

verus! {

/// What an edit is, as plain mathematical values: replace the characters
/// `old`, which start at `start`, by the characters `new`.
pub struct EditView {
    pub start: int,
    pub old: Seq<char>,
    pub new: Seq<char>,
}

impl EditView {
    /// The position just behind the replaced characters.
    pub open spec fn end(self) -> int {
        self.start + self.old.len()
    }

    /// Whether the replaced stretch lies within `text`.
    pub open spec fn in_range(self, text: Seq<char>) -> bool {
        0 <= self.start && self.end() <= text.len()
    }

    /// Whether `text` holds, at `start`, exactly the characters that the
    /// edit says it replaces.
    pub open spec fn fits(self, text: Seq<char>) -> bool {
        self.in_range(text) && text.subrange(self.start, self.end()) == self.old
    }

    /// `text` after the edit.
    pub open spec fn apply(self, text: Seq<char>) -> Seq<char> {
        splice(text, self.start, self.end(), self.new)
    }

    /// The edit at the same position that puts the replaced characters back.
    pub open spec fn inverse(self) -> EditView {
        EditView { start: self.start, old: self.new, new: self.old }
    }
}

/// `text` after the edits of `edits`, each applied to what the one before
/// it left.
pub open spec fn apply_all(text: Seq<char>, edits: Seq<EditView>) -> Seq<char>
    decreases edits.len(),
{
    if edits.len() == 0 {
        text
    } else {
        edits.last().apply(apply_all(text, edits.drop_last()))
    }
}

/// Whether each edit of `edits` is in range of the text that the edits
/// before it leave of `text`.
pub open spec fn all_in_range(text: Seq<char>, edits: Seq<EditView>) -> bool
    decreases edits.len(),
{
    edits.len() == 0 || (all_in_range(text, edits.drop_last()) && edits.last().in_range(
        apply_all(text, edits.drop_last()),
    ))
}

/// Whether each edit of `edits` fits the text that the edits before it
/// leave of `text`.
pub open spec fn all_fit(text: Seq<char>, edits: Seq<EditView>) -> bool
    decreases edits.len(),
{
    edits.len() == 0 || (all_fit(text, edits.drop_last()) && edits.last().fits(
        apply_all(text, edits.drop_last()),
    ))
}

/// The inverses of the edits of `edits`, last edit first.
pub open spec fn inverse_all(edits: Seq<EditView>) -> Seq<EditView> {
    Seq::new(edits.len(), |i: int| edits[edits.len() - 1 - i].inverse())
}

/// One replacement of a stretch of text.
#[derive(Debug, PartialEq, Eq)]
pub struct Edit {
    /// Where the replaced characters start.
    pub start: CharIndex,
    /// The characters that are replaced.
    pub old: String,
    /// The characters that take their place.
    pub new: String,
}

impl View for Edit {
    type V = EditView;

    open spec fn view(&self) -> EditView {
        EditView { start: self.start.0 as int, old: self.old@, new: self.new@ }
    }
}

impl Clone for Edit {
    fn clone(&self) -> (res: Edit)
        ensures
            res@ == self@,
    {
        Edit { start: self.start, old: self.old.clone(), new: self.new.clone() }
    }
}

impl Edit {
    /// The edit that replaces `old`, found at `start`, by `new`.
    pub fn new(start: CharIndex, old: String, new: String) -> (res: Edit)
        ensures
            res@ == (EditView { start: start.0 as int, old: old@, new: new@ }),
    {
        Edit { start, old, new }
    }

    /// The position just behind the replaced characters, or `None` where
    /// that position cannot be represented.
    pub fn end(&self) -> (res: Option<CharIndex>)
        ensures
            self@.end() <= usize::MAX ==> res == Some(CharIndex(self@.end() as usize)),
            self@.end() > usize::MAX ==> res is None,
    {
        let old_len = self.old.as_str().unicode_len();
        self.start.checked_add(old_len)
    }

    /// The edit at the same position with the replaced and the replacing
    /// characters exchanged.
    pub fn inverse(&self) -> (res: Edit)
        ensures
            res@ == self@.inverse(),
    {
        Edit { start: self.start, old: self.new.clone(), new: self.old.clone() }
    }
}

/// An ordered group of edits that is applied as one unit.
#[derive(Debug, PartialEq, Eq)]
pub struct EditTransaction {
    edits: Vec<Edit>,
}

impl View for EditTransaction {
    type V = Seq<EditView>;

    closed spec fn view(&self) -> Seq<EditView> {
        self.edits@.map_values(|e: Edit| e@)
    }
}

impl Clone for EditTransaction {
    fn clone(&self) -> (res: EditTransaction)
        ensures
            res@ == self@,
    {
        let mut edits: Vec<Edit> = Vec::new();
        let mut i: usize = 0;
        while i < self.edits.len()
            invariant
                i <= self.edits.len(),
                edits.len() == i,
                forall|k: int| 0 <= k < i ==> edits[k]@ == self.edits[k]@,
            decreases self.edits.len() - i,
        {
            edits.push(self.edits[i].clone());
            i = i + 1;
        }
        let res = EditTransaction { edits };
        assert(res@ =~= self@);
        res
    }
}

impl EditTransaction {
    /// The transaction that applies `edits` in order.
    pub fn from_edits(edits: Vec<Edit>) -> (res: EditTransaction)
        ensures
            res@ == edits@.map_values(|e: Edit| e@),
    {
        EditTransaction { edits }
    }

    /// The edits, in the order in which they are applied.
    pub fn edits(&self) -> (res: &Vec<Edit>)
        ensures
            res@.map_values(|e: Edit| e@) == self@,
    {
        &self.edits
    }

    /// The number of edits.
    pub fn len(&self) -> (res: usize)
        ensures
            res == self@.len(),
    {
        self.edits.len()
    }

    /// The edit at `index`.
    pub fn get(&self, index: usize) -> (res: &Edit)
        requires
            index < self@.len(),
        ensures
            res@ == self@[index as int],
    {
        &self.edits[index]
    }

    /// The transaction that takes this one back: the inverse of each edit,
    /// last edit first.
    pub fn inverse(&self) -> (res: EditTransaction)
        ensures
            res@ == inverse_all(self@),
    {
        let n = self.edits.len();
        let mut edits: Vec<Edit> = Vec::new();
        let mut i: usize = 0;
        while i < n
            invariant
                n == self.edits.len(),
                i <= n,
                edits.len() == i,
                forall|k: int| 0 <= k < i ==> edits[k]@ == self.edits[n - 1 - k]@.inverse(),
            decreases n - i,
        {
            edits.push(self.edits[n - 1 - i].inverse());
            i = i + 1;
        }
        let res = EditTransaction { edits };
        assert(res@ =~= inverse_all(self@));
        res
    }
}

/// An edit that fits a text is undone by its inverse: the inverse fits the
/// edited text, and applying it gives the first text back.
pub proof fn lemma_edit_round_trip(text: Seq<char>, edit: EditView)
    requires
        edit.fits(text),
    ensures
        edit.inverse().fits(edit.apply(text)),
        edit.inverse().apply(edit.apply(text)) == text,
        edit.inverse().inverse() == edit,
{
    let after = edit.apply(text);
    assert(after.subrange(edit.start, edit.start + edit.new.len()) =~= edit.new);
    assert(edit.inverse().apply(after) =~= text);
}

/// Applying a group of edits that starts with `first` is applying `first`
/// and then the rest.
pub proof fn lemma_apply_all_first(text: Seq<char>, first: EditView, rest: Seq<EditView>)
    ensures
        apply_all(text, seq![first] + rest) == apply_all(first.apply(text), rest),
        all_in_range(text, seq![first] + rest) == (first.in_range(text) && all_in_range(
            first.apply(text),
            rest,
        )),
        all_fit(text, seq![first] + rest) == (first.fits(text) && all_fit(
            first.apply(text),
            rest,
        )),
    decreases rest.len(),
{
    let all = seq![first] + rest;
    let init = all.drop_last();
    if rest.len() == 0 {
        assert(init =~= Seq::<EditView>::empty());
        assert(all.last() == first);
        assert(apply_all(text, init) == text);
        assert(all_in_range(text, init));
        assert(all_fit(text, init));
        assert(all_in_range(first.apply(text), rest));
        assert(all_fit(first.apply(text), rest));
    } else {
        lemma_apply_all_first(text, first, rest.drop_last());
        assert(init =~= seq![first] + rest.drop_last());
        assert(all.last() == rest.last());
        assert(apply_all(text, init) == apply_all(first.apply(text), rest.drop_last()));
    }
    assert(all_in_range(text, all) == (all_in_range(text, init) && all.last().in_range(
        apply_all(text, init),
    )));
    assert(all_fit(text, all) == (all_fit(text, init) && all.last().fits(apply_all(text, init))));
}

/// A group of edits of which each fits the text it meets is undone by the
/// inverse group: each inverse fits the text it meets, and the first text
/// comes back.
pub proof fn lemma_transaction_round_trip(text: Seq<char>, edits: Seq<EditView>)
    requires
        all_fit(text, edits),
    ensures
        all_fit(apply_all(text, edits), inverse_all(edits)),
        all_in_range(apply_all(text, edits), inverse_all(edits)),
        apply_all(apply_all(text, edits), inverse_all(edits)) == text,
        inverse_all(inverse_all(edits)) == edits,
    decreases edits.len(),
{
    assert(inverse_all(inverse_all(edits)) =~= edits);
    if edits.len() == 0 {
        assert(inverse_all(edits) =~= Seq::<EditView>::empty());
    } else {
        let init = edits.drop_last();
        let last = edits.last();
        let before = apply_all(text, init);
        lemma_transaction_round_trip(text, init);
        lemma_edit_round_trip(before, last);
        assert(inverse_all(edits) =~= seq![last.inverse()] + inverse_all(init));
        lemma_apply_all_first(last.apply(before), last.inverse(), inverse_all(init));
    }
    lemma_all_fit_in_range(apply_all(text, edits), inverse_all(edits));
}

/// Edits that fit are in range.
pub proof fn lemma_all_fit_in_range(text: Seq<char>, edits: Seq<EditView>)
    requires
        all_fit(text, edits),
    ensures
        all_in_range(text, edits),
    decreases edits.len(),
{
    if edits.len() > 0 {
        lemma_all_fit_in_range(text, edits.drop_last());
    }
}

} // verus!
