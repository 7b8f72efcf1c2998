//! Small operations on strings, with their character sequences as model.

use vstd::prelude::*;
use vstd::string::StrSliceExecFns;

verus! {

/// Whether two strings hold the same characters.
pub fn str_equal(left: &str, right: &str) -> (res: bool)
    ensures
        res == (left@ == right@),
{
    let len = left.unicode_len();
    if len != right.unicode_len() {
        return false;
    }
    let mut i: usize = 0;
    while i < len
        invariant
            len == left@.len(),
            len == right@.len(),
            i <= len,
            forall|k: int| 0 <= k < i ==> left@[k] == right@[k],
        decreases len - i,
    {
        if left.get_char(i) != right.get_char(i) {
            return false;
        }
        i = i + 1;
    }
    assert(left@ =~= right@);
    true
}

/// The place of the last character of `text` that equals `wanted`.
pub open spec fn last_position(text: Seq<char>, wanted: char) -> Option<int> {
    if exists|i: int| is_last_position(text, wanted, i) {
        Some(choose|i: int| is_last_position(text, wanted, i))
    } else {
        None
    }
}

/// Whether `wanted` stands at `index` in `text` and nowhere behind it.
pub open spec fn is_last_position(text: Seq<char>, wanted: char, index: int) -> bool {
    &&& 0 <= index < text.len()
    &&& text[index] == wanted
    &&& forall|j: int| index < j < text.len() ==> text[j] != wanted
}

/// A character has one last place, and `last_position` names it.
pub proof fn lemma_last_position(text: Seq<char>, wanted: char, index: int)
    requires
        is_last_position(text, wanted, index),
    ensures
        last_position(text, wanted) == Some(index),
{
    let chosen = choose|k: int| is_last_position(text, wanted, k);
    assert(chosen == index);
}

/// The place of the last character of `text` that equals `wanted`.
pub fn find_last(text: &str, wanted: char) -> (res: Option<usize>)
    ensures
        match res {
            Some(index) => last_position(text@, wanted) == Some(index as int),
            None => last_position(text@, wanted) is None,
        },
{
    let len = text.unicode_len();
    let mut i: usize = len;
    while i > 0
        invariant
            len == text@.len(),
            i <= len,
            forall|j: int| i <= j < len ==> text@[j] != wanted,
        decreases i,
    {
        i = i - 1;
        if text.get_char(i) == wanted {
            proof {
                lemma_last_position(text@, wanted, i as int);
            }
            return Some(i);
        }
    }
    None
}

} // verus!
