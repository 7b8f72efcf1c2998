//! The text buffer: a text, the syntax tree of that text, and the history
//! of the changes made to it.

use crate::edit::{all_in_range, apply_all, Edit, EditTransaction, EditView};
use crate::grammar::{grammar_of_extension, Grammar};
use crate::history::{
    commit, failed_within, lemma_in_range_prefix, redone, restored_selection, stopped_at, undone,
};
use crate::nodes::{
    has_id, nearest_node_after, next_token, next_token_of, node_by_id, prev_token,
    prev_token_of, starts_from,
};
use crate::position::{byte_or_zero, line_or_zero, line_start_or_zero, point_at, point_of};
use crate::rope::{
    byte_len, is_char_of_byte, lemma_breaks_monotone, lemma_line_start, line_count, line_start,
    line_text, rope_clone, rope_from_str, rope_get_line, rope_insert, rope_len_chars,
    rope_remove, rope_slice, rope_text, rope_to_string, rope_try_byte_to_char,
    rope_try_char_to_byte, rope_try_char_to_line, rope_try_line_to_char,
};
use crate::search::first_match;
use crate::selection::{CharIndex, Selection, SelectionSet, SelectionSetView};
use crate::syntax::{
    covering_node, distinct_ids, hint_told, language_accepted, language_id, leaves_in_order,
    parser_new,
    parser_parse, parser_set_language, tree_clone, tree_descendant_for_byte_range,
    tree_document, tree_edit, tree_hint, tree_language, tree_nodes, tree_preorder, tree_root,
    tree_grammar, tree_told, tree_traverse, Order, Point, SyntaxNode, TreeEdit,
};
use ropey::Rope;
use std::ops::Range;
use tree_sitter::{Language, Tree};
use vstd::prelude::*;
use vstd::string::StrSliceExecFns;

verus! {

/// How a committed transaction enters the history.
#[derive(Clone, Copy, Debug, PartialEq, Eq, Structural)]
pub enum EditHistoryKind {
    /// A change that the user makes: it can be undone, and nothing can be
    /// redone after it.
    NewEdit,
    /// A change that takes an earlier one back: it can be redone.
    Undo,
    /// A change that makes an undone one again: it can be undone.
    Redo,
}

/// Why an edit was not applied.
#[derive(Clone, Copy, Debug, PartialEq, Eq, Structural)]
pub enum EditError {
    /// The edit replaces characters beyond the end of the text.
    OutOfRange,
    /// The parser gave no tree for the edited text.
    ParseFailed,
}

/// What a patch is, as plain mathematical values.
pub struct PatchView {
    pub edits: Seq<EditView>,
    pub selection_set: SelectionSetView,
}

/// An entry of the history: the transaction that takes a change back, and
/// the selection to restore with it.
#[derive(Debug)]
pub struct Patch {
    pub edit_transaction: EditTransaction,
    /// Used for restoring the previous selection after undo or redo.
    pub selection_set: SelectionSet,
}

impl View for Patch {
    type V = PatchView;

    open spec fn view(&self) -> PatchView {
        PatchView { edits: self.edit_transaction@, selection_set: self.selection_set@ }
    }
}

impl Clone for Patch {
    fn clone(&self) -> (res: Patch)
        ensures
            res@ == self@,
    {
        Patch {
            edit_transaction: self.edit_transaction.clone(),
            selection_set: self.selection_set.clone(),
        }
    }
}

/// What a buffer is, as plain mathematical values: its text and the two
/// stacks of its history, the top of each stack last.
pub struct BufferView {
    pub text: Seq<char>,
    pub undo: Seq<PatchView>,
    pub redo: Seq<PatchView>,
}

/// The node that a cursor is on: the node that `found` names, else the
/// root, which is the first of `nodes`.
pub open spec fn node_or_root(found: Option<SyntaxNode>, nodes: Seq<SyntaxNode>) -> SyntaxNode {
    match found {
        Some(node) => node,
        None => nodes[0],
    }
}

/// The node that a cursor at the byte `byte` is on in a tree with the
/// nodes `nodes`, parents first, where a selection remembers the node
/// `node_id`: the node of that identity; where none is remembered or none
/// is found, the first node that starts at the cursor or behind it; and
/// the root where there is no such node either.
pub open spec fn current_node_of(
    nodes: Seq<SyntaxNode>,
    byte: usize,
    node_id: Option<usize>,
) -> SyntaxNode {
    let remembered = match node_id {
        Some(id) => first_match(nodes, has_id(id)),
        None => None,
    };
    node_or_root(
        match remembered {
            Some(node) => Some(node),
            None => first_match(nodes, starts_from(byte)),
        },
        nodes,
    )
}

/// Whether a syntax error was found: `node` is what covers the range that
/// was asked about.
pub open spec fn error_in(node: Option<SyntaxNode>) -> bool {
    match node {
        Some(node) => node.error,
        None => false,
    }
}

/// Whether the node that covers a range holds a syntax error; no node, no
/// error.
pub fn covers_error(node: Option<SyntaxNode>) -> (res: bool)
    ensures
        res == error_in(node),
{
    match node {
        Some(node) => node.error,
        None => false,
    }
}

/// The node that a cursor is on, given what the search for it found and the
/// root of the tree.
pub fn found_or_root(found: Option<SyntaxNode>, root: SyntaxNode) -> (res: SyntaxNode)
    ensures
        res == match found {
            Some(node) => node,
            None => root,
        },
{
    match found {
        Some(node) => node,
        None => root,
    }
}

/// Parses `text` with a new parser for `language`, with `hint` as the tree
/// of an earlier state of the text, which has to be a tree of the grammar
/// of `language`. There is a tree exactly where the parser takes the
/// language.
fn parse_text(language: Language, text: &str, hint: Option<&Tree>) -> (res: Option<Tree>)
    requires
        hint is Some ==> tree_grammar(*hint->0) == language_id(language),
    ensures
        res is Some <==> language_accepted(language),
        res is Some ==> tree_grammar(res->0) == language_id(language),
        res is Some ==> tree_document(res->0) == text@,
        res is Some ==> tree_told(res->0) == Seq::<TreeEdit>::empty(),
        res is Some ==> tree_hint(res->0) == hint_told(hint),
{
    let mut parser = parser_new();
    match parser_set_language(&mut parser, language) {
        Ok(_) => parser_parse(&mut parser, text, hint),
        Err(_) => None,
    }
}

/// The byte offset of the character at `char_index` in `rope`; 0 for an
/// index beyond its end.
fn char_to_byte_in(rope: &Rope, char_index: CharIndex) -> (res: usize)
    ensures
        res == byte_or_zero(rope_text(*rope), char_index.0),
{
    match rope_try_char_to_byte(rope, char_index.0) {
        Some(byte) => byte,
        None => 0,
    }
}

/// The line of the character at `char_index` in `rope`; line 0 for an
/// index beyond its end.
fn char_to_line_in(rope: &Rope, char_index: CharIndex) -> (res: usize)
    ensures
        res == line_or_zero(rope_text(*rope), char_index.0),
{
    match rope_try_char_to_line(rope, char_index.0) {
        Some(line) => line,
        None => 0,
    }
}

/// The index of the first character of line `line_index` of `rope`, if
/// the rope has a start for that line.
fn line_start_in(rope: &Rope, line_index: usize) -> (res: Option<usize>)
    ensures
        match res {
            Some(start) => line_start(rope_text(*rope), line_index as nat) == Some(start as int),
            None => line_start(rope_text(*rope), line_index as nat) is None,
        },
{
    let res = rope_try_line_to_char(rope, line_index);
    proof {
        if line_index < line_count(rope_text(*rope)) {
            lemma_line_start(rope_text(*rope), line_index as nat, res->0 as int);
        }
    }
    res
}

/// The row and column of the character at `char_index` in `rope`.
fn char_to_point_in(rope: &Rope, char_index: CharIndex) -> (res: Point)
    ensures
        res == point_of(rope_text(*rope), char_index.0),
{
    match rope_try_char_to_line(rope, char_index.0) {
        Some(line) => {
            let start = line_start_in(rope, line);
            point_at(line, start, char_index)
        },
        None => Point { row: 0, column: 0 },
    }
}

/// A text with its syntax tree and its history.
pub struct Buffer {
    rope: Rope,
    tree: Tree,
    undo_patches: Vec<Patch>,
    redo_patches: Vec<Patch>,
}

impl View for Buffer {
    type V = BufferView;

    closed spec fn view(&self) -> BufferView {
        BufferView {
            text: rope_text(self.rope),
            undo: self.undo_patches@.map_values(|p: Patch| p@),
            redo: self.redo_patches@.map_values(|p: Patch| p@),
        }
    }
}

/// What a tree is told of `edit` on `text`: the start and the old end of
/// the replaced stretch as they lie in `text`, and its new end as it lies
/// in the edited text, each as a byte offset and as a point.
pub open spec fn tree_edit_of(text: Seq<char>, edit: EditView) -> TreeEdit {
    let after = edit.apply(text);
    let new_end = edit.start + edit.new.len();
    TreeEdit {
        start_byte: byte_or_zero(text, edit.start as usize) as usize,
        old_end_byte: byte_or_zero(text, edit.end() as usize) as usize,
        new_end_byte: byte_or_zero(after, new_end as usize) as usize,
        start_position: point_of(text, edit.start as usize),
        old_end_position: point_of(text, edit.end() as usize),
        new_end_position: point_of(after, new_end as usize),
    }
}

/// Whether `post` is the buffer `pre` after `edit` was applied to it: the
/// text is the edited text, the history is the same, and the tree is the
/// parser's tree of the edited text, parsed with the grammar of the tree of
/// `pre` and with that tree as the hint after it was told of the edit.
pub open spec fn edit_applied(pre: Buffer, edit: EditView, post: Buffer) -> bool {
    &&& post@ == BufferView { text: edit.apply(pre.text()), ..pre@ }
    &&& post.in_sync()
    &&& tree_grammar(post.syntax_tree()) == tree_grammar(pre.syntax_tree())
    &&& tree_hint(post.syntax_tree()) == tree_told(pre.syntax_tree()).push(
        tree_edit_of(pre.text(), edit),
    )
}

/// What a tree is told of a change that led from the text of `old` to the
/// text of `new`, where the changed stretch starts at `start`, ended at
/// `old_end` and ends at `new_end` now.
fn tree_edit_between(
    old: &Rope,
    new: &Rope,
    start: CharIndex,
    old_end: CharIndex,
    new_end: CharIndex,
) -> (res: TreeEdit)
    ensures
        res == (TreeEdit {
            start_byte: byte_or_zero(rope_text(*old), start.0) as usize,
            old_end_byte: byte_or_zero(rope_text(*old), old_end.0) as usize,
            new_end_byte: byte_or_zero(rope_text(*new), new_end.0) as usize,
            start_position: point_of(rope_text(*old), start.0),
            old_end_position: point_of(rope_text(*old), old_end.0),
            new_end_position: point_of(rope_text(*new), new_end.0),
        }),
{
    TreeEdit {
        start_byte: char_to_byte_in(old, start),
        old_end_byte: char_to_byte_in(old, old_end),
        new_end_byte: char_to_byte_in(new, new_end),
        start_position: char_to_point_in(old, start),
        old_end_position: char_to_point_in(old, old_end),
        new_end_position: char_to_point_in(new, new_end),
    }
}

/// A copy of `patches`, patch by patch.
fn clone_patches(patches: &Vec<Patch>) -> (res: Vec<Patch>)
    ensures
        res@.map_values(|p: Patch| p@) == patches@.map_values(|p: Patch| p@),
{
    let mut copies: Vec<Patch> = Vec::new();
    let mut i: usize = 0;
    while i < patches.len()
        invariant
            i <= patches.len(),
            copies.len() == i,
            forall|k: int| 0 <= k < i ==> copies[k]@ == patches[k]@,
        decreases patches.len() - i,
    {
        copies.push(patches[i].clone());
        i = i + 1;
    }
    assert(copies@.map_values(|p: Patch| p@) =~= patches@.map_values(|p: Patch| p@));
    copies
}

impl Clone for Buffer {
    /// A buffer with the same text and the same history, and with a tree
    /// of its own.
    fn clone(&self) -> (res: Buffer)
        ensures
            res@ == self@,
            self.in_sync() ==> res.in_sync(),
    {
        Buffer {
            rope: rope_clone(&self.rope),
            tree: tree_clone(&self.tree),
            undo_patches: clone_patches(&self.undo_patches),
            redo_patches: clone_patches(&self.redo_patches),
        }
    }
}

impl Buffer {
    /// The text of the buffer.
    pub open spec fn text(&self) -> Seq<char> {
        self@.text
    }

    /// The syntax tree of the buffer.
    pub closed spec fn syntax_tree(&self) -> Tree {
        self.tree
    }

    /// Whether the syntax tree is the one that the parser produced for the
    /// text that the buffer holds now, and was told of no change since.
    pub open spec fn in_sync(&self) -> bool {
        &&& tree_document(self.syntax_tree()) == self.text()
        &&& tree_told(self.syntax_tree()) == Seq::<TreeEdit>::empty()
    }

    /// The buffer of a rope and of what the parser made of its text: no
    /// buffer where the parser gave no tree, else a buffer with an empty
    /// history.
    pub fn from_parts(rope: Rope, parsed: Option<Tree>) -> (res: Option<Buffer>)
        ensures
            parsed is None ==> res is None,
            parsed is Some ==> res is Some && res->0@ == (BufferView {
                text: rope_text(rope),
                undo: Seq::empty(),
                redo: Seq::empty(),
            }) && res->0.syntax_tree() == parsed->0,
    {
        match parsed {
            Some(tree) => {
                let buffer = Buffer {
                    rope,
                    tree,
                    undo_patches: Vec::new(),
                    redo_patches: Vec::new(),
                };
                assert(buffer@.undo =~= Seq::empty());
                assert(buffer@.redo =~= Seq::empty());
                Some(buffer)
            },
            None => None,
        }
    }

    /// A buffer of `text`, parsed in full with the grammar of `language`,
    /// with an empty history; `None` exactly where the parser does not
    /// take the language.
    pub fn new(language: Language, text: &str) -> (res: Option<Buffer>)
        ensures
            res is Some <==> language_accepted(language),
            res is Some ==> res->0@ == (BufferView {
                text: text@,
                undo: Seq::empty(),
                redo: Seq::empty(),
            }),
            res is Some ==> res->0.in_sync(),
            res is Some ==> tree_grammar(res->0.syntax_tree()) == language_id(language),
            res is Some ==> tree_hint(res->0.syntax_tree()) == Seq::<TreeEdit>::empty(),
    {
        let rope = rope_from_str(text);
        let parsed = parse_text(language, text, None);
        Buffer::from_parts(rope, parsed)
    }

    /// A buffer of `content` for a file with the extension `extension`,
    /// parsed with the grammar of that extension; `None` exactly where no
    /// grammar is known for the extension.
    pub fn from_extension(extension: &str, content: &str) -> (res: Option<Buffer>)
        ensures
            res is Some <==> grammar_of_extension(extension@) is Some,
            res is Some ==> res->0@ == (BufferView {
                text: content@,
                undo: Seq::empty(),
                redo: Seq::empty(),
            }),
            res is Some ==> res->0.in_sync(),
            res is Some ==> tree_hint(res->0.syntax_tree()) == Seq::<TreeEdit>::empty(),
    {
        match Grammar::from_extension(extension) {
            Some(grammar) => Buffer::new(grammar.language(), content),
            None => None,
        }
    }

    /// The text storage.
    pub fn rope(&self) -> (res: &Rope)
        ensures
            rope_text(*res) == self.text(),
    {
        &self.rope
    }

    /// The syntax tree.
    pub fn tree(&self) -> (res: &Tree)
        ensures
            *res == self.syntax_tree(),
    {
        &self.tree
    }

    /// The number of characters of the text.
    pub fn len_chars(&self) -> (res: usize)
        ensures
            res == self.text().len(),
    {
        rope_len_chars(&self.rope)
    }

    /// The line that holds the character at `char_index`; line 0 for an
    /// index beyond the end of the text.
    pub fn char_to_line(&self, char_index: CharIndex) -> (res: usize)
        ensures
            res == line_or_zero(self.text(), char_index.0),
    {
        char_to_line_in(&self.rope, char_index)
    }

    /// The index of the first character of line `line_index`; 0 for a line
    /// that the text does not have.
    pub fn line_to_char(&self, line_index: usize) -> (res: CharIndex)
        ensures
            res.0 == line_start_or_zero(self.text(), line_index),
    {
        match line_start_in(&self.rope, line_index) {
            Some(start) => CharIndex(start),
            None => CharIndex(0),
        }
    }

    /// The byte offset of the character at `char_index`; 0 for an index
    /// beyond the end of the text.
    pub fn char_to_byte(&self, char_index: CharIndex) -> (res: usize)
        ensures
            res == byte_or_zero(self.text(), char_index.0),
    {
        char_to_byte_in(&self.rope, char_index)
    }

    /// The row and column of the character at `char_index`: its line, and
    /// its distance from the start of that line; row 0 and column 0 for an
    /// index beyond the end of the text.
    pub fn char_to_point(&self, char_index: CharIndex) -> (res: Point)
        ensures
            res == point_of(self.text(), char_index.0),
    {
        char_to_point_in(&self.rope, char_index)
    }

    /// The index of the character that the byte at `byte_index` belongs
    /// to; 0 for an offset beyond the end of the text.
    pub fn byte_to_char(&self, byte_index: usize) -> (res: CharIndex)
        ensures
            byte_index <= byte_len(self.text()) ==> is_char_of_byte(
                self.text(),
                byte_index as int,
                res.0 as int,
            ),
            byte_index > byte_len(self.text()) ==> res.0 == 0,
    {
        match rope_try_byte_to_char(&self.rope, byte_index) {
            Some(index) => CharIndex(index),
            None => CharIndex(0),
        }
    }

    /// The text of the line that holds the character at `char_index`, line
    /// break included; the first line for an index beyond the end of the
    /// text.
    pub fn get_line(&self, char_index: CharIndex) -> (res: String)
        ensures
            Some(res@) == line_text(self.text(), line_or_zero(self.text(), char_index.0)),
    {
        let line = self.char_to_line(char_index);
        proof {
            if char_index.0 <= self.text().len() {
                lemma_breaks_monotone(self.text(), char_index.0 as int, self.text().len() as int);
            }
        }
        match rope_get_line(&self.rope, line) {
            Some(text) => text,
            None => String::new(),
        }
    }

    /// The characters from `range.start` up to `range.end` as a rope of
    /// their own; `None` for a range that does not lie within the text.
    pub fn slice(&self, range: &Range<CharIndex>) -> (res: Option<Rope>)
        ensures
            range.start.0 <= range.end.0 <= self.text().len() ==> res is Some && rope_text(res->0)
                == self.text().subrange(range.start.0 as int, range.end.0 as int),
            !(range.start.0 <= range.end.0 <= self.text().len()) ==> res is None,
    {
        if range.start.0 <= range.end.0 && range.end.0 <= rope_len_chars(&self.rope) {
            Some(rope_slice(&self.rope, range.start.0, range.end.0))
        } else {
            None
        }
    }

    /// The nodes of the syntax tree in the given order: at least the root,
    /// no two with one identity, and, in a tree that was told of no change
    /// since it was parsed, the leaves in the order of the text.
    pub fn traverse(&self, order: Order) -> (res: Vec<SyntaxNode>)
        ensures
            res@ == tree_nodes(self.syntax_tree(), order),
            res@.len() > 0,
            distinct_ids(res@),
            tree_told(self.syntax_tree()) == Seq::<TreeEdit>::empty() ==> leaves_in_order(res@),
    {
        tree_traverse(&self.tree, order)
    }

    /// The first node, parents before children, that starts at the
    /// character at `char_index` or behind it.
    pub fn get_nearest_node_after_char(&self, char_index: CharIndex) -> (res: Option<SyntaxNode>)
        ensures
            res == first_match(
                tree_preorder(self.syntax_tree()),
                starts_from(byte_or_zero(self.text(), char_index.0) as usize),
            ),
    {
        let byte = self.char_to_byte(char_index);
        let nodes = self.traverse(Order::Pre);
        nearest_node_after(&nodes, byte)
    }

    /// The node with the identity `node_id`, if the tree has one.
    pub fn get_node_by_id(&self, node_id: usize) -> (res: Option<SyntaxNode>)
        ensures
            res == first_match(tree_preorder(self.syntax_tree()), has_id(node_id)),
    {
        let nodes = self.traverse(Order::Pre);
        node_by_id(&nodes, node_id)
    }

    /// The node that the cursor at `cursor_char_index` is on: the node that
    /// `selection` remembers, looked up in the tree as it is now; where it
    /// remembers none, or the tree has no such node any more, the nearest
    /// node behind the cursor; and the root where that search finds
    /// nothing either.
    pub fn get_current_node(&self, cursor_char_index: CharIndex, selection: &Selection) -> (res:
        SyntaxNode)
        ensures
            res == current_node_of(
                tree_preorder(self.syntax_tree()),
                byte_or_zero(self.text(), cursor_char_index.0) as usize,
                selection.node_id,
            ),
    {
        let remembered = match selection.node_id {
            Some(node_id) => self.get_node_by_id(node_id),
            None => None,
        };
        let found = match remembered {
            Some(node) => Some(node),
            None => self.get_nearest_node_after_char(cursor_char_index),
        };
        found_or_root(found, tree_root(&self.tree))
    }

    /// The token behind the character at `char_index`: the first node
    /// without children, children before parents, that ends behind it.
    /// With `is_named`, only named nodes count.
    pub fn get_next_token(&self, char_index: CharIndex, is_named: bool) -> (res: Option<SyntaxNode>)
        ensures
            res == next_token_of(
                tree_nodes(self.syntax_tree(), Order::Post),
                byte_or_zero(self.text(), char_index.0) as usize,
                is_named,
            ),
            tree_told(self.syntax_tree()) == Seq::<TreeEdit>::empty() ==> leaves_in_order(
                tree_nodes(self.syntax_tree(), Order::Post),
            ),
    {
        let byte = self.char_to_byte(char_index);
        let nodes = self.traverse(Order::Post);
        next_token(&nodes, byte, is_named)
    }

    /// The token before the character at `char_index`: the last node
    /// without children, children before parents, ahead of the first such
    /// node that starts at the character or behind it. With `is_named`,
    /// only named nodes count.
    pub fn get_prev_token(&self, char_index: CharIndex, is_named: bool) -> (res: Option<SyntaxNode>)
        ensures
            res == prev_token_of(
                tree_nodes(self.syntax_tree(), Order::Post),
                byte_or_zero(self.text(), char_index.0) as usize,
                is_named,
            ),
            tree_told(self.syntax_tree()) == Seq::<TreeEdit>::empty() ==> leaves_in_order(
                tree_nodes(self.syntax_tree(), Order::Post),
            ),
    {
        let byte = self.char_to_byte(char_index);
        let nodes = self.traverse(Order::Post);
        prev_token(&nodes, byte, is_named)
    }

    /// Takes over the outcome of parsing the text of `rope`: with a tree,
    /// the buffer holds `rope` and the tree from now on; without one, it
    /// stays as it is and the edit has failed. The history stays as it is
    /// either way.
    pub fn install(&mut self, rope: Rope, parsed: Option<Tree>) -> (res: Result<(), EditError>)
        ensures
            parsed is None ==> res == Err::<(), EditError>(EditError::ParseFailed) && *final(self)
                == *old(self),
            parsed is Some ==> res is Ok && final(self)@ == (BufferView {
                text: rope_text(rope),
                ..old(self)@
            }) && final(self).syntax_tree() == parsed->0,
    {
        match parsed {
            Some(tree) => {
                self.rope = rope;
                self.tree = tree;
                Ok(())
            },
            None => Err(EditError::ParseFailed),
        }
    }

    /// Replaces the characters that `edit` names by its new characters and
    /// parses the text again: the tree of the old text is told where the
    /// change starts, where the replaced stretch ended in the old text and
    /// where it ends in the new one, and serves the parser as a hint.
    ///
    /// An edit that reaches beyond the end of the text is refused and
    /// leaves the buffer as it was; every other edit is applied. The
    /// history is not touched.
    pub fn apply_edit(&mut self, edit: &Edit) -> (res: Result<(), EditError>)
        ensures
            res is Ok <==> edit@.in_range(old(self).text()),
            res is Ok ==> edit_applied(*old(self), edit@, *final(self)),
            res is Err ==> res == Err::<(), EditError>(EditError::OutOfRange),
            res is Err ==> *final(self) == *old(self),
    {
        let len = rope_len_chars(&self.rope);
        let old_end = match edit.end() {
            Some(end) => end,
            None => {
                return Err(EditError::OutOfRange);
            },
        };
        if old_end.0 > len {
            return Err(EditError::OutOfRange);
        }
        let mut rope = rope_clone(&self.rope);
        rope_remove(&mut rope, edit.start.0, old_end.0);
        rope_insert(&mut rope, edit.start.0, edit.new.as_str());
        assert(rope_text(rope) =~= edit@.apply(old(self).text()));

        // What follows the replaced stretch has the same length in both texts.
        let new_end = CharIndex(rope_len_chars(&rope) - (len - old_end.0));
        let told = tree_edit_between(&self.rope, &rope, edit.start, old_end, new_end);
        assert(told == tree_edit_of(old(self).text(), edit@));

        let mut hint = tree_clone(&self.tree);
        tree_edit(&mut hint, told);
        let text = rope_to_string(&rope);
        let parsed = parse_text(tree_language(&self.tree), text.as_str(), Some(&hint));
        self.install(rope, parsed)
    }

    /// Applies the edits of `edit_transaction` in order and, when all of
    /// them are applied, enters the transaction into the history the way
    /// `edit_history_kind` says, with `current_selection_set` as the
    /// selection to restore.
    ///
    /// The call succeeds exactly where every edit is in range of the text
    /// that it meets. The first edit that is not ends the call: the edits
    /// before it stay applied, and the history stays as it was. Where no
    /// edit is applied, the tree is the one that it was; in every case it is
    /// a tree of the same grammar.
    pub fn apply_edit_transaction(
        &mut self,
        edit_transaction: &EditTransaction,
        current_selection_set: SelectionSet,
        edit_history_kind: EditHistoryKind,
    ) -> (res: Result<(), EditError>)
        ensures
            res is Ok <==> all_in_range(old(self).text(), edit_transaction@),
            res is Ok ==> final(self)@ == commit(
                old(self)@,
                edit_transaction@,
                current_selection_set@,
                edit_history_kind,
            ),
            res is Err ==> res == Err::<(), EditError>(EditError::OutOfRange),
            res is Err ==> final(self)@.undo == old(self)@.undo,
            res is Err ==> final(self)@.redo == old(self)@.redo,
            res is Err ==> failed_within(
                old(self).text(),
                edit_transaction@,
                final(self).text(),
            ),
            old(self).in_sync() ==> final(self).in_sync(),
            res is Ok && edit_transaction@.len() > 0 ==> final(self).in_sync(),
            tree_grammar(final(self).syntax_tree()) == tree_grammar(old(self).syntax_tree()),
            edit_transaction@.len() == 0 ==> final(self).syntax_tree() == old(self).syntax_tree(),
            res is Err && !edit_transaction@[0].in_range(old(self).text()) ==> *final(self)
                == *old(self),
    {
        let count = edit_transaction.len();
        let mut i: usize = 0;
        while i < count
            invariant
                count == edit_transaction@.len(),
                i <= count,
                self@.undo == old(self)@.undo,
                self@.redo == old(self)@.redo,
                all_in_range(old(self).text(), edit_transaction@.take(i as int)),
                self.text() == apply_all(old(self).text(), edit_transaction@.take(i as int)),
                old(self).in_sync() || i > 0 ==> self.in_sync(),
                tree_grammar(self.syntax_tree()) == tree_grammar(old(self).syntax_tree()),
                i == 0 ==> *self == *old(self),
                i > 0 ==> edit_transaction@[0].in_range(old(self).text()),
            decreases count - i,
        {
            let outcome = self.apply_edit(edit_transaction.get(i));
            match outcome {
                Ok(_) => {},
                Err(error) => {
                    proof {
                        assert(stopped_at(
                            old(self).text(),
                            edit_transaction@,
                            i as int,
                            self.text(),
                        ));
                        if all_in_range(old(self).text(), edit_transaction@) {
                            lemma_in_range_prefix(
                                old(self).text(),
                                edit_transaction@,
                                i as int,
                            );
                        }
                    }
                    return Err(error);
                },
            }
            proof {
                let longer = edit_transaction@.take(i as int + 1);
                assert(longer.drop_last() =~= edit_transaction@.take(i as int));
                assert(longer.last() == edit_transaction@[i as int]);
                if i == 0 {
                    assert(edit_transaction@.take(0) =~= Seq::<EditView>::empty());
                }
            }
            i = i + 1;
        }
        assert(edit_transaction@.take(count as int) =~= edit_transaction@);
        let patch = Patch {
            selection_set: current_selection_set,
            edit_transaction: edit_transaction.inverse(),
        };
        let ghost before = self@;
        match edit_history_kind {
            EditHistoryKind::NewEdit => {
                self.redo_patches.clear();
                self.undo_patches.push(patch);
                assert(self@.undo =~= before.undo.push(patch@));
                assert(self@.redo =~= Seq::empty());
            },
            EditHistoryKind::Undo => {
                self.redo_patches.push(patch);
                assert(self@.redo =~= before.redo.push(patch@));
            },
            EditHistoryKind::Redo => {
                self.undo_patches.push(patch);
                assert(self@.undo =~= before.undo.push(patch@));
            },
        }
        Ok(())
    }

    /// Applies the transaction of `patch`, which was taken off a stack of
    /// the history, and returns the selection that the patch recorded.
    fn revert_change(
        &mut self,
        patch: Patch,
        current_selection_set: SelectionSet,
        edit_history_kind: EditHistoryKind,
    ) -> (res: Result<Option<SelectionSet>, EditError>)
        ensures
            res is Ok <==> all_in_range(old(self).text(), patch@.edits),
            res is Ok ==> res->Ok_0 == Some(patch.selection_set),
            res is Ok ==> final(self)@ == commit(
                old(self)@,
                patch@.edits,
                current_selection_set@,
                edit_history_kind,
            ),
            res is Err ==> res == Err::<Option<SelectionSet>, EditError>(EditError::OutOfRange),
            res is Err ==> final(self)@.undo == old(self)@.undo,
            res is Err ==> final(self)@.redo == old(self)@.redo,
            res is Err ==> failed_within(
                old(self).text(),
                patch@.edits,
                final(self).text(),
            ),
            old(self).in_sync() ==> final(self).in_sync(),
            tree_grammar(final(self).syntax_tree()) == tree_grammar(old(self).syntax_tree()),
            patch@.edits.len() == 0 ==> final(self).syntax_tree() == old(self).syntax_tree(),
            res is Err && !patch@.edits[0].in_range(old(self).text()) ==> final(self).syntax_tree()
                == old(self).syntax_tree(),
    {
        match self.apply_edit_transaction(
            &patch.edit_transaction,
            current_selection_set,
            edit_history_kind,
        ) {
            Ok(_) => Ok(Some(patch.selection_set)),
            Err(error) => Err(error),
        }
    }

    /// Takes the last change back: pops the top of the undo stack, applies
    /// its transaction as an undo, and returns the selection that it
    /// recorded. With an empty undo stack nothing happens and `None` is
    /// returned.
    ///
    /// The call succeeds exactly where every edit of the popped
    /// transaction is in range of the text that it meets. Where one is
    /// not, the popped patch is lost and the edits before it stay applied.
    /// Where no edit is applied, the tree is the one that it was; in every
    /// case it is a tree of the same grammar.
    pub fn undo(&mut self, current_selection_set: SelectionSet) -> (res: Result<
        Option<SelectionSet>,
        EditError,
    >)
        ensures
            old(self)@.undo.len() == 0 ==> res is Ok && res->Ok_0 is None,
            old(self)@.undo.len() == 0 ==> *final(self) == *old(self),
            old(self)@.undo.len() > 0 ==> (res is Ok <==> all_in_range(
                old(self).text(),
                old(self)@.undo.last().edits,
            )),
            old(self)@.undo.len() > 0 && res is Ok ==> res->Ok_0 is Some && Some(
                res->Ok_0->0@,
            ) == restored_selection(old(self)@.undo),
            old(self)@.undo.len() > 0 && res is Ok ==> final(self)@ == undone(
                old(self)@,
                current_selection_set@,
            ),
            res is Err ==> res == Err::<Option<SelectionSet>, EditError>(EditError::OutOfRange),
            res is Err ==> final(self)@.undo == old(self)@.undo.drop_last(),
            res is Err ==> final(self)@.redo == old(self)@.redo,
            res is Err ==> failed_within(
                old(self).text(),
                old(self)@.undo.last().edits,
                final(self).text(),
            ),
            old(self).in_sync() ==> final(self).in_sync(),
            tree_grammar(final(self).syntax_tree()) == tree_grammar(old(self).syntax_tree()),
            old(self)@.undo.len() > 0 && old(self)@.undo.last().edits.len() == 0 ==> final(self)
                .syntax_tree() == old(self).syntax_tree(),
            res is Err && !old(self)@.undo.last().edits[0].in_range(old(self).text()) ==> final(self)
                .syntax_tree() == old(self).syntax_tree(),
    {
        if self.undo_patches.len() == 0 {
            return Ok(None);
        }
        let patch = match self.undo_patches.pop() {
            Some(patch) => patch,
            None => {
                return Ok(None);
            },
        };
        assert(self@.undo =~= old(self)@.undo.drop_last());
        assert(patch@ == old(self)@.undo.last());
        self.revert_change(patch, current_selection_set, EditHistoryKind::Undo)
    }

    /// Makes the change again that was undone last: pops the top of the
    /// redo stack, applies its transaction as a redo, and returns the
    /// selection that it recorded. With an empty redo stack nothing
    /// happens and `None` is returned.
    ///
    /// The call succeeds exactly where every edit of the popped
    /// transaction is in range of the text that it meets. Where one is
    /// not, the popped patch is lost and the edits before it stay applied.
    /// Where no edit is applied, the tree is the one that it was; in every
    /// case it is a tree of the same grammar.
    pub fn redo(&mut self, current_selection_set: SelectionSet) -> (res: Result<
        Option<SelectionSet>,
        EditError,
    >)
        ensures
            old(self)@.redo.len() == 0 ==> res is Ok && res->Ok_0 is None,
            old(self)@.redo.len() == 0 ==> *final(self) == *old(self),
            old(self)@.redo.len() > 0 ==> (res is Ok <==> all_in_range(
                old(self).text(),
                old(self)@.redo.last().edits,
            )),
            old(self)@.redo.len() > 0 && res is Ok ==> res->Ok_0 is Some && Some(
                res->Ok_0->0@,
            ) == restored_selection(old(self)@.redo),
            old(self)@.redo.len() > 0 && res is Ok ==> final(self)@ == redone(
                old(self)@,
                current_selection_set@,
            ),
            res is Err ==> res == Err::<Option<SelectionSet>, EditError>(EditError::OutOfRange),
            res is Err ==> final(self)@.redo == old(self)@.redo.drop_last(),
            res is Err ==> final(self)@.undo == old(self)@.undo,
            res is Err ==> failed_within(
                old(self).text(),
                old(self)@.redo.last().edits,
                final(self).text(),
            ),
            old(self).in_sync() ==> final(self).in_sync(),
            tree_grammar(final(self).syntax_tree()) == tree_grammar(old(self).syntax_tree()),
            old(self)@.redo.len() > 0 && old(self)@.redo.last().edits.len() == 0 ==> final(self)
                .syntax_tree() == old(self).syntax_tree(),
            res is Err && !old(self)@.redo.last().edits[0].in_range(old(self).text()) ==> final(self)
                .syntax_tree() == old(self).syntax_tree(),
    {
        if self.redo_patches.len() == 0 {
            return Ok(None);
        }
        let patch = match self.redo_patches.pop() {
            Some(patch) => patch,
            None => {
                return Ok(None);
            },
        };
        assert(self@.redo =~= old(self)@.redo.drop_last());
        assert(patch@ == old(self)@.redo.last());
        self.revert_change(patch, current_selection_set, EditHistoryKind::Redo)
    }

    /// Whether the node that covers the characters of `range` is a syntax
    /// error or holds one. There always is such a node, and it is one of
    /// the tree. A bound beyond the end of the text counts as 0.
    pub fn has_syntax_error_at(&self, range: Range<CharIndex>) -> (res: bool)
        ensures
            res == error_in(
                covering_node(
                    tree_preorder(self.syntax_tree()),
                    byte_or_zero(self.text(), range.start.0) as usize,
                    byte_or_zero(self.text(), range.end.0) as usize,
                ),
            ),
            covering_node(
                tree_preorder(self.syntax_tree()),
                byte_or_zero(self.text(), range.start.0) as usize,
                byte_or_zero(self.text(), range.end.0) as usize,
            ) is Some,
            tree_preorder(self.syntax_tree()).contains(
                covering_node(
                    tree_preorder(self.syntax_tree()),
                    byte_or_zero(self.text(), range.start.0) as usize,
                    byte_or_zero(self.text(), range.end.0) as usize,
                )->0,
            ),
    {
        let start = self.char_to_byte(range.start);
        let end = self.char_to_byte(range.end);
        covers_error(tree_descendant_for_byte_range(&self.tree, start, end))
    }
}

} // verus!
