//! The syntax tree: a `tree_sitter::Tree`, seen by the verifier as the
//! sequences of nodes that a walk over it yields.
//!
//! A node leaves this module as a [`SyntaxNode`], a plain record of what the
//! library reads of it. Everything here that touches the parser or a tree is
//! stated without proof; the rest of the library is verified against these
//! statements.

use tree_sitter::{InputEdit, Language, LanguageError, Parser, Tree};
use tree_sitter_traversal::traverse;
use vstd::prelude::*;

verus! {

/// `tree_sitter::Tree`, of which the verifier sees nothing but what the
/// items below state.
#[verifier::external_type_specification]
#[verifier::external_body]
pub struct ExTree(tree_sitter::Tree);

/// `tree_sitter::Parser`, carried from its making to the call that parses.
#[verifier::external_type_specification]
#[verifier::external_body]
pub struct ExParser(tree_sitter::Parser);

/// `tree_sitter::Language`, the parser tables of a grammar, carried from a
/// grammar to the parser.
#[verifier::external_type_specification]
#[verifier::external_body]
pub struct ExLanguage(tree_sitter::Language);

/// `tree_sitter::LanguageError`, the refusal of a grammar by the parser.
#[verifier::external_type_specification]
#[verifier::external_body]
pub struct ExLanguageError(tree_sitter::LanguageError);

/// What the library reads of one node of a syntax tree.
#[derive(Clone, Copy, Debug, PartialEq, Eq, Structural)]
pub struct SyntaxNode {
    /// The node's identity within its tree.
    pub id: usize,
    /// The byte offset at which the node starts.
    pub start_byte: usize,
    /// The byte offset at which the node ends.
    pub end_byte: usize,
    /// The number of children.
    pub child_count: usize,
    /// Whether the node stands for a named rule of the grammar.
    pub named: bool,
    /// Whether the node is a syntax error or holds one below it.
    pub error: bool,
}

/// A position in a text as a line and an offset within the line, both
/// counted from zero.
#[derive(Clone, Copy, Debug, PartialEq, Eq, Structural)]
pub struct Point {
    pub row: usize,
    pub column: usize,
}

/// What a tree is told of one change of its text: where the change starts,
/// where the changed stretch ended before and where it ends now, each as a
/// byte offset and as a point.
#[derive(Clone, Copy, Debug, PartialEq, Eq, Structural)]
pub struct TreeEdit {
    pub start_byte: usize,
    pub old_end_byte: usize,
    pub new_end_byte: usize,
    pub start_position: Point,
    pub old_end_position: Point,
    pub new_end_position: Point,
}

/// The order in which a walk yields the nodes of a tree.
#[derive(Clone, Copy, Debug, PartialEq, Eq, Structural)]
pub enum Order {
    /// A node before its children.
    Pre,
    /// A node after its children.
    Post,
}

/// The nodes of a tree in the order in which a pre-order walk from the
/// root yields them.
pub uninterp spec fn tree_preorder(tree: Tree) -> Seq<SyntaxNode>;

/// The nodes of a tree in the order in which a post-order walk from the
/// root yields them.
pub uninterp spec fn tree_postorder(tree: Tree) -> Seq<SyntaxNode>;

/// The text that was handed to the parser when it produced this tree.
pub uninterp spec fn tree_document(tree: Tree) -> Seq<char>;

/// The changes that a tree was told of since the parser produced it, the
/// first one first.
pub uninterp spec fn tree_told(tree: Tree) -> Seq<TreeEdit>;

/// The changes that the hint had been told of with which the parser
/// produced this tree; none for a tree that was parsed without a hint.
pub uninterp spec fn tree_hint(tree: Tree) -> Seq<TreeEdit>;

/// Which grammar `language` holds the tables of: two languages have one
/// number exactly where they are the same tables.
pub uninterp spec fn language_id(language: Language) -> int;

/// The grammar of the language that `parser` was given last, by the number
/// of that language.
pub uninterp spec fn parser_grammar(parser: Parser) -> int;

/// The grammar that `tree` was parsed with, by the number of its language.
pub uninterp spec fn tree_grammar(tree: Tree) -> int;

/// Whether the parser takes `language`: its version is one that this
/// version of the parser supports.
pub uninterp spec fn language_accepted(language: Language) -> bool;

/// Whether nothing ends a parse of `parser` early: it has neither a
/// timeout nor a cancellation flag.
pub uninterp spec fn parser_unlimited(parser: Parser) -> bool;

/// Whether `parser` gives a tree for every text: it has a language, and
/// nothing ends its parse early.
pub uninterp spec fn parser_ready(parser: Parser) -> bool;

/// The node that `Node::descendant_for_byte_range` picks for the bytes from
/// `start` to `end`, asked of the root of the tree with the nodes `nodes`.
pub uninterp spec fn covering_node(nodes: Seq<SyntaxNode>, start: usize, end: usize) -> Option<
    SyntaxNode,
>;

/// What the hint of a parse had been told: nothing where there is no hint.
pub open spec fn hint_told(hint: Option<&Tree>) -> Seq<TreeEdit> {
    match hint {
        Some(tree) => tree_told(*tree),
        None => Seq::empty(),
    }
}

/// Whether no two of `nodes` have one identity.
pub open spec fn distinct_ids(nodes: Seq<SyntaxNode>) -> bool {
    forall|i: int, j: int|
        0 <= i < j < nodes.len() ==> (#[trigger] nodes[i]).id != (#[trigger] nodes[j]).id
}

/// Whether the leaves among `nodes` come in the order of the text: none
/// ends before it starts, and none starts before a leaf ahead of it ends.
pub open spec fn leaves_in_order(nodes: Seq<SyntaxNode>) -> bool {
    &&& forall|i: int|
        0 <= i < nodes.len() && (#[trigger] nodes[i]).child_count == 0 ==> nodes[i].start_byte
            <= nodes[i].end_byte
    &&& forall|i: int, j: int|
        0 <= i < j < nodes.len() && (#[trigger] nodes[i]).child_count == 0 && (
        #[trigger] nodes[j]).child_count == 0 ==> nodes[i].end_byte <= nodes[j].start_byte
}

/// The nodes of `tree` in the given order.
pub open spec fn tree_nodes(tree: Tree, order: Order) -> Seq<SyntaxNode> {
    match order {
        Order::Pre => tree_preorder(tree),
        Order::Post => tree_postorder(tree),
    }
}

/// Calls `Parser::new`: the new parser has neither a timeout nor a
/// cancellation flag.
#[verifier::external_body]
pub(crate) fn parser_new() -> (parser: Parser)
    ensures
        parser_unlimited(parser),
{
    Parser::new()
}

/// Calls `Parser::set_language`: the parser refuses a language by its
/// version and for nothing else. A parser that took a language parses with
/// the grammar of that language, and where nothing ends its parse early, it
/// gives a tree for every text.
#[verifier::external_body]
pub(crate) fn parser_set_language(parser: &mut Parser, language: Language) -> (res: Result<
    (),
    LanguageError,
>)
    ensures
        res is Ok <==> language_accepted(language),
        res is Ok && parser_unlimited(*old(parser)) ==> parser_ready(*final(parser)),
        res is Ok ==> parser_grammar(*final(parser)) == language_id(language),
{
    parser.set_language(language)
}

/// Calls `Parser::parse`: a parser with a language, without a timeout and
/// without a cancellation flag gives a tree. A tree that comes back was
/// produced for `text` with the parser's grammar and with `old_tree` as
/// the hint, and was told of no change yet.
///
/// The hint has to be a tree of the parser's own grammar: the parser
/// reads the nodes that it takes over from the hint by its own tables.
#[verifier::external_body]
pub(crate) fn parser_parse(parser: &mut Parser, text: &str, old_tree: Option<&Tree>) -> (res:
    Option<Tree>)
    requires
        old_tree is Some ==> tree_grammar(*old_tree->0) == parser_grammar(*old(parser)),
    ensures
        parser_ready(*old(parser)) ==> res is Some,
        res is Some ==> tree_grammar(res->0) == parser_grammar(*old(parser)),
        res is Some ==> tree_document(res->0) == text@,
        res is Some ==> tree_told(res->0) == Seq::<TreeEdit>::empty(),
        res is Some ==> tree_hint(res->0) == hint_told(old_tree),
{
    parser.parse(text, old_tree)
}

/// Calls `Tree::clone`: the copy is a tree of the same text and the same
/// grammar that was told of the same changes. Nothing is claimed of the
/// identities of its nodes.
#[verifier::external_body]
pub(crate) fn tree_clone(tree: &Tree) -> (copy: Tree)
    ensures
        tree_document(copy) == tree_document(*tree),
        tree_told(copy) == tree_told(*tree),
        tree_grammar(copy) == tree_grammar(*tree),
{
    tree.clone()
}

/// Calls `Tree::language`: the language that the tree was parsed with,
/// which the parser had taken.
#[verifier::external_body]
pub(crate) fn tree_language(tree: &Tree) -> (language: Language)
    ensures
        language_accepted(language),
        language_id(language) == tree_grammar(*tree),
{
    tree.language()
}

/// Calls `Tree::edit` with the change that `edit` describes: the tree has
/// been told of one change more, and is of the grammar that it was of.
#[verifier::external_body]
pub(crate) fn tree_edit(tree: &mut Tree, edit: TreeEdit)
    ensures
        tree_told(*final(tree)) == tree_told(*old(tree)).push(edit),
        tree_grammar(*final(tree)) == tree_grammar(*old(tree)),
{
    let start = edit.start_position;
    let old_end = edit.old_end_position;
    let new_end = edit.new_end_position;
    tree.edit(
        &InputEdit {
            start_byte: edit.start_byte,
            old_end_byte: edit.old_end_byte,
            new_end_byte: edit.new_end_byte,
            start_position: tree_sitter::Point::new(start.row, start.column),
            old_end_position: tree_sitter::Point::new(old_end.row, old_end.column),
            new_end_position: tree_sitter::Point::new(new_end.row, new_end.column),
        },
    )
}

/// Calls `tree_sitter_traversal::traverse` on a cursor at the root: the
/// nodes of the tree in the given order. The walk yields the root in
/// either order, so there is at least one node. No two nodes of a tree have
/// one identity, and the leaves of a tree that was told of no change since
/// the parser produced it come in the order of the text.
#[verifier::external_body]
pub(crate) fn tree_traverse(tree: &Tree, order: Order) -> (nodes: Vec<SyntaxNode>)
    ensures
        order == Order::Pre ==> nodes@ == tree_preorder(*tree),
        order == Order::Post ==> nodes@ == tree_postorder(*tree),
        nodes@.len() > 0,
        distinct_ids(nodes@),
        tree_told(*tree) == Seq::<TreeEdit>::empty() ==> leaves_in_order(nodes@),
{
    let order = match order {
        Order::Pre => tree_sitter_traversal::Order::Pre,
        Order::Post => tree_sitter_traversal::Order::Post,
    };
    traverse(tree.walk(), order).map(|node| SyntaxNode {
        id: node.id(),
        start_byte: node.start_byte(),
        end_byte: node.end_byte(),
        child_count: node.child_count(),
        named: node.is_named(),
        error: node.has_error(),
    }).collect()
}

/// Calls `Tree::root_node`: the node that a pre-order walk yields first.
#[verifier::external_body]
pub(crate) fn tree_root(tree: &Tree) -> (root: SyntaxNode)
    ensures
        root == tree_preorder(*tree)[0],
{
    let node = tree.root_node();
    SyntaxNode {
        id: node.id(),
        start_byte: node.start_byte(),
        end_byte: node.end_byte(),
        child_count: node.child_count(),
        named: node.is_named(),
        error: node.has_error(),
    }
}

/// Calls `Node::descendant_for_byte_range` on the root of `tree`: the
/// call always gives a node, the root where no node below it covers the
/// bytes, and the node is one of the tree.
#[verifier::external_body]
pub(crate) fn tree_descendant_for_byte_range(tree: &Tree, start: usize, end: usize) -> (res:
    Option<SyntaxNode>)
    ensures
        res == covering_node(tree_preorder(*tree), start, end),
        res is Some && tree_preorder(*tree).contains(res->0),
{
    tree.root_node().descendant_for_byte_range(start, end).map(|node| SyntaxNode {
        id: node.id(),
        start_byte: node.start_byte(),
        end_byte: node.end_byte(),
        child_count: node.child_count(),
        named: node.is_named(),
        error: node.has_error(),
    })
}

} // verus!
