//! Searches over the nodes of a syntax tree, given as the list that a walk
//! over the tree yields.

use crate::search::{
    first_index, first_match, is_last_index, last_index, last_match, lemma_first_index,
    lemma_indices_exist, lemma_last_index,
};
use crate::syntax::{leaves_in_order, SyntaxNode};
use vstd::prelude::*;

verus! {

/// The nodes that start at `byte` or behind it.
pub open spec fn starts_from(byte: usize) -> spec_fn(SyntaxNode) -> bool {
    |node: SyntaxNode| node.start_byte >= byte
}

/// The nodes with the identity `id`.
pub open spec fn has_id(id: usize) -> spec_fn(SyntaxNode) -> bool {
    |node: SyntaxNode| node.id == id
}

/// Whether `node` is a token: a node without children, and a named one
/// where only named nodes are asked for.
pub open spec fn is_token(node: SyntaxNode, named_only: bool) -> bool {
    node.child_count == 0 && (!named_only || node.named)
}

/// The tokens.
pub open spec fn token(named_only: bool) -> spec_fn(SyntaxNode) -> bool {
    |node: SyntaxNode| is_token(node, named_only)
}

/// The tokens that end behind `byte`.
pub open spec fn token_ending_after(byte: usize, named_only: bool) -> spec_fn(SyntaxNode) -> bool {
    |node: SyntaxNode| is_token(node, named_only) && node.end_byte > byte
}

/// The tokens that start at `byte` or behind it.
pub open spec fn token_starting_from(byte: usize, named_only: bool) -> spec_fn(SyntaxNode) -> bool {
    |node: SyntaxNode| is_token(node, named_only) && node.start_byte >= byte
}

/// The token that follows the position `byte`: the first token of `nodes`
/// that ends behind it.
pub open spec fn next_token_of(nodes: Seq<SyntaxNode>, byte: usize, named_only: bool) -> Option<
    SyntaxNode,
> {
    first_match(nodes, token_ending_after(byte, named_only))
}

/// The place in `nodes` of the first token that starts at `byte` or behind
/// it: the tokens before that place are the ones before the position.
pub open spec fn tokens_before(nodes: Seq<SyntaxNode>, byte: usize, named_only: bool) -> int {
    first_index(nodes, token_starting_from(byte, named_only))
}

/// The token that precedes the position `byte`: the last token of `nodes`
/// before the first token that starts at `byte` or behind it.
pub open spec fn prev_token_of(nodes: Seq<SyntaxNode>, byte: usize, named_only: bool) -> Option<
    SyntaxNode,
> {
    last_match(nodes.take(tokens_before(nodes, byte, named_only)), token(named_only))
}

/// The first node of `nodes` that starts at `byte` or behind it.
pub fn nearest_node_after(nodes: &Vec<SyntaxNode>, byte: usize) -> (res: Option<SyntaxNode>)
    ensures
        res == first_match(nodes@, starts_from(byte)),
{
    let mut i: usize = 0;
    while i < nodes.len()
        invariant
            i <= nodes.len(),
            forall|j: int| 0 <= j < i ==> !starts_from(byte)(#[trigger] nodes@[j]),
        decreases nodes.len() - i,
    {
        if nodes[i].start_byte >= byte {
            proof {
                lemma_first_index(nodes@, starts_from(byte), i as int);
            }
            return Some(nodes[i]);
        }
        i = i + 1;
    }
    proof {
        lemma_first_index(nodes@, starts_from(byte), i as int);
    }
    None
}

/// The first node of `nodes` with the identity `id`.
pub fn node_by_id(nodes: &Vec<SyntaxNode>, id: usize) -> (res: Option<SyntaxNode>)
    ensures
        res == first_match(nodes@, has_id(id)),
{
    let mut i: usize = 0;
    while i < nodes.len()
        invariant
            i <= nodes.len(),
            forall|j: int| 0 <= j < i ==> !has_id(id)(#[trigger] nodes@[j]),
        decreases nodes.len() - i,
    {
        if nodes[i].id == id {
            proof {
                lemma_first_index(nodes@, has_id(id), i as int);
            }
            return Some(nodes[i]);
        }
        i = i + 1;
    }
    proof {
        lemma_first_index(nodes@, has_id(id), i as int);
    }
    None
}

/// Whether `node` is a token.
pub fn token_test(node: &SyntaxNode, named_only: bool) -> (res: bool)
    ensures
        res == is_token(*node, named_only),
{
    node.child_count == 0 && (!named_only || node.named)
}

/// The token of `nodes` that follows the position `byte`.
pub fn next_token(nodes: &Vec<SyntaxNode>, byte: usize, named_only: bool) -> (res: Option<
    SyntaxNode,
>)
    ensures
        res == next_token_of(nodes@, byte, named_only),
{
    let ghost pred = token_ending_after(byte, named_only);
    let mut i: usize = 0;
    while i < nodes.len()
        invariant
            i <= nodes.len(),
            pred == token_ending_after(byte, named_only),
            forall|j: int| 0 <= j < i ==> !pred(#[trigger] nodes@[j]),
        decreases nodes.len() - i,
    {
        if token_test(&nodes[i], named_only) && nodes[i].end_byte > byte {
            proof {
                lemma_first_index(nodes@, pred, i as int);
            }
            return Some(nodes[i]);
        }
        i = i + 1;
    }
    proof {
        lemma_first_index(nodes@, pred, i as int);
    }
    None
}

/// The token of `nodes` that precedes the position `byte`.
pub fn prev_token(nodes: &Vec<SyntaxNode>, byte: usize, named_only: bool) -> (res: Option<
    SyntaxNode,
>)
    ensures
        res == prev_token_of(nodes@, byte, named_only),
{
    let ghost stop = token_starting_from(byte, named_only);
    let ghost keep = token(named_only);
    let mut last: Option<SyntaxNode> = None;
    let ghost mut last_at: int = -1;
    let mut i: usize = 0;
    while i < nodes.len()
        invariant
            i <= nodes.len(),
            stop == token_starting_from(byte, named_only),
            keep == token(named_only),
            forall|j: int| 0 <= j < i ==> !stop(#[trigger] nodes@[j]),
            is_last_index(nodes@.take(i as int), keep, last_at),
            last == if last_at >= 0 {
                Some(nodes@[last_at])
            } else {
                None
            },
        ensures
            i < nodes.len() ==> stop(nodes@[i as int]),
        decreases nodes.len() - i,
    {
        let is_tok = token_test(&nodes[i], named_only);
        if is_tok && nodes[i].start_byte >= byte {
            break;
        }
        proof {
            let shorter = nodes@.take(i as int);
            let longer = nodes@.take(i as int + 1);
            assert(forall|j: int| 0 <= j < i ==> shorter[j] == longer[j]);
            assert(longer[i as int] == nodes@[i as int]);
            if is_tok {
                last_at = i as int;
            } else {
                assert forall|j: int| last_at < j < longer.len() implies !keep(
                    #[trigger] longer[j],
                ) by {
                    if j < i {
                        assert(!keep(shorter[j]));
                    }
                }
            }
        }
        if is_tok {
            last = Some(nodes[i]);
        }
        i = i + 1;
    }
    proof {
        lemma_first_index(nodes@, stop, i as int);
        lemma_last_index(nodes@.take(i as int), keep, last_at);
    }
    last
}

/// When there is a token on either side of a position: there is one
/// behind it exactly where some token ends behind it, and, in a list whose
/// leaves come in the order of the text, there is one before it exactly
/// where some token starts before it.
pub proof fn lemma_tokens_exist(nodes: Seq<SyntaxNode>, byte: usize, named_only: bool)
    requires
        leaves_in_order(nodes),
    ensures
        next_token_of(nodes, byte, named_only) is Some <==> exists|i: int|
            0 <= i < nodes.len() && is_token(#[trigger] nodes[i], named_only)
                && nodes[i].end_byte > byte,
        prev_token_of(nodes, byte, named_only) is Some <==> exists|i: int|
            0 <= i < nodes.len() && is_token(#[trigger] nodes[i], named_only)
                && nodes[i].start_byte < byte,
{
    let stop = token_starting_from(byte, named_only);
    let keep = token(named_only);
    let after = token_ending_after(byte, named_only);
    let cut = first_index(nodes, stop);
    let head = nodes.take(cut);
    lemma_indices_exist(nodes, stop);
    lemma_indices_exist(nodes, after);
    lemma_indices_exist(head, keep);
    let n = first_index(nodes, after);
    let p = last_index(head, keep);
    if n < nodes.len() {
        assert(after(nodes[n]));
        assert(is_token(nodes[n], named_only) && nodes[n].end_byte > byte);
    }
    if exists|i: int|
        0 <= i < nodes.len() && is_token(#[trigger] nodes[i], named_only) && nodes[i].end_byte
            > byte {
        let i = choose|i: int|
            0 <= i < nodes.len() && is_token(#[trigger] nodes[i], named_only) && nodes[i].end_byte
                > byte;
        assert(after(nodes[i]));
    }
    if p >= 0 {
        assert(head[p] == nodes[p]);
        assert(keep(nodes[p]));
        assert(!stop(nodes[p]));
        assert(is_token(nodes[p], named_only) && nodes[p].start_byte < byte);
    }
    if exists|i: int|
        0 <= i < nodes.len() && is_token(#[trigger] nodes[i], named_only) && nodes[i].start_byte
            < byte {
        let i = choose|i: int|
            0 <= i < nodes.len() && is_token(#[trigger] nodes[i], named_only)
                && nodes[i].start_byte < byte;
        if cut <= i {
            assert(stop(nodes[cut]));
            assert(!stop(nodes[i]));
            assert(nodes[cut].end_byte <= nodes[i].start_byte);
        }
        assert(head[i] == nodes[i]);
        assert(keep(head[i]));
    }
}

/// At a position that lies within no token, the token before it and the
/// token behind it are two nodes, the first ends where the second starts or
/// before, and nothing but empty tokens at the position lies between them.
///
/// `nodes` is what a walk over a tree yields: its leaves come in the order
/// of the text.
pub proof fn lemma_token_symmetry(nodes: Seq<SyntaxNode>, byte: usize, named_only: bool)
    requires
        leaves_in_order(nodes),
        forall|i: int|
            0 <= i < nodes.len() && is_token(#[trigger] nodes[i], named_only) ==> !(
            nodes[i].start_byte < byte && byte < nodes[i].end_byte),
        prev_token_of(nodes, byte, named_only) is Some,
        next_token_of(nodes, byte, named_only) is Some,
    ensures
        prev_token_of(nodes, byte, named_only)->0 != next_token_of(nodes, byte, named_only)->0,
        prev_token_of(nodes, byte, named_only)->0.end_byte <= byte,
        byte <= next_token_of(nodes, byte, named_only)->0.start_byte,
        last_index(nodes.take(tokens_before(nodes, byte, named_only)), token(named_only))
            < first_index(nodes, token_ending_after(byte, named_only)),
        forall|k: int|
            last_index(nodes.take(tokens_before(nodes, byte, named_only)), token(named_only)) < k
                < first_index(nodes, token_ending_after(byte, named_only)) && is_token(
                #[trigger] nodes[k],
                named_only,
            ) ==> nodes[k].start_byte == byte && nodes[k].end_byte == byte,
{
    let stop = token_starting_from(byte, named_only);
    let keep = token(named_only);
    let after = token_ending_after(byte, named_only);
    let cut = first_index(nodes, stop);
    let head = nodes.take(cut);
    let p = last_index(head, keep);
    let n = first_index(nodes, after);
    lemma_indices_exist(nodes, stop);
    lemma_indices_exist(nodes, after);
    lemma_indices_exist(head, keep);
    assert(0 <= p < cut);
    assert(head[p] == nodes[p]);
    assert(keep(nodes[p]));
    assert(!stop(nodes[p]));
    assert(nodes[p].start_byte < byte);
    assert(nodes[p].end_byte <= byte);
    assert(after(nodes[n]));
    assert(n >= cut) by {
        if n < cut {
            assert(!stop(nodes[n]));
        }
    }
    assert forall|k: int| p < k < n && is_token(#[trigger] nodes[k], named_only) implies nodes[k].start_byte
        == byte && nodes[k].end_byte == byte by {
        assert(!after(nodes[k]));
        if k < cut {
            assert(head[k] == nodes[k]);
            assert(!keep(head[k]));
        } else {
            if cut < k {
                assert(stop(nodes[cut]));
            }
            assert(nodes[k].start_byte >= byte);
        }
    }
}

} // verus!
