use syntax_editor_core::buffer::{Buffer, EditError, EditHistoryKind};
use syntax_editor_core::edit::{Edit, EditTransaction};
use syntax_editor_core::selection::{CharIndex, Selection, SelectionSet};

fn rust_buffer(text: &str) -> Buffer {
    Buffer::new(tree_sitter_rust::language(), text).expect("the Rust grammar is usable")
}

fn selection_at(start: usize, end: usize) -> SelectionSet {
    SelectionSet::new(Selection::new(CharIndex(start)..CharIndex(end)))
}

fn text_of(buffer: &Buffer) -> String {
    buffer.rope().to_string()
}

fn edit(start: usize, old: &str, new: &str) -> Edit {
    Edit::new(CharIndex(start), old.to_string(), new.to_string())
}

#[test]
fn new_buffer_holds_the_text_and_an_empty_history() {
    let mut buffer = rust_buffer("fn main() {}\n");
    assert_eq!(text_of(&buffer), "fn main() {}\n");
    assert_eq!(buffer.len_chars(), 13);
    assert_eq!(buffer.undo(selection_at(0, 0)), Ok(None));
    assert_eq!(buffer.redo(selection_at(0, 0)), Ok(None));
    assert_eq!(text_of(&buffer), "fn main() {}\n");
}

#[test]
fn apply_edit_replaces_the_named_characters() {
    let mut buffer = rust_buffer("fn main() {}\n");
    assert_eq!(buffer.apply_edit(&edit(3, "main", "foo")), Ok(()));
    assert_eq!(text_of(&buffer), "fn foo() {}\n");
    assert_eq!(buffer.len_chars(), 12);
}

#[test]
fn apply_edit_inserts_and_deletes() {
    let mut buffer = rust_buffer("fn main() {}\n");
    assert_eq!(buffer.apply_edit(&edit(11, "", " let x = 1; ")), Ok(()));
    assert_eq!(text_of(&buffer), "fn main() { let x = 1; }\n");
    assert_eq!(buffer.apply_edit(&edit(0, "fn main() { let x = 1; }\n", "")), Ok(()));
    assert_eq!(text_of(&buffer), "");
    assert_eq!(buffer.len_chars(), 0);
}

#[test]
fn apply_edit_at_the_very_end_is_in_range() {
    let mut buffer = rust_buffer("fn main() {}\n");
    assert_eq!(buffer.apply_edit(&edit(13, "", "fn f() {}\n")), Ok(()));
    assert_eq!(text_of(&buffer), "fn main() {}\nfn f() {}\n");
}

#[test]
fn apply_edit_counts_characters_not_bytes() {
    let mut buffer = rust_buffer("// héllo wörld\n");
    assert_eq!(buffer.apply_edit(&edit(3, "héllo", "ça")), Ok(()));
    assert_eq!(text_of(&buffer), "// ça wörld\n");
    assert_eq!(buffer.apply_edit(&edit(6, "wörld", "x")), Ok(()));
    assert_eq!(text_of(&buffer), "// ça x\n");
}

#[test]
fn apply_edit_beyond_the_end_is_refused_and_changes_nothing() {
    let mut buffer = rust_buffer("fn main() {}\n");
    assert_eq!(buffer.apply_edit(&edit(10, "main", "foo")), Err(EditError::OutOfRange));
    assert_eq!(buffer.apply_edit(&edit(14, "", "x")), Err(EditError::OutOfRange));
    assert_eq!(
        buffer.apply_edit(&Edit::new(CharIndex(usize::MAX), "ab".to_string(), String::new())),
        Err(EditError::OutOfRange)
    );
    assert_eq!(text_of(&buffer), "fn main() {}\n");
    assert!(!buffer.has_syntax_error_at(CharIndex(0)..CharIndex(13)));
}

#[test]
fn apply_edit_leaves_the_history_alone() {
    let mut buffer = rust_buffer("fn main() {}\n");
    assert_eq!(buffer.apply_edit(&edit(3, "main", "foo")), Ok(()));
    assert_eq!(buffer.undo(selection_at(0, 0)), Ok(None));
    assert_eq!(text_of(&buffer), "fn foo() {}\n");
}

#[test]
fn install_without_a_tree_fails_and_keeps_the_buffer() {
    let mut buffer = rust_buffer("fn main() {}\n");
    let other = ropey::Rope::from_str("something else");
    assert_eq!(buffer.install(other, None), Err(EditError::ParseFailed));
    assert_eq!(text_of(&buffer), "fn main() {}\n");
}

#[test]
fn install_with_a_tree_takes_rope_and_tree() {
    let mut buffer = rust_buffer("fn main() {}\n");
    let donor = rust_buffer("fn f( {}\n");
    let rope = donor.rope().clone();
    let tree = donor.tree().clone();
    assert_eq!(buffer.install(rope, Some(tree)), Ok(()));
    assert_eq!(text_of(&buffer), "fn f( {}\n");
    assert!(buffer.has_syntax_error_at(CharIndex(0)..CharIndex(9)));
}

#[test]
fn from_parts_needs_a_tree() {
    assert!(Buffer::from_parts(ropey::Rope::from_str("fn main() {}\n"), None).is_none());
    let donor = rust_buffer("fn main() {}\n");
    let buffer = Buffer::from_parts(donor.rope().clone(), Some(donor.tree().clone()));
    assert_eq!(text_of(&buffer.expect("a tree was given")), "fn main() {}\n");
}

#[test]
fn edit_round_trip_restores_text_and_error_state() {
    let mut buffer = rust_buffer("fn main() {}\n");
    let change = edit(8, ")", "");
    let had_error = buffer.has_syntax_error_at(CharIndex(0)..CharIndex(13));
    assert!(!had_error);
    assert_eq!(buffer.apply_edit(&change), Ok(()));
    assert_eq!(text_of(&buffer), "fn main( {}\n");
    assert!(buffer.has_syntax_error_at(CharIndex(0)..CharIndex(12)));
    assert_eq!(buffer.apply_edit(&change.inverse()), Ok(()));
    assert_eq!(text_of(&buffer), "fn main() {}\n");
    assert_eq!(buffer.has_syntax_error_at(CharIndex(0)..CharIndex(13)), had_error);
}

#[test]
fn transaction_applies_edits_in_order() {
    let mut buffer = rust_buffer("fn main() {}\n");
    let transaction = EditTransaction::from_edits(vec![
        edit(3, "main", "foo"),
        edit(6, "", "_bar"),
        edit(0, "fn", "pub fn"),
    ]);
    assert_eq!(
        buffer.apply_edit_transaction(&transaction, selection_at(3, 7), EditHistoryKind::NewEdit),
        Ok(())
    );
    assert_eq!(text_of(&buffer), "pub fn foo_bar() {}\n");
}

#[test]
fn transaction_inverse_reverses_and_swaps() {
    let transaction =
        EditTransaction::from_edits(vec![edit(3, "main", "foo"), edit(0, "fn", "pub fn")]);
    let inverse = transaction.inverse();
    assert_eq!(inverse.edits(), &vec![edit(0, "pub fn", "fn"), edit(3, "foo", "main")]);
    assert_eq!(inverse.inverse(), transaction);
    assert_eq!(inverse.len(), 2);
    assert_eq!(inverse.get(1), &edit(3, "foo", "main"));
}

#[test]
fn edit_end_and_inverse() {
    let change = edit(3, "main", "foo");
    assert_eq!(change.end(), Some(CharIndex(7)));
    assert_eq!(change.inverse(), edit(3, "foo", "main"));
    assert_eq!(edit(2, "héé", "").end(), Some(CharIndex(5)));
    assert_eq!(Edit::new(CharIndex(usize::MAX), "a".to_string(), String::new()).end(), None);
    assert_eq!(CharIndex(4).checked_add(5), Some(CharIndex(9)));
    assert_eq!(CharIndex(usize::MAX - 1).checked_add(2), None);
}

#[test]
fn failed_transaction_keeps_earlier_edits_and_records_nothing() {
    let mut buffer = rust_buffer("fn main() {}\n");
    let transaction =
        EditTransaction::from_edits(vec![edit(3, "main", "foo"), edit(40, "x", "y")]);
    assert_eq!(
        buffer.apply_edit_transaction(&transaction, selection_at(0, 0), EditHistoryKind::NewEdit),
        Err(EditError::OutOfRange)
    );
    assert_eq!(text_of(&buffer), "fn foo() {}\n");
    assert_eq!(buffer.undo(selection_at(0, 0)), Ok(None));
    assert_eq!(text_of(&buffer), "fn foo() {}\n");
}

#[test]
fn concrete_scenario_rename_main_and_undo() {
    let mut buffer = rust_buffer("fn main() {}\n");
    assert!(!buffer.has_syntax_error_at(CharIndex(0)..CharIndex(13)));
    let transaction = EditTransaction::from_edits(vec![edit(3, "main", "foo")]);
    let recorded = selection_at(3, 7);
    assert_eq!(
        buffer.apply_edit_transaction(&transaction, recorded.clone(), EditHistoryKind::NewEdit),
        Ok(())
    );
    assert_eq!(text_of(&buffer), "fn foo() {}\n");
    assert!(!buffer.has_syntax_error_at(CharIndex(0)..CharIndex(12)));
    assert_eq!(buffer.undo(selection_at(3, 6)), Ok(Some(recorded)));
    assert_eq!(text_of(&buffer), "fn main() {}\n");
    assert!(!buffer.has_syntax_error_at(CharIndex(0)..CharIndex(13)));
}

#[test]
fn undo_then_redo_is_symmetric() {
    let mut buffer = rust_buffer("fn main() {}\n");
    let transaction =
        EditTransaction::from_edits(vec![edit(3, "main", "foo"), edit(0, "", "pub ")]);
    let at_commit = selection_at(3, 7);
    let at_undo = selection_at(7, 10).clone();
    assert_eq!(
        buffer.apply_edit_transaction(&transaction, at_commit.clone(), EditHistoryKind::NewEdit),
        Ok(())
    );
    assert_eq!(text_of(&buffer), "pub fn foo() {}\n");
    assert_eq!(buffer.undo(at_undo.clone()), Ok(Some(at_commit.clone())));
    assert_eq!(text_of(&buffer), "fn main() {}\n");
    assert_eq!(buffer.redo(selection_at(0, 0)), Ok(Some(at_undo)));
    assert_eq!(text_of(&buffer), "pub fn foo() {}\n");
    assert_eq!(buffer.redo(selection_at(0, 0)), Ok(None));
    assert_eq!(buffer.undo(selection_at(1, 1)), Ok(Some(selection_at(0, 0))));
    assert_eq!(text_of(&buffer), "fn main() {}\n");
    assert_eq!(buffer.undo(selection_at(0, 0)), Ok(None));
}

#[test]
fn chain_of_undos_then_redos() {
    let mut buffer = rust_buffer("fn a() {}\n");
    let first = EditTransaction::from_edits(vec![edit(3, "a", "b")]);
    let second = EditTransaction::from_edits(vec![edit(3, "b", "c")]);
    assert_eq!(
        buffer.apply_edit_transaction(&first, selection_at(1, 1), EditHistoryKind::NewEdit),
        Ok(())
    );
    assert_eq!(
        buffer.apply_edit_transaction(&second, selection_at(2, 2), EditHistoryKind::NewEdit),
        Ok(())
    );
    assert_eq!(text_of(&buffer), "fn c() {}\n");
    assert_eq!(buffer.undo(selection_at(3, 3)), Ok(Some(selection_at(2, 2))));
    assert_eq!(text_of(&buffer), "fn b() {}\n");
    assert_eq!(buffer.undo(selection_at(4, 4)), Ok(Some(selection_at(1, 1))));
    assert_eq!(text_of(&buffer), "fn a() {}\n");
    assert_eq!(buffer.redo(selection_at(5, 5)), Ok(Some(selection_at(4, 4))));
    assert_eq!(text_of(&buffer), "fn b() {}\n");
    assert_eq!(buffer.redo(selection_at(6, 6)), Ok(Some(selection_at(3, 3))));
    assert_eq!(text_of(&buffer), "fn c() {}\n");
}

#[test]
fn new_edit_after_undo_invalidates_redo() {
    let mut buffer = rust_buffer("fn main() {}\n");
    let rename = EditTransaction::from_edits(vec![edit(3, "main", "foo")]);
    let other = EditTransaction::from_edits(vec![edit(3, "main", "bar")]);
    assert_eq!(
        buffer.apply_edit_transaction(&rename, selection_at(0, 0), EditHistoryKind::NewEdit),
        Ok(())
    );
    assert_eq!(buffer.undo(selection_at(0, 0)), Ok(Some(selection_at(0, 0))));
    assert_eq!(
        buffer.apply_edit_transaction(&other, selection_at(0, 0), EditHistoryKind::NewEdit),
        Ok(())
    );
    assert_eq!(buffer.redo(selection_at(0, 0)), Ok(None));
    assert_eq!(text_of(&buffer), "fn bar() {}\n");
}

#[test]
fn history_kinds_choose_the_stack() {
    let mut buffer = rust_buffer("fn a() {}\n");
    let to_b = EditTransaction::from_edits(vec![edit(3, "a", "b")]);
    assert_eq!(
        buffer.apply_edit_transaction(&to_b, selection_at(1, 2), EditHistoryKind::Undo),
        Ok(())
    );
    assert_eq!(buffer.undo(selection_at(0, 0)), Ok(None));
    assert_eq!(buffer.redo(selection_at(5, 6)), Ok(Some(selection_at(1, 2))));
    assert_eq!(text_of(&buffer), "fn a() {}\n");
    assert_eq!(buffer.undo(selection_at(7, 8)), Ok(Some(selection_at(5, 6))));
    assert_eq!(text_of(&buffer), "fn b() {}\n");
    let to_c = EditTransaction::from_edits(vec![edit(3, "b", "c")]);
    assert_eq!(
        buffer.apply_edit_transaction(&to_c, selection_at(9, 9), EditHistoryKind::Redo),
        Ok(())
    );
    assert_eq!(buffer.redo(selection_at(0, 0)), Ok(Some(selection_at(7, 8))));
}

#[test]
fn undo_of_a_patch_that_no_longer_fits_fails_and_drops_it() {
    let mut buffer = rust_buffer("fn main() {}\n");
    let grow = EditTransaction::from_edits(vec![edit(13, "", "fn other_function() {}\n")]);
    assert_eq!(
        buffer.apply_edit_transaction(&grow, selection_at(0, 0), EditHistoryKind::NewEdit),
        Ok(())
    );
    assert_eq!(buffer.apply_edit(&edit(0, "fn main() {}\nfn other_function() {}\n", "")), Ok(()));
    assert_eq!(buffer.undo(selection_at(0, 0)), Err(EditError::OutOfRange));
    assert_eq!(text_of(&buffer), "");
    assert_eq!(buffer.undo(selection_at(0, 0)), Ok(None));
    assert_eq!(buffer.redo(selection_at(0, 0)), Ok(None));
}

#[test]
fn selections_keep_what_they_are_given() {
    let selection = Selection::new(CharIndex(2)..CharIndex(5)).with_node_id(42);
    assert_eq!(selection.range, CharIndex(2)..CharIndex(5));
    assert_eq!(selection.node_id, Some(42));
    let set = SelectionSet::new(selection.clone());
    assert_eq!(set.primary, selection);
    assert!(set.secondary.is_empty());
    let mut with_secondary = set.clone();
    with_secondary.secondary.push(Selection::new(CharIndex(7)..CharIndex(8)));
    assert_eq!(with_secondary.clone(), with_secondary);
    assert_ne!(with_secondary, set);
}

#[test]
fn undo_puts_back_what_the_edit_said_it_replaced() {
    let mut buffer = rust_buffer("fn a() {}\n");
    let misnamed = EditTransaction::from_edits(vec![edit(3, "x", "y")]);
    assert_eq!(
        buffer.apply_edit_transaction(&misnamed, selection_at(0, 0), EditHistoryKind::NewEdit),
        Ok(())
    );
    assert_eq!(text_of(&buffer), "fn y() {}\n");
    assert_eq!(buffer.undo(selection_at(0, 0)), Ok(Some(selection_at(0, 0))));
    assert_eq!(text_of(&buffer), "fn x() {}\n");
}

#[test]
fn apply_edit_in_range_succeeds_on_a_text_with_wide_characters() {
    let mut buffer = rust_buffer("// é\nfn a() {}\n");
    assert_eq!(buffer.len_chars(), 15);
    assert_eq!(buffer.char_to_byte(CharIndex(8)), 9);
    let change = edit(8, "a", "bc");
    assert_eq!(change.end(), Some(CharIndex(9)));
    assert_eq!(buffer.apply_edit(&change), Ok(()));
    assert_eq!(text_of(&buffer), "// é\nfn bc() {}\n");
    assert_eq!(buffer.len_chars(), 16);
    assert!(!buffer.has_syntax_error_at(CharIndex(0)..CharIndex(16)));
}

#[test]
fn a_buffer_is_made_for_every_grammar_of_the_library() {
    for extension in ["js", "jsx", "ts", "tsx", "rs", "md"] {
        let mut buffer = Buffer::from_extension(extension, "a\n").expect("the grammar is known");
        assert_eq!(buffer.apply_edit(&edit(0, "a", "b")), Ok(()));
        assert_eq!(text_of(&buffer), "b\n");
        assert_eq!(buffer.apply_edit(&edit(2, "", "c")), Ok(()));
        assert_eq!(text_of(&buffer), "b\nc");
    }
    assert!(Buffer::from_extension("py", "a\n").is_none());
}

#[test]
fn second_redo_after_two_undos() {
    let mut buffer = rust_buffer("fn a() {}\n");
    let first = EditTransaction::from_edits(vec![edit(3, "a", "b")]);
    let second = EditTransaction::from_edits(vec![edit(3, "b", "c")]);
    assert_eq!(
        buffer.apply_edit_transaction(&first, selection_at(1, 1), EditHistoryKind::NewEdit),
        Ok(())
    );
    assert_eq!(
        buffer.apply_edit_transaction(&second, selection_at(2, 2), EditHistoryKind::NewEdit),
        Ok(())
    );
    assert!(matches!(buffer.undo(selection_at(0, 0)), Ok(Some(_))));
    assert!(matches!(buffer.undo(selection_at(0, 0)), Ok(Some(_))));
    assert!(matches!(buffer.redo(selection_at(0, 0)), Ok(Some(_))));
    assert_eq!(text_of(&buffer), "fn b() {}\n");
    assert!(matches!(buffer.redo(selection_at(0, 0)), Ok(Some(_))));
    assert_eq!(text_of(&buffer), "fn c() {}\n");
    assert_eq!(buffer.redo(selection_at(0, 0)), Ok(None));
}

#[test]
fn an_edit_keeps_the_grammar_of_the_tree() {
    let mut buffer = Buffer::from_extension("md", "# Title\n").expect("the grammar is known");
    let language = buffer.tree().language();
    assert_eq!(language, tree_sitter_md::language());
    assert_eq!(buffer.apply_edit(&edit(2, "Title", "fn main() {}")), Ok(()));
    assert_eq!(buffer.tree().language(), language);
    assert_eq!(buffer.tree().root_node().kind(), "document");
    let transaction = EditTransaction::from_edits(vec![edit(0, "# ", "")]);
    assert_eq!(
        buffer.apply_edit_transaction(&transaction, selection_at(0, 0), EditHistoryKind::NewEdit),
        Ok(())
    );
    assert_eq!(buffer.undo(selection_at(0, 0)), Ok(Some(selection_at(0, 0))));
    assert_eq!(buffer.tree().language(), language);
    let rust = rust_buffer("fn main() {}\n");
    assert_eq!(rust.tree().language(), tree_sitter_rust::language());
}

#[test]
fn a_transaction_that_applies_no_edit_keeps_the_tree() {
    let mut buffer = rust_buffer("fn main() {}\n");
    let root = buffer.tree().root_node().id();
    let empty = EditTransaction::from_edits(Vec::new());
    assert_eq!(
        buffer.apply_edit_transaction(&empty, selection_at(1, 2), EditHistoryKind::NewEdit),
        Ok(())
    );
    assert_eq!(buffer.tree().root_node().id(), root);
    let beyond = EditTransaction::from_edits(vec![edit(40, "x", "y"), edit(0, "", "a")]);
    assert_eq!(
        buffer.apply_edit_transaction(&beyond, selection_at(0, 0), EditHistoryKind::NewEdit),
        Err(EditError::OutOfRange)
    );
    assert_eq!(buffer.tree().root_node().id(), root);
    assert_eq!(buffer.undo(selection_at(0, 0)), Ok(Some(selection_at(1, 2))));
    assert_eq!(buffer.tree().root_node().id(), root);
    assert_eq!(text_of(&buffer), "fn main() {}\n");
}
