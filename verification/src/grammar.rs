//! The grammars that a buffer can be parsed with, and the file extensions
//! that select them.

use crate::syntax::language_accepted;
use crate::text::str_equal;
use tree_sitter::Language;
use vstd::prelude::*;

verus! {

/// A grammar that the library can parse with.
#[derive(Clone, Copy, Debug, PartialEq, Eq, Structural)]
pub enum Grammar {
    JavaScript,
    TypeScript,
    Tsx,
    Rust,
    Markdown,
}

/// The grammar for files with the extension `extension`, if there is one.
pub open spec fn grammar_of_extension(extension: Seq<char>) -> Option<Grammar> {
    if extension == "js"@ || extension == "jsx"@ {
        Some(Grammar::JavaScript)
    } else if extension == "ts"@ {
        Some(Grammar::TypeScript)
    } else if extension == "tsx"@ {
        Some(Grammar::Tsx)
    } else if extension == "rs"@ {
        Some(Grammar::Rust)
    } else if extension == "md"@ {
        Some(Grammar::Markdown)
    } else {
        None
    }
}

/// Calls `tree_sitter_javascript::language`: the language has a version that the
/// parser takes.
#[verifier::external_body]
fn javascript_language() -> (language: Language)
    ensures
        language_accepted(language),
{
    tree_sitter_javascript::language()
}

/// Calls `tree_sitter_typescript::language_typescript`: the language has a version that the
/// parser takes.
#[verifier::external_body]
fn typescript_language() -> (language: Language)
    ensures
        language_accepted(language),
{
    tree_sitter_typescript::language_typescript()
}

/// Calls `tree_sitter_typescript::language_tsx`: the language has a version that the
/// parser takes.
#[verifier::external_body]
fn tsx_language() -> (language: Language)
    ensures
        language_accepted(language),
{
    tree_sitter_typescript::language_tsx()
}

/// Calls `tree_sitter_rust::language`: the language has a version that the
/// parser takes.
#[verifier::external_body]
fn rust_language() -> (language: Language)
    ensures
        language_accepted(language),
{
    tree_sitter_rust::language()
}

/// Calls `tree_sitter_md::language`: the language has a version that the
/// parser takes.
#[verifier::external_body]
fn markdown_language() -> (language: Language)
    ensures
        language_accepted(language),
{
    tree_sitter_md::language()
}

impl Grammar {
    /// The grammar for files with the extension `extension`; `None` for an
    /// extension that no grammar is known for.
    pub fn from_extension(extension: &str) -> (res: Option<Grammar>)
        ensures
            res == grammar_of_extension(extension@),
    {
        if str_equal(extension, "js") || str_equal(extension, "jsx") {
            Some(Grammar::JavaScript)
        } else if str_equal(extension, "ts") {
            Some(Grammar::TypeScript)
        } else if str_equal(extension, "tsx") {
            Some(Grammar::Tsx)
        } else if str_equal(extension, "rs") {
            Some(Grammar::Rust)
        } else if str_equal(extension, "md") {
            Some(Grammar::Markdown)
        } else {
            None
        }
    }

    /// The parser tables of the grammar, which the parser takes.
    pub fn language(self) -> (res: Language)
        ensures
            language_accepted(res),
    {
        match self {
            Grammar::JavaScript => javascript_language(),
            Grammar::TypeScript => typescript_language(),
            Grammar::Tsx => tsx_language(),
            Grammar::Rust => rust_language(),
            Grammar::Markdown => markdown_language(),
        }
    }
}

} // verus!
