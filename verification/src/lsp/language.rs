//! The languages that tool processes exist for, and the registry that says
//! which of them apply to a file.

use crate::canonicalized_path::{extension_of, CanonicalizedPath};
use crate::text::str_equal;
use vstd::prelude::*;
use vstd::string::StringExecFns;

verus! {

/// A language that a tool process can be started for.
#[derive(Clone, Copy, Debug, PartialEq, Eq, Hash, Structural)]
pub enum LspLanguage {
    Rust,
    JavaScript,
    JavaScriptReact,
    TypeScript,
    TypeScriptReact,
    Markdown,
}

/// What a rule is, as plain mathematical values.
pub struct RuleView {
    pub extension: Seq<char>,
    pub language: LspLanguage,
}

/// One rule of the registry: `language` applies to the files with the
/// extension `extension`.
#[derive(Debug, PartialEq, Eq)]
pub struct LanguageRule {
    pub extension: String,
    pub language: LspLanguage,
}

impl View for LanguageRule {
    type V = RuleView;

    open spec fn view(&self) -> RuleView {
        RuleView { extension: self.extension@, language: self.language }
    }
}

/// The languages that `rules` give to the files with the extension
/// `extension`: each once, in the order of the first rule that names it.
pub open spec fn languages_for(rules: Seq<RuleView>, extension: Seq<char>) -> Seq<LspLanguage>
    decreases rules.len(),
{
    if rules.len() == 0 {
        Seq::empty()
    } else {
        let before = languages_for(rules.drop_last(), extension);
        if rules.last().extension == extension && !before.contains(rules.last().language) {
            before.push(rules.last().language)
        } else {
            before
        }
    }
}

/// The languages that `rules` give to the file that `path` names; none
/// for a file without an extension.
pub open spec fn languages_of(rules: Seq<RuleView>, path: Seq<char>) -> Seq<LspLanguage> {
    match extension_of(path) {
        Some(extension) => languages_for(rules, extension),
        None => Seq::empty(),
    }
}

/// No language stands twice among the languages of an extension.
pub proof fn lemma_languages_distinct(rules: Seq<RuleView>, extension: Seq<char>)
    ensures
        languages_for(rules, extension).no_duplicates(),
    decreases rules.len(),
{
    if rules.len() > 0 {
        lemma_languages_distinct(rules.drop_last(), extension);
    }
}

/// Whether `language` stands in `languages`.
pub fn has_language(languages: &Vec<LspLanguage>, language: LspLanguage) -> (res: bool)
    ensures
        res == languages@.contains(language),
{
    let mut i: usize = 0;
    while i < languages.len()
        invariant
            i <= languages.len(),
            forall|k: int| 0 <= k < i ==> languages@[k] != language,
        decreases languages.len() - i,
    {
        if languages[i] == language {
            return true;
        }
        i = i + 1;
    }
    false
}

/// Says which languages apply to a file, by the extension of its name.
#[derive(Debug)]
pub struct LanguageRegistry {
    rules: Vec<LanguageRule>,
}

impl View for LanguageRegistry {
    type V = Seq<RuleView>;

    closed spec fn view(&self) -> Seq<RuleView> {
        self.rules@.map_values(|r: LanguageRule| r@)
    }
}

impl LanguageRegistry {
    /// A registry without rules.
    pub fn new() -> (res: LanguageRegistry)
        ensures
            res@ == Seq::<RuleView>::empty(),
    {
        let res = LanguageRegistry { rules: Vec::new() };
        assert(res@ =~= Seq::<RuleView>::empty());
        res
    }

    /// Adds the rule that `language` applies to the files with the
    /// extension `extension`.
    pub fn register(&mut self, extension: &str, language: LspLanguage)
        ensures
            final(self)@ == old(self)@.push(RuleView { extension: extension@, language }),
    {
        self.rules.push(LanguageRule { extension: String::from_str(extension), language });
        assert(self@ =~= old(self)@.push(RuleView { extension: extension@, language }));
    }

    /// The languages that apply to the files with the extension
    /// `extension`.
    pub fn languages_for_extension(&self, extension: &str) -> (res: Vec<LspLanguage>)
        ensures
            res@ == languages_for(self@, extension@),
    {
        let mut languages: Vec<LspLanguage> = Vec::new();
        let mut i: usize = 0;
        while i < self.rules.len()
            invariant
                i <= self.rules.len(),
                languages@ == languages_for(self@.take(i as int), extension@),
            decreases self.rules.len() - i,
        {
            let rule = &self.rules[i];
            proof {
                let longer = self@.take(i as int + 1);
                assert(longer.drop_last() =~= self@.take(i as int));
                assert(longer.last() == rule@);
            }
            if str_equal(rule.extension.as_str(), extension) && !has_language(
                &languages,
                rule.language,
            ) {
                languages.push(rule.language);
            }
            i = i + 1;
        }
        assert(self@.take(i as int) =~= self@);
        languages
    }

    /// The languages that apply to the file that `path` names.
    pub fn get_languages(&self, path: &CanonicalizedPath) -> (res: Vec<LspLanguage>)
        ensures
            res@ == languages_of(self@, path@),
            res@.no_duplicates(),
    {
        proof {
            if extension_of(path@) is Some {
                lemma_languages_distinct(self@, extension_of(path@)->0);
            }
        }
        match path.extension() {
            Some(extension) => self.languages_for_extension(extension.as_str()),
            None => Vec::new(),
        }
    }
}

} // verus!
