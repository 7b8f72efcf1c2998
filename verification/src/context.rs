//! What an editing session remembers between commands: the searches that
//! were made, and the text that was copied last.

use vstd::prelude::*;

verus! {

/// How the text of a search is read.
#[derive(Clone, Copy, Debug, PartialEq, Eq, Structural)]
pub enum SearchKind {
    Literal,
    Regex,
    AstGrep,
}

/// What a search is, as plain mathematical values.
pub struct SearchView {
    pub kind: SearchKind,
    pub search: Seq<char>,
}

/// A search that was made.
#[derive(Debug, PartialEq, Eq)]
pub struct Search {
    pub kind: SearchKind,
    pub search: String,
}

impl View for Search {
    type V = SearchView;

    open spec fn view(&self) -> SearchView {
        SearchView { kind: self.kind, search: self.search@ }
    }
}

impl Clone for Search {
    fn clone(&self) -> (res: Search)
        ensures
            res@ == self@,
    {
        Search { kind: self.kind, search: self.search.clone() }
    }
}

/// What a context is, as plain mathematical values: the searches in the
/// order in which they were made, and the text that was copied last.
pub struct ContextView {
    pub searches: Seq<SearchView>,
    pub clipboard: Option<Seq<char>>,
}

/// The state that an editing session carries along.
pub struct Context {
    previous_searches: Vec<Search>,
    clipboard_content: Option<String>,
}

impl View for Context {
    type V = ContextView;

    closed spec fn view(&self) -> ContextView {
        ContextView {
            searches: self.previous_searches@.map_values(|s: Search| s@),
            clipboard: match self.clipboard_content {
                Some(content) => Some(content@),
                None => None,
            },
        }
    }
}

/// The text to paste: what the system clipboard holds, and without that,
/// what was copied last within the session.
pub open spec fn clipboard_choice(system: Option<Seq<char>>, own: Option<Seq<char>>) -> Option<
    Seq<char>,
> {
    match system {
        Some(content) => Some(content),
        None => own,
    }
}

impl Default for Context {
    fn default() -> (res: Context)
        ensures
            res@ == (ContextView { searches: Seq::empty(), clipboard: None }),
    {
        Context::new()
    }
}

impl Context {
    /// A context without searches and without copied text.
    pub fn new() -> (res: Context)
        ensures
            res@ == (ContextView { searches: Seq::empty(), clipboard: None }),
    {
        let res = Context { previous_searches: Vec::new(), clipboard_content: None };
        assert(res@.searches =~= Seq::empty());
        res
    }

    /// The search that was made last.
    pub fn last_search(&self) -> (res: Option<Search>)
        ensures
            self@.searches.len() == 0 ==> res is None,
            self@.searches.len() > 0 ==> res is Some && res->0@ == self@.searches.last(),
    {
        let count = self.previous_searches.len();
        if count == 0 {
            None
        } else {
            Some(self.previous_searches[count - 1].clone())
        }
    }

    /// Remembers `search` as the search that was made last.
    pub fn set_search(&mut self, search: Search)
        ensures
            final(self)@ == (ContextView {
                searches: old(self)@.searches.push(search@),
                ..old(self)@
            }),
    {
        self.previous_searches.push(search);
        assert(self@.searches =~= old(self)@.searches.push(search@));
    }

    /// The searches in the order in which they were made.
    pub fn previous_searches(&self) -> (res: Vec<Search>)
        ensures
            res@.map_values(|s: Search| s@) == self@.searches,
    {
        let mut searches: Vec<Search> = Vec::new();
        let mut i: usize = 0;
        while i < self.previous_searches.len()
            invariant
                i <= self.previous_searches.len(),
                searches.len() == i,
                forall|k: int| 0 <= k < i ==> searches[k]@ == self.previous_searches[k]@,
            decreases self.previous_searches.len() - i,
        {
            searches.push(self.previous_searches[i].clone());
            i = i + 1;
        }
        assert(searches@.map_values(|s: Search| s@) =~= self@.searches);
        searches
    }

    /// The text to paste, given what the system clipboard holds now:
    /// that, and where it holds nothing, the text that was copied last
    /// within the session.
    pub fn get_clipboard_content(&self, system_content: Option<String>) -> (res: Option<String>)
        ensures
            match res {
                Some(content) => Some(content@),
                None => None,
            } == clipboard_choice(
                match system_content {
                    Some(content) => Some(content@),
                    None => None,
                },
                self@.clipboard,
            ),
    {
        match system_content {
            Some(content) => Some(content),
            None => match &self.clipboard_content {
                Some(content) => Some(content.clone()),
                None => None,
            },
        }
    }

    /// Remembers `content` as the text that was copied last.
    pub fn set_clipboard_content(&mut self, content: String)
        ensures
            final(self)@ == (ContextView { clipboard: Some(content@), ..old(self)@ }),
    {
        self.clipboard_content = Some(content);
    }
}

} // verus!
