//! Paths of files as the library handles them: text that names a file in
//! its canonical form.

use crate::text::{find_last, last_position};
use vstd::prelude::*;
use vstd::string::{StrSliceExecFns, StringExecFns};

verus! {

/// The canonical path of a file. The library reads it as text; making a
/// path canonical is the caller's work.
#[derive(Debug, PartialEq, Eq)]
pub struct CanonicalizedPath {
    path: String,
}

impl View for CanonicalizedPath {
    type V = Seq<char>;

    closed spec fn view(&self) -> Seq<char> {
        self.path@
    }
}

impl Clone for CanonicalizedPath {
    fn clone(&self) -> (res: CanonicalizedPath)
        ensures
            res@ == self@,
    {
        CanonicalizedPath { path: self.path.clone() }
    }
}

/// The place in `path` at which the name of the file starts: behind the
/// last separator.
pub open spec fn file_name_start(path: Seq<char>) -> int {
    match last_position(path, '/') {
        Some(separator) => separator + 1,
        None => 0,
    }
}

/// The extension of the file that `path` names: what follows the last dot
/// of the file's name, unless the name starts with that dot.
pub open spec fn extension_of(path: Seq<char>) -> Option<Seq<char>> {
    match last_position(path, '.') {
        Some(dot) => if dot > file_name_start(path) {
            Some(path.subrange(dot + 1, path.len() as int))
        } else {
            None
        },
        None => None,
    }
}

impl CanonicalizedPath {
    /// The path that `path` spells.
    pub fn new(path: &str) -> (res: CanonicalizedPath)
        ensures
            res@ == path@,
    {
        CanonicalizedPath { path: String::from_str(path) }
    }

    /// The path as text.
    pub fn as_str(&self) -> (res: &str)
        ensures
            res@ == self@,
    {
        self.path.as_str()
    }

    /// The extension of the file that the path names.
    pub fn extension(&self) -> (res: Option<String>)
        ensures
            match res {
                Some(extension) => extension_of(self@) == Some(extension@),
                None => extension_of(self@) is None,
            },
    {
        let path = self.path.as_str();
        let len = path.unicode_len();
        let dot = match find_last(path, '.') {
            Some(dot) => dot,
            None => {
                return None;
            },
        };
        let name_start = match find_last(path, '/') {
            Some(separator) => separator + 1,
            None => 0,
        };
        if dot > name_start {
            Some(String::from_str(path.substring_char(dot + 1, len)))
        } else {
            None
        }
    }
}

} // verus!
