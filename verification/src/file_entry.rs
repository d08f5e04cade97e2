//! The in-memory record for one directory entry, and the ordering relation
//! used for display.
//!
//! An entry carries plain values only: its base name, the icon the classifier
//! assigned, and the booleans derived at construction. The lower-cased
//! extension is derived from the name once, at construction.

use vstd::prelude::*;
use vstd::string::StrSliceExecFns;

use crate::text::{str_eq, str_lex_cmp, lex_cmp, Rel};
use crate::unicode::{lower_of, lowercase};

verus! {

/// One directory entry, ready for sorting and layout.
#[derive(Debug)]
pub struct FileEntry {
    /// Icon assigned by the classifier, immutable after construction.
    pub emoji: String,
    /// Base name, original case preserved for display.
    pub name: String,
    /// Whether the entry is a directory.
    pub is_directory: bool,
    /// Whether the name begins with `.`.
    pub is_hidden: bool,
    /// Lower-cased extension of the name, if the name has one.
    pub extension: Option<String>,
}

/// A name is hidden when it begins with a dot.
pub open spec fn spec_is_hidden(name: Seq<char>) -> bool {
    name.len() > 0 && name[0] == '.'
}

/// Index of the last `.` in `s`, or `-1` if there is none.
pub open spec fn spec_last_dot(s: Seq<char>) -> int
    decreases s.len(),
{
    if s.len() == 0 {
        -1
    } else if s[s.len() - 1] == '.' {
        s.len() - 1
    } else {
        spec_last_dot(s.drop_last())
    }
}

/// The extension of a name: the characters after the last dot, provided that
/// dot is preceded by a non-empty stem. A leading dot marks a hidden name,
/// not an extension.
pub open spec fn spec_raw_extension(name: Seq<char>) -> Option<Seq<char>> {
    let d = spec_last_dot(name);
    if d >= 1 {
        Some(name.skip(d + 1))
    } else {
        None
    }
}

/// A well-formed entry: the hidden flag and the stored extension are the
/// functions of the name that construction promises.
pub open spec fn entry_wf(e: FileEntry) -> bool {
    &&& e.is_hidden == spec_is_hidden(e.name@)
    &&& match spec_raw_extension(e.name@) {
        Some(ext) => e.extension is Some && e.extension.unwrap()@ == lower_of(ext),
        None => e.extension is None,
    }
}

/// The display ordering relation over entries:
/// directories before files; within each, hidden before non-hidden; among
/// files, by extension when both have one and they differ; finally by
/// case-insensitive name. Equality holds exactly when every stage ties.
/// Opaque: proofs about sorting treat the comparator as a black box and
/// reveal its stages only where a law of the ordering itself is shown.
#[verifier::opaque]
pub open spec fn spec_cmp(a: FileEntry, b: FileEntry) -> Rel {
    if a.is_directory != b.is_directory {
        if a.is_directory {
            Rel::Less
        } else {
            Rel::Greater
        }
    } else if a.is_hidden != b.is_hidden {
        if a.is_hidden {
            Rel::Less
        } else {
            Rel::Greater
        }
    } else if !a.is_directory && a.extension is Some && b.extension is Some
        && a.extension.unwrap()@ != b.extension.unwrap()@ {
        lex_cmp(a.extension.unwrap()@, b.extension.unwrap()@)
    } else {
        lex_cmp(lower_of(a.name@), lower_of(b.name@))
    }
}

/// Index of the last `.` of `name`, if any.
fn find_last_dot(name: &str) -> (r: Option<usize>)
    ensures
        match r {
            Some(i) => spec_last_dot(name@) == i as int && i < name@.len(),
            None => spec_last_dot(name@) == -1,
        },
{
    let len = name.unicode_len();
    let mut j: usize = len;
    proof {
        assert(name@.take(len as int) =~= name@);
    }
    while j > 0
        invariant
            j <= len,
            len == name@.len(),
            spec_last_dot(name@) == spec_last_dot(name@.take(j as int)),
        decreases j,
    {
        if name.get_char(j - 1) == '.' {
            proof {
                assert(name@.take(j as int)[j - 1] == name@[j - 1]);
            }
            return Some(j - 1);
        }
        proof {
            assert(name@.take(j as int).drop_last() =~= name@.take(j - 1));
            assert(name@.take(j as int)[j - 1] == name@[j - 1]);
        }
        j = j - 1;
    }
    proof {
        assert(name@.take(0).len() == 0);
    }
    None
}

/// The extension of `name` in original case, if it has one.
pub(crate) fn raw_extension(name: &str) -> (r: Option<&str>)
    ensures
        match spec_raw_extension(name@) {
            Some(ext) => r is Some && r.unwrap()@ == ext,
            None => r is None,
        },
{
    let len = name.unicode_len();
    match find_last_dot(name) {
        Some(i) => {
            if i >= 1 {
                let ext = name.substring_char(i + 1, len);
                proof {
                    assert(name@.subrange(i + 1, len as int) =~= name@.skip(i + 1));
                }
                Some(ext)
            } else {
                None
            }
        },
        None => None,
    }
}

impl FileEntry {
    /// Builds the entry for one directory listing line. Construction is
    /// total: the caller supplies the name, the icon the classifier chose,
    /// and whether the entry is a directory; the hidden flag and the
    /// lower-cased extension are derived from the name here.
    pub fn new(name: String, emoji: String, is_directory: bool) -> (r: FileEntry)
        ensures
            r.name == name,
            r.emoji == emoji,
            r.is_directory == is_directory,
            entry_wf(r),
    {
        let is_hidden = if name.as_str().unicode_len() > 0 {
            name.as_str().get_char(0) == '.'
        } else {
            false
        };
        let extension = match raw_extension(name.as_str()) {
            Some(e) => Some(lowercase(e)),
            None => None,
        };
        FileEntry { emoji, name, is_directory, is_hidden, extension }
    }

    /// The stored lower-cased extension, if the name has one.
    pub fn get_extension(&self) -> (r: Option<String>)
        ensures
            r == self.extension,
    {
        match &self.extension {
            Some(e) => Some(e.clone()),
            None => None,
        }
    }

    /// Three-way comparison under the display ordering relation.
    pub fn cmp_entries(&self, other: &FileEntry) -> (r: Rel)
        ensures
            r == spec_cmp(*self, *other),
    {
        proof {
            reveal(spec_cmp);
        }
        if self.is_directory && !other.is_directory {
            return Rel::Less;
        }
        if !self.is_directory && other.is_directory {
            return Rel::Greater;
        }
        if self.is_hidden && !other.is_hidden {
            return Rel::Less;
        }
        if !self.is_hidden && other.is_hidden {
            return Rel::Greater;
        }
        if !self.is_directory {
            match (&self.extension, &other.extension) {
                (Some(ea), Some(eb)) => {
                    if !str_eq(ea.as_str(), eb.as_str()) {
                        return str_lex_cmp(ea.as_str(), eb.as_str());
                    }
                },
                _ => {},
            }
        }
        let la = lowercase(self.name.as_str());
        let lb = lowercase(other.name.as_str());
        str_lex_cmp(la.as_str(), lb.as_str())
    }

    /// The equality the ordering is built around: case-insensitive equality
    /// of the names alone, deliberately: two distinct entries whose names
    /// differ only by case compare equal here.
    pub fn name_eq(&self, other: &FileEntry) -> (r: bool)
        ensures
            r == (lower_of(self.name@) == lower_of(other.name@)),
    {
        let la = lowercase(self.name.as_str());
        let lb = lowercase(other.name.as_str());
        str_eq(la.as_str(), lb.as_str())
    }
}

} // verus!
