//! The upload directory as the blob store sees it: a flat set of files, each
//! with a name and a content. The service asks its caller for four
//! operations on it; this model says what each of them does to a directory
//! that works, and it is against this model that the store's behaviour is
//! stated.

use vstd::prelude::*;

verus! {

/// The files of the upload directory, by name.
pub struct Directory {
    pub files: Map<Seq<char>, Seq<u8>>,
}

/// How an attempt to remove a file ended.
#[derive(Clone, Copy, PartialEq, Eq, Structural, Debug)]
pub enum Removal {
    /// The file is gone.
    Removed,
    /// There was no such file.
    Missing,
    /// The file is there and could not be removed.
    Failed,
}

impl Directory {
    /// Is there a file called `name`?
    pub open spec fn holds(self, name: Seq<char>) -> bool {
        self.files.contains_key(name)
    }

    /// Creates the empty file `name`, unless a file of that name exists.
    /// Gives the directory afterwards and whether the file was created.
    pub open spec fn create_new(self, name: Seq<char>) -> (Directory, bool) {
        if self.holds(name) {
            (self, false)
        } else {
            (Directory { files: self.files.insert(name, Seq::empty()) }, true)
        }
    }

    /// Writes `bytes` behind the content of the file `name`. Gives the
    /// directory afterwards and whether the bytes were written.
    pub open spec fn append(self, name: Seq<char>, bytes: Seq<u8>) -> (Directory, bool) {
        if self.holds(name) {
            (Directory { files: self.files.insert(name, self.files[name] + bytes) }, true)
        } else {
            (self, false)
        }
    }

    /// The whole content of the file `name`, if there is such a file.
    pub open spec fn read(self, name: Seq<char>) -> Option<Seq<u8>> {
        if self.holds(name) {
            Some(self.files[name])
        } else {
            None
        }
    }

    /// Removes the file `name`. Gives the directory afterwards and how the
    /// attempt ended.
    pub open spec fn remove(self, name: Seq<char>) -> (Directory, Removal) {
        if self.holds(name) {
            (Directory { files: self.files.remove(name) }, Removal::Removed)
        } else {
            (self, Removal::Missing)
        }
    }
}

} // verus!
