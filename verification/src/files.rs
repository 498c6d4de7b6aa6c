use vstd::prelude::*;

verus! {

/// What kind of file-system object a file is.
#[derive(Debug, Clone, Copy, PartialEq, Eq, Structural)]
pub enum FileKind {
    Directory,
    Regular,
}

/// The library's view of one file: the plain values the preview logic
/// reads.  The metadata loader fills one in from the real file system.
#[derive(Debug)]
pub struct File {
    /// Full path of the file.
    pub path: String,
    /// File name, the last path component.
    pub name: String,
    /// Path of the containing directory.
    pub parent: String,
    /// The file name's extension, if it has one.
    pub ext: Option<String>,
    pub kind: FileKind,
}

impl Clone for File {
    fn clone(&self) -> (r: File)
        ensures
            r == *self,
    {
        File {
            path: self.path.clone(),
            name: self.name.clone(),
            parent: self.parent.clone(),
            ext: match &self.ext {
                Some(e) => Some(e.clone()),
                None => None,
            },
            kind: self.kind,
        }
    }
}

impl File {
    /// Two files are the same selection when they name the same path and
    /// kind of object.
    pub open spec fn spec_same(self, other: File) -> bool {
        self.path@ == other.path@ && self.kind == other.kind
    }

    pub fn same_as(&self, other: &File) -> (r: bool)
        ensures
            r == self.spec_same(*other),
    {
        self.path == other.path && self.kind == other.kind
    }

    /// Whether two files sit in the same directory, which decides whether
    /// the reveal animation keeps playing across the transition.
    pub open spec fn spec_same_dir(self, other: File) -> bool {
        self.parent@ == other.parent@
    }

    pub fn same_dir_as(&self, other: &File) -> (r: bool)
        ensures
            r == self.spec_same_dir(*other),
    {
        self.parent == other.parent
    }
}

/// A MIME type, split into its top-level type and subtype.
#[derive(Debug, Clone)]
pub struct Mime {
    pub top: String,
    pub sub: String,
}

} // verus!
